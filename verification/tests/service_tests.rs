use auto_discovery::service::{ServiceEvent, ServiceInfo};
use auto_discovery::types::ProtocolType;

#[test]
fn test_service_creation() {
    let service = ServiceInfo::new(
        "Test Service",
        "_http._tcp",
        8080,
        Some(vec![("version", "1.0"), ("protocol", "HTTP/1.1")]),
    )
    .unwrap();

    assert_eq!(service.name(), "Test Service");
    assert_eq!(service.get_attribute("version"), Some(&"1.0".to_string()));
    assert!(!service.is_expired());
}

#[test]
fn test_service_attributes() {
    let service = ServiceInfo::new("Test Service", "_http._tcp", 8080, None)
        .unwrap()
        .with_attribute("version".to_string(), "1.0".to_string())
        .with_attribute("secure".to_string(), "true".to_string());

    assert_eq!(service.get_attribute("version"), Some(&"1.0".to_string()));
    assert_eq!(service.get_attribute("secure"), Some(&"true".to_string()));
    assert_eq!(service.get_attribute("nonexistent"), None);
}

#[test]
fn test_service_protocol() {
    let service = ServiceInfo::new("Test Service", "_http._tcp", 8080, None)
        .unwrap()
        .with_protocol_type(ProtocolType::Mdns);

    assert_eq!(service.protocol_type(), ProtocolType::Mdns);
}

#[test]
fn test_service_id_shape() {
    // identifiers are hyphenated UUIDs: 36 characters, fresh per service
    let a = ServiceInfo::new("a", "_http._tcp", 80, None).unwrap();
    let b = ServiceInfo::new("b", "_http._tcp", 80, None).unwrap();
    assert_eq!(a.id.len(), 36);
    assert_eq!(b.id.len(), 36);
    assert_ne!(a.id, b.id);
}

#[test]
fn test_service_ttl_window() {
    let service = ServiceInfo::new("t", "_http._tcp", 80, None)
        .unwrap()
        .with_ttl(50);
    let born = service.discovered_at;
    assert!(!service.is_expired_at(born));
    assert!(!service.is_expired_at(born + 50));
    assert!(service.is_expired_at(born + 51));
    // a clock behind the record's timestamp never expires it
    assert!(!service.is_expired_at(born.saturating_sub(10)));
}

#[test]
fn test_service_refresh() {
    let mut service = ServiceInfo::new("t", "_http._tcp", 80, None)
        .unwrap()
        .with_ttl(0);
    let born = service.discovered_at;
    assert!(service.is_expired_at(born + 1));
    service.refresh();
    // the refreshed timestamp comes from the clock, so judge at its own time
    assert!(!service.is_expired_at(service.discovered_at));
    assert!(service.discovered_at >= born);
}

#[test]
fn test_service_events() {
    let service = ServiceInfo::new("e", "_http._tcp", 80, None).unwrap();
    let ev = ServiceEvent::new(service.clone());
    assert!(ev.is_positive());
    assert!(!ev.is_negative());
    assert_eq!(ev.service().map(|s| s.name().to_string()), Some("e".to_string()));

    let gone = ServiceEvent::removed(service);
    assert!(gone.is_negative());

    let done = ServiceEvent::discovery_completed(3, 1500);
    assert!(done.is_positive());
    assert!(done.service().is_none());

    let failed = ServiceEvent::discovery_failed("boom".to_string(), vec![]);
    assert!(failed.is_negative());
}
