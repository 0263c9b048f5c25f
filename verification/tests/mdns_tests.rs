use auto_discovery::mdns::{
    convert_resolved, mdns_backoff_delay_ms, mdns_full_service_name, mdns_hostname,
    mdns_verify_service, mdns_wire_type, merge_local_services,
};
use auto_discovery::registry::ServiceRegistry;
use auto_discovery::service::ServiceInfo;
use auto_discovery::types::{IpAddress, Ipv4Address, ProtocolType, ServiceType};

fn make(name: &str, ty: &str, port: u16) -> ServiceInfo {
    ServiceInfo::new(name, ty, port, None)
        .unwrap()
        .with_address(IpAddress::V4(Ipv4Address(127, 0, 0, 1)))
}

#[test]
fn test_wire_type_normalisation() {
    let bare = ServiceType::new("_test._tcp").unwrap();
    assert_eq!(mdns_wire_type(&bare), "_test._tcp.local.");

    let already = ServiceType::new("_test._tcp.local.").unwrap();
    assert_eq!(mdns_wire_type(&already), "_test._tcp.local.");
}

#[test]
fn test_hostname_and_full_name() {
    assert_eq!(mdns_hostname("myhost"), "myhost.local.");
    let service = make("test_service", "_test._tcp", 8080);
    assert_eq!(mdns_full_service_name(&service), "test_service._test._tcp.local.");
}

#[test]
fn test_backoff_delays() {
    assert_eq!(mdns_backoff_delay_ms(1), 100);
    assert_eq!(mdns_backoff_delay_ms(2), 200);
    assert_eq!(mdns_backoff_delay_ms(3), 300);
}

#[test]
fn test_convert_resolved() {
    let addrs = vec![
        IpAddress::V4(Ipv4Address(192, 168, 1, 7)),
        IpAddress::V4(Ipv4Address(10, 0, 0, 7)),
    ];
    let service = convert_resolved("host.local.", "_test._tcp.local.", &addrs, 8080).unwrap();
    assert_eq!(service.name(), "host.local.");
    assert_eq!(service.port(), 8080);
    assert_eq!(service.address(), IpAddress::V4(Ipv4Address(192, 168, 1, 7)));
    assert_eq!(service.protocol_type(), ProtocolType::Mdns);
    assert_eq!(service.attributes.len(), 0);

    // an answer without addresses is an mDNS failure
    let none: Vec<IpAddress> = vec![];
    let err = convert_resolved("host.local.", "_test._tcp.local.", &none, 8080).unwrap_err();
    assert!(matches!(err, auto_discovery::error::DiscoveryError::Mdns(_)));

    // an unparsable type is invalid data
    let bad = convert_resolved("host.local.", "nonsense", &addrs, 8080).unwrap_err();
    assert!(matches!(
        bad,
        auto_discovery::error::DiscoveryError::InvalidData(_)
    ));
}

#[test]
fn test_register_then_discover_roundtrip() {
    // register locally, browse finds nothing on the wire, and the merge
    // still reports the registered service (name and port intact)
    let mut registry = ServiceRegistry::new();
    let service = make("test_service", "_test._tcp", 8080);

    registry
        .register_local_service(service.clone(), ProtocolType::Mdns)
        .unwrap();

    let requested = vec![ServiceType::new("_test._tcp.local.").unwrap()];
    let network_results: Vec<ServiceInfo> = Vec::new();
    let local = registry.get_local_services();
    let discovered = merge_local_services(network_results, &local, &requested);

    assert!(!discovered.is_empty());
    assert_eq!(discovered[0].name(), "test_service");
    assert_eq!(discovered[0].port(), 8080);

    // after unregistering, verification fails
    let key = auto_discovery::registry::service_key(&service);
    registry.unregister_local_service(&key).unwrap();
    let local = registry.get_local_services();
    assert!(!mdns_verify_service(&local, &service));
}

#[test]
fn test_merge_deduplicates_by_id() {
    let service = make("dup", "_test._tcp", 1);
    let requested = vec![ServiceType::new("_test._tcp").unwrap()];
    // the same instance already came back from the network
    let network = vec![service.clone()];
    let local = vec![service.clone()];
    let merged = merge_local_services(network, &local, &requested);
    assert_eq!(merged.len(), 1);
}

#[test]
fn test_merge_skips_unrequested_types() {
    let service = make("other", "_other._tcp", 1);
    let requested = vec![ServiceType::new("_test._tcp").unwrap()];
    let merged = merge_local_services(Vec::new(), &vec![service], &requested);
    assert_eq!(merged.len(), 0);
}

#[test]
fn test_verify_by_name() {
    let service = make("alive", "_test._tcp", 5);
    let local = vec![service.clone()];
    assert!(mdns_verify_service(&local, &service));
    let other = make("gone", "_test._tcp", 5);
    assert!(!mdns_verify_service(&local, &other));
}
