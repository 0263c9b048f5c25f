use auto_discovery::registry::{service_key, ServiceFilter, ServiceRegistry};
use auto_discovery::service::ServiceInfo;
use auto_discovery::types::{IpAddress, Ipv4Address, ProtocolType, ServiceType};

fn make(name: &str, ty: &str, port: u16) -> ServiceInfo {
    ServiceInfo::new(name, ty, port, None)
        .unwrap()
        .with_address(IpAddress::V4(Ipv4Address(127, 0, 0, 1)))
}

#[test]
fn registry_register_and_find_local() {
    let mut registry = ServiceRegistry::new();
    let service = make("test", "_http._tcp", 8080);

    registry
        .register_local_service(service.clone(), ProtocolType::Mdns)
        .unwrap();

    let local = registry.get_local_services();
    assert_eq!(local.len(), 1);
    assert_eq!(local[0].name(), service.name());
}

#[test]
fn registry_add_and_find_discovered() {
    let mut registry = ServiceRegistry::new();
    let service = make("discovered", "_http._tcp", 9090);

    registry
        .add_discovered_service(service.clone(), ProtocolType::Upnp, Some(60000))
        .unwrap();

    let discovered = registry.get_discovered_services();
    assert_eq!(discovered.len(), 1);
    assert_eq!(discovered[0].name(), service.name());
    assert_eq!(registry.get_local_services().len(), 0);
}

#[test]
fn registry_filters() {
    let mut registry = ServiceRegistry::new();
    let web = make("web", "_http._tcp", 80);
    let ssh = make("ssh", "_ssh._tcp", 22);

    registry
        .register_local_service(web.clone(), ProtocolType::Mdns)
        .unwrap();
    registry
        .add_discovered_service(ssh.clone(), ProtocolType::Upnp, Some(60000))
        .unwrap();

    let http = registry.get_services_by_type(&ServiceType::new("_http._tcp").unwrap());
    assert_eq!(http.len(), 1);
    assert_eq!(http[0].name(), "web");

    let mdns = registry.get_services_by_protocol(ProtocolType::Mdns);
    assert_eq!(mdns.len(), 1);
    assert_eq!(mdns[0].name(), "web");

    let named = registry.find_services(&ServiceFilter::new().with_name_contains("ss".to_string()));
    assert_eq!(named.len(), 1);
    assert_eq!(named[0].name(), "ssh");

    // local_only and discovered_only together match nothing
    let none = registry.find_services(&ServiceFilter::new().local_only().discovered_only());
    assert_eq!(none.len(), 0);
}

#[test]
fn registry_ttl_expiry() {
    // TTL window judged at explicit clock readings (50 ms TTL)
    let mut registry = ServiceRegistry::new();
    let service = make("temp", "_http._tcp", 8080);
    let t0 = 1_000_000u64;

    registry
        .add_discovered_service_at(service.clone(), ProtocolType::Mdns, Some(50), t0)
        .unwrap();

    let filter = ServiceFilter::new();
    let now_live = registry.find_services_at(&filter, t0);
    assert_eq!(now_live.len(), 1);
    assert_eq!(now_live[0].name(), "temp");

    // still inside the window at its very edge
    assert_eq!(registry.find_services_at(&filter, t0 + 50).len(), 1);

    // past the window the service vanishes from queries
    assert_eq!(registry.find_services_at(&filter, t0 + 100).len(), 0);

    // cleanup reclaims exactly the one expired slot
    let removed = registry.cleanup_expired_at(t0 + 100);
    assert_eq!(removed, 1);
    assert_eq!(registry.stats_at(t0 + 100).total_services, 0);
}

#[test]
fn registry_capacity_eviction() {
    let mut registry = ServiceRegistry::with_settings(300000, 2);
    let t0 = 1_000u64;

    registry
        .add_discovered_service_at(make("a", "_x._tcp", 1), ProtocolType::Mdns, Some(10), t0)
        .unwrap();
    registry
        .add_discovered_service_at(make("b", "_x._tcp", 2), ProtocolType::Mdns, Some(10000), t0)
        .unwrap();

    // full with nothing expired: a third discovered service is refused
    let refused =
        registry.add_discovered_service_at(make("c", "_x._tcp", 3), ProtocolType::Mdns, None, t0 + 5);
    assert!(refused.is_err());
    assert_eq!(registry.stats_at(t0 + 5).total_services, 2);

    // once "a" expires, a new arrival evicts it
    registry
        .add_discovered_service_at(make("c", "_x._tcp", 3), ProtocolType::Mdns, None, t0 + 100)
        .unwrap();
    let stats = registry.stats_at(t0 + 100);
    assert_eq!(stats.total_services, 2);
    let names: Vec<String> = registry
        .find_services_at(&ServiceFilter::new(), t0 + 100)
        .iter()
        .map(|s| s.name().to_string())
        .collect();
    assert!(names.contains(&"b".to_string()));
    assert!(names.contains(&"c".to_string()));
}

#[test]
fn registry_unregister_and_keys() {
    let mut registry = ServiceRegistry::new();
    let service = make("svc", "_http._tcp", 8080);
    let key = service_key(&service);
    assert_eq!(key, "svc:_http._tcp:8080");

    registry
        .register_local_service(service.clone(), ProtocolType::Mdns)
        .unwrap();
    assert!(registry.contains_service(&key));
    assert!(registry.is_local_service(&key));

    registry.unregister_local_service(&key).unwrap();
    assert!(!registry.contains_service(&key));

    // a second removal reports the missing key
    let err = registry.unregister_local_service(&key).unwrap_err();
    assert!(matches!(
        err,
        auto_discovery::error::DiscoveryError::ServiceNotFound(_)
    ));
}

#[test]
fn registry_replaces_same_key() {
    let mut registry = ServiceRegistry::new();
    let first = make("svc", "_http._tcp", 8080);
    let second = make("svc", "_http._tcp", 8080).with_attribute("v".to_string(), "2".to_string());

    registry
        .register_local_service(first, ProtocolType::Mdns)
        .unwrap();
    registry
        .register_local_service(second, ProtocolType::Mdns)
        .unwrap();

    let local = registry.get_local_services();
    assert_eq!(local.len(), 1);
    assert_eq!(local[0].get_attribute("v"), Some(&"2".to_string()));
}

#[test]
fn registry_stats_counts() {
    let mut registry = ServiceRegistry::new();
    let t0 = 5_000u64;
    registry
        .register_local_service_at(make("l", "_a._tcp", 1), ProtocolType::Mdns, t0)
        .unwrap();
    registry
        .add_discovered_service_at(make("d1", "_a._tcp", 2), ProtocolType::Upnp, Some(10), t0)
        .unwrap();
    registry
        .add_discovered_service_at(make("d2", "_a._tcp", 3), ProtocolType::Upnp, Some(10000), t0)
        .unwrap();

    let stats = registry.stats_at(t0 + 100);
    assert_eq!(stats.total_services, 3);
    assert_eq!(stats.local_services, 1);
    assert_eq!(stats.discovered_services, 2);
    assert_eq!(stats.expired_services, 1);

    // cleanup never removes local entries
    let removed = registry.cleanup_expired_at(t0 + 100);
    assert_eq!(removed, 1);
    assert_eq!(registry.get_local_services().len(), 1);
}
