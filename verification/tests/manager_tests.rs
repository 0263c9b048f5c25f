use auto_discovery::discovery::{select_services, ServiceCache};
use auto_discovery::manager::ProtocolManager;
use auto_discovery::service::ServiceInfo;
use auto_discovery::types::{DiscoveryFilter, ProtocolType, ServiceType};

fn make(name: &str, ty: &str, port: u16) -> ServiceInfo {
    ServiceInfo::new(name, ty, port, None).unwrap()
}

#[test]
fn test_resolve_concrete_protocol() {
    let manager = ProtocolManager::new(vec![ProtocolType::Mdns, ProtocolType::Upnp]);
    assert_eq!(
        manager.resolve_protocol(ProtocolType::Upnp).unwrap(),
        ProtocolType::Upnp
    );
    let missing = manager.resolve_protocol(ProtocolType::DnsSd).unwrap_err();
    assert!(matches!(
        missing,
        auto_discovery::error::DiscoveryError::Protocol(_)
    ));
}

#[test]
fn test_resolve_any_prefers_mdns() {
    let manager = ProtocolManager::new(vec![ProtocolType::Upnp, ProtocolType::Mdns]);
    assert_eq!(
        manager.resolve_protocol(ProtocolType::Any).unwrap(),
        ProtocolType::Mdns
    );

    let no_mdns = ProtocolManager::new(vec![ProtocolType::Upnp, ProtocolType::DnsSd]);
    assert_eq!(
        no_mdns.resolve_protocol(ProtocolType::Any).unwrap(),
        ProtocolType::Upnp
    );

    let none = ProtocolManager::new(vec![]);
    assert!(none.resolve_protocol(ProtocolType::Any).is_err());
}

#[test]
fn test_fan_out_merge_keeps_both_engines() {
    // one service registered under each engine appears once per engine tag
    let manager = ProtocolManager::new(vec![ProtocolType::Mdns, ProtocolType::Upnp]);
    assert_eq!(
        manager.protocol_types(),
        vec![ProtocolType::Mdns, ProtocolType::Upnp]
    );

    let from_mdns = vec![make("m", "_a._tcp", 1).with_protocol_type(ProtocolType::Mdns)];
    let from_upnp = vec![make("u", "_a._tcp", 2).with_protocol_type(ProtocolType::Upnp)];
    let merged = manager.merge_results(vec![from_mdns, from_upnp]);

    assert_eq!(merged.len(), 2);
    assert_eq!(merged[0].name(), "m");
    assert_eq!(merged[0].protocol_type(), ProtocolType::Mdns);
    assert_eq!(merged[1].name(), "u");
    assert_eq!(merged[1].protocol_type(), ProtocolType::Upnp);
}

#[test]
fn test_select_services_filters_and_caps() {
    let services = vec![
        make("a", "_http._tcp", 1),
        make("b", "_ssh._tcp", 2),
        make("c", "_http._tcp", 3),
        make("d", "_http._tcp", 4),
    ];
    let filter = DiscoveryFilter::new().with_service_type(ServiceType::new("_http._tcp").unwrap());
    let selected = select_services(services.clone(), Some(&filter), 2);
    assert_eq!(selected.len(), 2);
    assert_eq!(selected[0].name(), "a");
    assert_eq!(selected[1].name(), "c");

    // no filter, no positive cap: everything comes back
    let all = select_services(services, None, 0);
    assert_eq!(all.len(), 4);
}

#[test]
fn test_service_cache() {
    let mut cache = ServiceCache::new();
    let first = make("svc", "_http._tcp", 1);
    let second = make("svc", "_http._tcp", 2);
    let other = make("other", "_http._tcp", 3);

    cache.insert_all(&vec![first, other]);
    assert_eq!(cache.len(), 2);
    assert!(cache.contains_name("svc"));

    // same name replaces in place
    cache.insert(&second);
    assert_eq!(cache.len(), 2);
    let services = cache.services();
    let svc = services.iter().find(|s| s.name() == "svc").unwrap();
    assert_eq!(svc.port(), 2);

    cache.remove_name("svc");
    assert!(!cache.contains_name("svc"));
    assert!(cache.contains_name("other"));
}
