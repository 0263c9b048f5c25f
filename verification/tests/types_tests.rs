use auto_discovery::service::ServiceInfo;
use auto_discovery::types::{
    DiscoveryFilter, IpAddress, Ipv4Address, Ipv6Address, NetworkInterface, ProtocolType,
    ServiceType,
};

#[test]
fn test_service_type() {
    let service = ServiceType::new("_http._tcp").unwrap();
    assert_eq!(service.service_name(), "_http");
    assert_eq!(service.protocol(), "._tcp");
    assert_eq!(service.domain(), None);
    assert_eq!(service.display_string(), "_http._tcp");
}

#[test]
fn test_service_type_with_domain() {
    let service = ServiceType::new("_http._tcp.local").unwrap();
    assert_eq!(service.service_name(), "_http");
    assert_eq!(service.protocol(), "._tcp");
    assert_eq!(service.domain(), Some("local"));
    assert_eq!(service.display_string(), "_http._tcp.local");
}

#[test]
fn test_invalid_service_type() {
    assert!(ServiceType::new("").is_err());
    assert!(ServiceType::new("invalid").is_err());
    assert!(ServiceType::new("_http").is_err()); // Missing protocol
}

#[test]
fn test_discovery_filter() {
    let filter = DiscoveryFilter::new().with_service_type(ServiceType::new("_http._tcp").unwrap());

    let service = ServiceInfo::new(
        "Test Service",
        "_http._tcp",
        8080,
        Some(vec![("version", "1.0")]),
    )
    .unwrap();

    assert!(filter.matches(&service));
}

#[test]
fn test_protocol_type_default() {
    assert_eq!(ProtocolType::default(), ProtocolType::Mdns);
}

#[test]
fn test_service_type_urn() {
    let urn = ServiceType::new("urn:schemas-upnp-org:service:ContentDirectory:1").unwrap();
    assert_eq!(urn.service_name(), "urn:schemas-upnp-org:service:ContentDirectory:1");
    assert_eq!(urn.protocol(), "");
    assert_eq!(urn.display_string(), "urn:schemas-upnp-org:service:ContentDirectory:1");
    // round-trips structurally
    let again = ServiceType::new(&urn.display_string()).unwrap();
    assert_eq!(again.service_name(), urn.service_name());
    assert_eq!(again.protocol(), urn.protocol());
    assert_eq!(again.domain(), urn.domain());
}

#[test]
fn test_service_type_roundtrip() {
    for input in ["_http._tcp", "http._tcp", "_a._udp.local.", "_x._tcp.a.b.c"] {
        let parsed = ServiceType::new(input).unwrap();
        let rendered = parsed.display_string();
        let reparsed = ServiceType::new(&rendered).unwrap();
        assert_eq!(reparsed.service_name(), parsed.service_name());
        assert_eq!(reparsed.protocol(), parsed.protocol());
        assert_eq!(reparsed.domain(), parsed.domain());
        assert_eq!(reparsed.display_string(), rendered);
    }
}

#[test]
fn test_service_type_leading_underscore_added() {
    let service = ServiceType::new("http._tcp").unwrap();
    assert_eq!(service.service_name(), "_http");
    assert_eq!(service.display_string(), "_http._tcp");
}

#[test]
fn test_filter_by_protocol_and_attribute() {
    let filter = DiscoveryFilter::new()
        .with_protocol(ProtocolType::Upnp)
        .with_attribute_pattern("ver".to_string(), "1.".to_string());
    let service = ServiceInfo::new("svc", "_http._tcp", 80, Some(vec![("version", "1.0")]))
        .unwrap()
        .with_protocol_type(ProtocolType::Upnp);
    assert!(filter.matches(&service));
    let other = ServiceInfo::new("svc", "_http._tcp", 80, Some(vec![("version", "2.0")]))
        .unwrap()
        .with_protocol_type(ProtocolType::Upnp);
    assert!(!filter.matches(&other));
}

#[test]
fn test_ip_display() {
    let v4 = IpAddress::V4(Ipv4Address(192, 168, 1, 100));
    assert_eq!(v4.to_display(), "192.168.1.100");
    let v6 = IpAddress::V6(Ipv6Address(0xfe80, 0, 0, 0, 0, 0, 0, 1));
    assert_eq!(v6.to_display(), "fe80:0:0:0:0:0:0:1");
}

#[test]
fn test_network_interface_addresses() {
    let iface = NetworkInterface::new("eth0")
        .with_ipv4(Ipv4Address(192, 168, 1, 100))
        .with_ipv6(Ipv6Address(0xfe80, 0, 0, 0, 0, 0, 0, 1))
        .with_status(true, true);
    let addrs = iface.all_addresses();
    assert_eq!(addrs.len(), 2);
    assert_eq!(addrs[0], IpAddress::V4(Ipv4Address(192, 168, 1, 100)));
    assert!(iface.is_up && iface.supports_multicast);
}
