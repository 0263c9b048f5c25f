use auto_discovery::service::ServiceInfo;
use auto_discovery::ssdp::{
    build_announcement, build_msearch_request, cap_discover_timeout_ms, mx_for_timeout,
    parse_search_target, parse_service_from_response, service_matches_search, SsdpEngine,
};
use auto_discovery::types::{IpAddress, Ipv4Address};

fn make(name: &str, ty: &str, port: u16) -> ServiceInfo {
    ServiceInfo::new(name, ty, port, None)
        .unwrap()
        .with_address(IpAddress::V4(Ipv4Address(127, 0, 0, 1)))
}

#[test]
fn test_search_target_parsing() {
    let message = "M-SEARCH * HTTP/1.1\r\nST: upnp:rootdevice\r\n\r\n";
    let target = parse_search_target(message);
    assert_eq!(target, "upnp:rootdevice");
}

#[test]
fn test_search_target_default_and_case() {
    // no ST header defaults to ssdp:all; header names match case-insensitively
    assert_eq!(parse_search_target("M-SEARCH * HTTP/1.1\r\n\r\n"), "ssdp:all");
    assert_eq!(
        parse_search_target("M-SEARCH * HTTP/1.1\r\nst:  ssdp:all \r\n\r\n"),
        "ssdp:all"
    );
}

#[test]
fn test_service_matching() {
    let service = make("test-service", "upnp._tcp", 8080);

    assert!(service_matches_search("ssdp:all", &service));
    assert!(service_matches_search("upnp:rootdevice", &service));
    assert!(!service_matches_search("specific:service", &service));
    // the rendered type itself, and any substring of it, match
    assert!(service_matches_search("_upnp._tcp", &service));
    assert!(service_matches_search("_tcp", &service));
}

#[test]
fn test_msearch_request_wire_format() {
    let msg = build_msearch_request("ssdp:all", 3);
    assert_eq!(
        msg,
        "M-SEARCH * HTTP/1.1\r\nHOST: 239.255.255.250:1900\r\nMAN: \"ssdp:discover\"\r\nST: ssdp:all\r\nMX: 3\r\n\r\n"
    );
}

#[test]
fn test_timeout_caps() {
    assert_eq!(cap_discover_timeout_ms(None), 10000);
    assert_eq!(cap_discover_timeout_ms(Some(2000)), 2000);
    assert_eq!(cap_discover_timeout_ms(Some(60000)), 30000);
    assert_eq!(mx_for_timeout(3), 3);
    assert_eq!(mx_for_timeout(10), 5);
}

#[test]
fn test_response_parsing() {
    let response = "HTTP/1.1 200 OK\r\nLOCATION: http://192.168.1.5:80/desc\r\nUSN: uuid:abc-123::upnp:rootdevice\r\n\r\n";
    let source = IpAddress::V4(Ipv4Address(192, 168, 1, 5));
    let service = parse_service_from_response(response, source, 54321).unwrap();
    assert_eq!(service.name(), "uuid:abc-123");
    assert_eq!(service.port(), 54321);
    assert_eq!(service.address(), source);
    assert_eq!(
        service.get_attribute("location"),
        Some(&"http://192.168.1.5:80/desc".to_string())
    );
    assert_eq!(
        service.get_attribute("usn"),
        Some(&"uuid:abc-123::upnp:rootdevice".to_string())
    );
    assert_eq!(
        service.protocol_type(),
        auto_discovery::types::ProtocolType::Upnp
    );

    // a datagram missing a mandatory header is ignored, not an error
    let incomplete = "HTTP/1.1 200 OK\r\nLOCATION: http://x/\r\n\r\n";
    assert!(parse_service_from_response(incomplete, source, 1).is_none());
}

#[test]
fn test_msearch_response_match() {
    // a registered service answers an ssdp:all search with one datagram
    let mut engine = SsdpEngine::new();
    let service = make("test-device", "urn:test-service-type", 8080);
    let id = service.id.clone();
    let alive = engine.register_service(&service);
    assert!(alive.contains("NTS: ssdp:alive"));
    assert!(alive.starts_with("NOTIFY * HTTP/1.1\r\n"));

    let date = "Mon, 01 Jan 2024 00:00:00 GMT";
    let responses = engine.respond_to_search_dated(
        "M-SEARCH * HTTP/1.1\r\nHOST: 239.255.255.250:1900\r\nMAN: \"ssdp:discover\"\r\nST: ssdp:all\r\nMX: 2\r\n\r\n",
        date,
    );
    assert_eq!(responses.len(), 1);
    let reply = &responses[0];
    assert!(reply.starts_with("HTTP/1.1 200 OK\r\n"));
    assert!(reply.contains("LOCATION: http://127.0.0.1:8080/"));
    assert!(reply.contains(&format!("USN: uuid:{}::upnp:rootdevice", id)));
    assert!(reply.contains(&format!("DATE: {}", date)));

    // a non-M-SEARCH datagram draws no response
    let quiet = engine.respond_to_search_dated("NOTIFY * HTTP/1.1\r\n\r\n", date);
    assert_eq!(quiet.len(), 0);

    // an unmatched target draws no response
    let unmatched = engine
        .respond_to_search_dated("M-SEARCH * HTTP/1.1\r\nST: unrelated:thing\r\n\r\n", date);
    assert_eq!(unmatched.len(), 0);
}

#[test]
fn test_every_registered_service_answers_all() {
    let mut engine = SsdpEngine::new();
    for i in 0..3u16 {
        let service = make(&format!("dev{}", i), "urn:test-service-type", 8000 + i);
        engine.register_service(&service);
    }
    let responses = engine
        .respond_to_search_dated("M-SEARCH * HTTP/1.1\r\nST: ssdp:all\r\n\r\n", "d");
    assert_eq!(responses.len(), 3);
}

#[test]
fn test_register_verify_unregister() {
    let mut engine = SsdpEngine::new();
    let service = make("dev", "urn:x", 8080);

    assert!(!engine.verify_service(&service));
    engine.register_service(&service);
    assert!(engine.verify_service(&service));

    let byebye = engine.unregister_service(&service).unwrap();
    assert!(byebye.contains("NTS: ssdp:byebye"));
    assert!(!engine.verify_service(&service));

    // a second withdrawal finds nothing
    assert!(engine.unregister_service(&service).is_none());
}

#[test]
fn test_listener_state() {
    let mut engine = SsdpEngine::new();
    assert!(!engine.is_listening());
    engine.start_listener();
    assert!(engine.is_listening());
    engine.shutdown();
    assert!(!engine.is_listening());
    // the listener may be restarted after a shutdown
    engine.start_listener();
    assert!(engine.is_listening());
}

#[test]
fn test_announcement_wire_format() {
    let service = make("dev", "urn:x", 9000);
    let msg = build_announcement(&service, "ssdp:byebye");
    assert!(msg.starts_with("NOTIFY * HTTP/1.1\r\nHOST: 239.255.255.250:1900\r\n"));
    assert!(msg.contains("LOCATION: http://127.0.0.1:9000/"));
    assert!(msg.contains("NTS: ssdp:byebye"));
    assert!(msg.ends_with("\r\n\r\n"));
}

#[test]
fn test_respond_with_clock_date() {
    // the clock-dated responder answers like the dated one
    let mut engine = SsdpEngine::new();
    engine.register_service(&make("dev", "urn:clock", 8080));
    let responses = engine.respond_to_search("M-SEARCH * HTTP/1.1\r\nST: ssdp:all\r\n\r\n");
    assert_eq!(responses.len(), 1);
    assert!(responses[0].contains("DATE: "));
    assert!(responses[0].contains("GMT"));
}
