use auto_discovery::types::{
    IpAddress, Ipv4Address, Ipv6Address, NetworkInterface, ServiceAttributes,
};
use auto_discovery::utils;

#[test]
fn test_current_timestamp() {
    let timestamp = utils::current_timestamp();
    assert!(timestamp > 0);

    let timestamp_millis = utils::current_timestamp_millis();
    assert!(timestamp_millis > timestamp * 1000);
}

#[test]
fn test_duration_to_string() {
    assert_eq!(utils::duration_to_string(500), "500ms");
    assert_eq!(utils::duration_to_string(5000), "5.000s");
    assert_eq!(utils::duration_to_string(65000), "1m 5s");
    assert_eq!(utils::duration_to_string(3665000), "1h 1m 5s");
}

#[test]
fn test_sanitize_service_name() {
    assert_eq!(utils::sanitize_service_name("My Service!"), "My_Service_");
    assert_eq!(
        utils::sanitize_service_name("test-service_1.0"),
        "test-service_1.0"
    );
}

#[test]
fn test_validate_service_type() {
    assert!(utils::validate_service_type("_http._tcp").is_ok());
    assert!(utils::validate_service_type("_myservice._udp").is_ok());
    assert!(utils::validate_service_type("http._tcp").is_err());
    assert!(utils::validate_service_type("_http").is_err());
    assert!(utils::validate_service_type("").is_err());
}

#[test]
fn test_parse_txt_record() {
    let txt = "version=1.0;protocol=HTTP;enabled";
    let attrs = utils::parse_txt_record(txt);

    assert_eq!(attrs.get("version"), Some(&"1.0".to_string()));
    assert_eq!(attrs.get("protocol"), Some(&"HTTP".to_string()));
    assert_eq!(attrs.get("enabled"), Some(&"".to_string()));
}

#[test]
fn test_format_txt_record() {
    let mut attrs = ServiceAttributes::new();
    attrs.insert("version".to_string(), "1.0".to_string());
    attrs.insert("enabled".to_string(), "".to_string());

    let txt = utils::format_txt_record(&attrs);
    assert!(txt.contains("version=1.0"));
    assert!(txt.contains("enabled"));
}

#[test]
fn test_validate_port() {
    assert!(utils::validate_port(8080).is_ok());
    assert!(utils::validate_port(0).is_err());
}

#[test]
fn test_validate_timeout() {
    assert!(utils::validate_timeout(5000).is_ok());
    assert!(utils::validate_timeout(0).is_err());
}

#[test]
fn test_is_private_ip() {
    assert!(utils::is_private_ip(&IpAddress::V4(Ipv4Address(192, 168, 1, 1))));
    assert!(utils::is_private_ip(&IpAddress::V4(Ipv4Address(10, 0, 0, 1))));
    assert!(utils::is_private_ip(&IpAddress::V4(Ipv4Address(172, 16, 0, 1))));
    assert!(utils::is_private_ip(&IpAddress::V4(Ipv4Address(127, 0, 0, 1))));
    assert!(!utils::is_private_ip(&IpAddress::V4(Ipv4Address(8, 8, 8, 8))));
    assert!(utils::is_private_ip(&IpAddress::V6(Ipv6Address(0xfe80, 0, 0, 0, 0, 0, 0, 2))));
    assert!(utils::is_private_ip(&IpAddress::V6(Ipv6Address(0, 0, 0, 0, 0, 0, 0, 1))));
    assert!(!utils::is_private_ip(&IpAddress::V6(Ipv6Address(0x2001, 0x4860, 0, 0, 0, 0, 0, 8))));
}

#[test]
fn test_is_loopback_ip() {
    assert!(utils::is_loopback_ip(&IpAddress::V4(Ipv4Address(127, 0, 0, 1))));
    assert!(!utils::is_loopback_ip(&IpAddress::V4(Ipv4Address(192, 168, 0, 1))));
    assert!(utils::is_loopback_ip(&IpAddress::V6(Ipv6Address(0, 0, 0, 0, 0, 0, 0, 1))));
}

#[test]
fn test_validate_ip_address() {
    assert!(utils::validate_ip_address(&IpAddress::V4(Ipv4Address(192, 168, 1, 1))).is_ok());
    assert!(utils::validate_ip_address(&IpAddress::V4(Ipv4Address(0, 0, 0, 0))).is_err());
    assert!(utils::validate_ip_address(&IpAddress::V4(Ipv4Address(255, 255, 255, 255))).is_err());
    assert!(utils::validate_ip_address(&IpAddress::V6(Ipv6Address(0, 0, 0, 0, 0, 0, 0, 1))).is_ok());
    assert!(utils::validate_ip_address(&IpAddress::V6(Ipv6Address(0, 0, 0, 0, 0, 0, 0, 0))).is_err());
}

#[test]
fn test_has_elapsed() {
    assert!(utils::has_elapsed_at(1000, 500, 2000));
    assert!(!utils::has_elapsed_at(1000, 5000, 2000));
    // a start time in the future counts as no elapsed time
    assert!(!utils::has_elapsed_at(5000, 1, 2000));
    assert!(utils::has_elapsed_at(5000, 0, 2000));
}

#[test]
fn test_interface_lookup() {
    let interfaces = vec![
        NetworkInterface::new("lo")
            .with_ipv4(Ipv4Address(127, 0, 0, 1))
            .with_status(true, false),
        NetworkInterface::new("eth0")
            .with_ipv4(Ipv4Address(192, 168, 1, 100))
            .with_status(true, true),
    ];
    let addrs = utils::get_interface_addresses(&interfaces, "eth0").unwrap();
    assert_eq!(addrs, vec![IpAddress::V4(Ipv4Address(192, 168, 1, 100))]);
    assert!(utils::get_interface_addresses(&interfaces, "wlan9").is_err());

    let multicast = utils::get_multicast_interfaces(interfaces);
    assert_eq!(multicast.len(), 1);
    assert_eq!(multicast[0].name, "eth0");
}
