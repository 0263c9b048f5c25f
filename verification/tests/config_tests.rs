use auto_discovery::config::{DiscoveryConfig, RegistrationConfig};
use auto_discovery::types::{ProtocolType, ServiceType};

#[test]
fn test_config_defaults() {
    let config = DiscoveryConfig::new();
    assert_eq!(config.service_types().len(), 0);
    assert!(config.timeout().is_some());
    assert!(!config.verify_services());
    assert!(config.is_protocol_enabled(ProtocolType::Mdns));
}

#[test]
fn test_config_builder() {
    let config = DiscoveryConfig::new().with_service_type(ServiceType::new("_http._tcp").unwrap());
    assert_eq!(config.service_types().len(), 1);
}

#[test]
fn config_test_config_validation() {
    let config = DiscoveryConfig::new()
        .with_service_type(ServiceType::new("_http._tcp").unwrap())
        .with_timeout(10000)
        .with_verify_services(true);

    assert!(config.validate().is_ok());

    // Test invalid timeout
    let invalid_config = DiscoveryConfig::new().with_timeout(0);
    assert!(invalid_config.validate().is_err());

    // any positive timeout is accepted, sub-second ones included
    let brief = DiscoveryConfig::new().with_timeout(500);
    assert!(brief.validate().is_ok());

    // Test invalid network config
    let invalid_config = DiscoveryConfig::new().with_ipv4(false).with_ipv6(false);
    assert!(invalid_config.validate().is_err());
}

#[test]
fn test_config_validation_protocols() {
    let empty = DiscoveryConfig::new().with_protocols(vec![]);
    assert!(empty.validate().is_err());

    let mut toggled = DiscoveryConfig::new();
    toggled.enable_protocol(ProtocolType::Upnp);
    toggled.disable_protocol(ProtocolType::Mdns);
    assert!(toggled.is_protocol_enabled(ProtocolType::Upnp));
    assert!(!toggled.is_protocol_enabled(ProtocolType::Mdns));
    assert!(toggled.validate().is_ok());
}

#[test]
fn test_protocol_timeout_default() {
    let config = DiscoveryConfig::new();
    assert_eq!(config.protocol_timeout(), 30000);
    assert_eq!(config.with_timeout(2000).protocol_timeout(), 2000);
}

#[test]
fn test_registration_config_validation() {
    let ok = RegistrationConfig::new();
    assert!(ok.validate().is_ok());

    assert!(RegistrationConfig::new().ttl(0).validate().is_err());
    assert!(RegistrationConfig::new()
        .auto_refresh(true)
        .refresh_interval(0)
        .validate()
        .is_err());
    assert!(RegistrationConfig::new()
        .ttl(1000)
        .refresh_interval(1000)
        .validate()
        .is_err());
    assert!(RegistrationConfig::new().protocols(vec![]).validate().is_err());
    // refresh checks are skipped when auto-refresh is off
    assert!(RegistrationConfig::new()
        .auto_refresh(false)
        .refresh_interval(0)
        .validate()
        .is_ok());
}

#[test]
fn test_registration_config_builders() {
    let config = RegistrationConfig::new()
        .ttl(90000)
        .refresh_interval(30000)
        .priority(7)
        .weight(9)
        .protocols(vec![ProtocolType::Upnp])
        .interfaces(vec!["eth0".to_string()]);
    assert_eq!(config.ttl_ms, 90000);
    assert_eq!(config.refresh_interval_ms, 30000);
    assert_eq!(config.priority, 7);
    assert_eq!(config.weight, 9);
    assert_eq!(config.protocols, vec![ProtocolType::Upnp]);
    assert_eq!(config.interfaces, vec!["eth0".to_string()]);
}
