use auto_discovery::error::{DiscoveryError, ErrorSeverity};

#[test]
fn test_error_severity() {
    assert_eq!(
        DiscoveryError::DnsResolution("test".to_string()).severity(),
        ErrorSeverity::Warning
    );
    assert_eq!(
        DiscoveryError::protocol("test".to_string()).severity(),
        ErrorSeverity::Warning
    );
}

#[test]
fn test_error_retryable() {
    assert!(DiscoveryError::Timeout("5".to_string()).is_retryable());
    assert!(!DiscoveryError::invalid_service("test".to_string()).is_retryable());
}

#[test]
fn test_error_kinds() {
    assert_eq!(
        DiscoveryError::configuration("c".to_string()).severity(),
        ErrorSeverity::Fatal
    );
    assert_eq!(
        DiscoveryError::invalid_data("d".to_string()).severity(),
        ErrorSeverity::Fatal
    );
    assert_eq!(
        DiscoveryError::security("s".to_string()).severity(),
        ErrorSeverity::Error
    );
    assert_eq!(
        DiscoveryError::verification("v".to_string()).severity(),
        ErrorSeverity::Error
    );
    assert_eq!(
        DiscoveryError::timeout("t".to_string()).severity(),
        ErrorSeverity::Info
    );
    assert_eq!(
        DiscoveryError::mdns("m".to_string()).severity(),
        ErrorSeverity::Warning
    );
    assert_eq!(
        DiscoveryError::other("o".to_string()).severity(),
        ErrorSeverity::Warning
    );
    assert!(DiscoveryError::network("n".to_string()).is_retryable());
    assert!(!DiscoveryError::upnp("u".to_string()).is_retryable());
    assert!(!DiscoveryError::dns_sd("x".to_string()).is_retryable());
    assert!(!DiscoveryError::dns_resolution("r".to_string()).is_retryable());
    assert!(!DiscoveryError::service_not_found("k".to_string()).is_retryable());
}
