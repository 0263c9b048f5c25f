//! Error taxonomy of the library.
//!
//! Every operation reports failure through [`DiscoveryError`].  Each variant
//! carries a human-readable message; [`DiscoveryError::severity`] maps the
//! variants onto coarse severity levels and [`DiscoveryError::is_retryable`]
//! singles out the transient kinds.

use vstd::prelude::*;

verus! {

/// The primary error type of the crate.
#[derive(Debug)]
pub enum DiscoveryError {
    /// Invalid configuration.
    Configuration(String),
    /// Invalid service data.
    InvalidData(String),
    /// A single field of a service description is invalid.
    InvalidServiceInfo {
        /// The field that holds invalid data.
        field: String,
        /// Why the field is invalid.
        reason: String,
    },
    /// The named service is not present.
    ServiceNotFound(String),
    /// DNS resolution failed.
    DnsResolution(String),
    /// mDNS protocol failure.
    Mdns(String),
    /// UPnP/SSDP protocol failure.
    Upnp(String),
    /// DNS-SD protocol failure.
    DnsSd(String),
    /// Network operation failure.
    Network(String),
    /// An operation ran out of time.
    Timeout(String),
    /// Service verification failure.
    Verification(String),
    /// Protocol-level failure (engine missing, malformed exchange).
    Protocol(String),
    /// I/O failure, with the description the source gave.
    Io(String),
    /// Security failure.
    Security(String),
    /// Anything that fits no other kind.
    Other(String),
}

/// Coarse severity of an error.
#[derive(Debug, Clone, Copy, PartialEq, Eq, Structural)]
pub enum ErrorSeverity {
    /// Fatal error requiring immediate attention.
    Fatal,
    /// Error condition.
    Error,
    /// Warning condition.
    Warning,
    /// Informational message.
    Info,
}

/// Common result type for library operations.
pub type Result<T> = core::result::Result<T, DiscoveryError>;

impl DiscoveryError {
    /// Create a new configuration error.
    pub fn configuration(msg: String) -> (r: Self)
        ensures
            r == DiscoveryError::Configuration(msg),
    {
        DiscoveryError::Configuration(msg)
    }

    /// Create a new invalid-data error.
    pub fn invalid_data(msg: String) -> (r: Self)
        ensures
            r == DiscoveryError::InvalidData(msg),
    {
        DiscoveryError::InvalidData(msg)
    }

    /// Create a new service-not-found error.
    pub fn service_not_found(msg: String) -> (r: Self)
        ensures
            r == DiscoveryError::ServiceNotFound(msg),
    {
        DiscoveryError::ServiceNotFound(msg)
    }

    /// Create a new DNS-resolution error.
    pub fn dns_resolution(msg: String) -> (r: Self)
        ensures
            r == DiscoveryError::DnsResolution(msg),
    {
        DiscoveryError::DnsResolution(msg)
    }

    /// Create a new mDNS protocol error.
    pub fn mdns(msg: String) -> (r: Self)
        ensures
            r == DiscoveryError::Mdns(msg),
    {
        DiscoveryError::Mdns(msg)
    }

    /// Create a new UPnP protocol error.
    pub fn upnp(msg: String) -> (r: Self)
        ensures
            r == DiscoveryError::Upnp(msg),
    {
        DiscoveryError::Upnp(msg)
    }

    /// Create a new DNS-SD protocol error.
    pub fn dns_sd(msg: String) -> (r: Self)
        ensures
            r == DiscoveryError::DnsSd(msg),
    {
        DiscoveryError::DnsSd(msg)
    }

    /// Create a new network error.
    pub fn network(msg: String) -> (r: Self)
        ensures
            r == DiscoveryError::Network(msg),
    {
        DiscoveryError::Network(msg)
    }

    /// Create a new timeout error.
    pub fn timeout(msg: String) -> (r: Self)
        ensures
            r == DiscoveryError::Timeout(msg),
    {
        DiscoveryError::Timeout(msg)
    }

    /// Create a new verification error.
    pub fn verification(msg: String) -> (r: Self)
        ensures
            r == DiscoveryError::Verification(msg),
    {
        DiscoveryError::Verification(msg)
    }

    /// Create a new protocol error.
    pub fn protocol(msg: String) -> (r: Self)
        ensures
            r == DiscoveryError::Protocol(msg),
    {
        DiscoveryError::Protocol(msg)
    }

    /// Create a new security error.
    pub fn security(msg: String) -> (r: Self)
        ensures
            r == DiscoveryError::Security(msg),
    {
        DiscoveryError::Security(msg)
    }

    /// Create a new error of no particular kind.
    pub fn other(msg: String) -> (r: Self)
        ensures
            r == DiscoveryError::Other(msg),
    {
        DiscoveryError::Other(msg)
    }

    /// Create a new invalid-service error.
    pub fn invalid_service(msg: String) -> (r: Self)
        ensures
            r == DiscoveryError::InvalidData(msg),
    {
        DiscoveryError::InvalidData(msg)
    }

    /// An error is retryable exactly when it is a network, timeout, or
    /// protocol failure.
    pub fn is_retryable(&self) -> (r: bool)
        ensures
            r == (self is Network || self is Timeout || self is Protocol),
    {
        match self {
            DiscoveryError::Network(_) => true,
            DiscoveryError::Timeout(_) => true,
            DiscoveryError::Protocol(_) => true,
            _ => false,
        }
    }

    /// The severity an error reports: configuration and data errors are
    /// fatal, security and verification failures are errors, timeouts are
    /// informational, and everything else is a warning.
    pub fn severity(&self) -> (r: ErrorSeverity)
        ensures
            r == self.spec_severity(),
    {
        match self {
            DiscoveryError::Configuration(_) => ErrorSeverity::Fatal,
            DiscoveryError::InvalidData(_) => ErrorSeverity::Fatal,
            DiscoveryError::Security(_) => ErrorSeverity::Error,
            DiscoveryError::Verification(_) => ErrorSeverity::Error,
            DiscoveryError::Timeout(_) => ErrorSeverity::Info,
            _ => ErrorSeverity::Warning,
        }
    }

    /// Spec-level severity map.
    pub open spec fn spec_severity(&self) -> ErrorSeverity {
        if self is Configuration || self is InvalidData {
            ErrorSeverity::Fatal
        } else if self is Security || self is Verification {
            ErrorSeverity::Error
        } else if self is Timeout {
            ErrorSeverity::Info
        } else {
            ErrorSeverity::Warning
        }
    }
}

} // verus!
