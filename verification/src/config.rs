//! Configuration of discovery and registration.
//!
//! Durations are milliseconds of wall-clock time throughout.

use vstd::prelude::*;

use crate::error::DiscoveryError;
use crate::types::{
    DiscoveryFilter, DiscoveryFilterView, ProtocolType, ServiceType, ServiceTypeView,
    spec_protocols_contain, protocols_contain,
};

verus! {

/// Configuration of the discovery system.
#[derive(Debug)]
pub struct DiscoveryConfig {
    service_types: Vec<ServiceType>,
    timeout_ms: Option<u64>,
    verify_services: bool,
    interfaces: Option<Vec<String>>,
    max_services: usize,
    max_retries: u32,
    cache_duration_ms: u64,
    rate_limit_ms: Option<u64>,
    metrics_enabled: bool,
    enabled_protocols: Vec<ProtocolType>,
    allow_cross_protocol: bool,
    enable_ipv4: bool,
    enable_ipv6: bool,
    filter: Option<DiscoveryFilter>,
}

/// Mathematical image of a [`DiscoveryConfig`].
pub struct DiscoveryConfigView {
    /// Service types to discover.
    pub service_types: Seq<ServiceTypeView>,
    /// Overall operation timeout in ms.
    pub timeout_ms: Option<u64>,
    /// Whether discovered services are verified.
    pub verify_services: bool,
    /// Interface restriction, when present.
    pub interfaces: Option<Seq<Seq<char>>>,
    /// Cap on returned and tracked services.
    pub max_services: usize,
    /// Retry budget.
    pub max_retries: u32,
    /// Cache window in ms.
    pub cache_duration_ms: u64,
    /// Minimum interval between operations in ms.
    pub rate_limit_ms: Option<u64>,
    /// Whether metrics are emitted.
    pub metrics_enabled: bool,
    /// The enabled protocols, pairwise distinct.
    pub enabled_protocols: Seq<ProtocolType>,
    /// Whether cross-protocol operations are allowed.
    pub allow_cross_protocol: bool,
    /// Whether IPv4 is used.
    pub enable_ipv4: bool,
    /// Whether IPv6 is used.
    pub enable_ipv6: bool,
    /// Post-filter for discovery results.
    pub filter: Option<DiscoveryFilterView>,
}

impl View for DiscoveryConfig {
    type V = DiscoveryConfigView;

    closed spec fn view(&self) -> DiscoveryConfigView {
        DiscoveryConfigView {
            service_types: Seq::new(self.service_types@.len(), |i: int| self.service_types@[i]@),
            timeout_ms: self.timeout_ms,
            verify_services: self.verify_services,
            interfaces: match self.interfaces {
                Option::Some(ifs) => Option::Some(Seq::new(ifs@.len(), |i: int| ifs@[i]@)),
                Option::None => Option::None,
            },
            max_services: self.max_services,
            max_retries: self.max_retries,
            cache_duration_ms: self.cache_duration_ms,
            rate_limit_ms: self.rate_limit_ms,
            metrics_enabled: self.metrics_enabled,
            enabled_protocols: self.enabled_protocols@,
            allow_cross_protocol: self.allow_cross_protocol,
            enable_ipv4: self.enable_ipv4,
            enable_ipv6: self.enable_ipv6,
            filter: match self.filter {
                Option::Some(f) => Option::Some(f@),
                Option::None => Option::None,
            },
        }
    }
}

/// A configuration is valid when its timeout (if any) is positive, at
/// least one IP version is enabled, and at least one protocol is
/// enabled.
pub open spec fn spec_config_valid(c: DiscoveryConfigView) -> bool {
    &&& !(c.timeout_ms is Some && c.timeout_ms.unwrap() == 0)
    &&& (c.enable_ipv4 || c.enable_ipv6)
    &&& c.enabled_protocols.len() > 0
}

impl Default for DiscoveryConfig {
    /// Defaults: no service types, 30 s timeout, no verification, 1000
    /// services, 3 retries, 5-minute cache, 1 s rate limit, mDNS only,
    /// IPv4 only, no filter.
    fn default() -> (r: Self)
        ensures
            r@.service_types.len() == 0,
            r@.timeout_ms == Option::Some(30000u64),
            !r@.verify_services,
            r@.interfaces is None,
            r@.max_services == 1000,
            r@.max_retries == 3,
            r@.cache_duration_ms == 300000,
            r@.rate_limit_ms == Option::Some(1000u64),
            !r@.metrics_enabled,
            r@.enabled_protocols =~= seq![ProtocolType::Mdns],
            !r@.allow_cross_protocol,
            r@.enable_ipv4,
            !r@.enable_ipv6,
            r@.filter is None,
    {
        let mut protocols: Vec<ProtocolType> = Vec::new();
        protocols.push(ProtocolType::Mdns);
        DiscoveryConfig {
            service_types: Vec::new(),
            timeout_ms: Option::Some(30000),
            verify_services: false,
            interfaces: Option::None,
            max_services: 1000,
            max_retries: 3,
            cache_duration_ms: 300000,
            rate_limit_ms: Option::Some(1000),
            metrics_enabled: false,
            enabled_protocols: protocols,
            allow_cross_protocol: false,
            enable_ipv4: true,
            enable_ipv6: false,
            filter: Option::None,
        }
    }
}

impl DiscoveryConfig {
    /// A configuration with the default values.
    pub fn new() -> (r: Self)
        ensures
            r@.service_types.len() == 0,
            r@.timeout_ms == Option::Some(30000u64),
            !r@.verify_services,
            r@.interfaces is None,
            r@.max_services == 1000,
            r@.max_retries == 3,
            r@.cache_duration_ms == 300000,
            r@.rate_limit_ms == Option::Some(1000u64),
            !r@.metrics_enabled,
            r@.enabled_protocols =~= seq![ProtocolType::Mdns],
            !r@.allow_cross_protocol,
            r@.enable_ipv4,
            !r@.enable_ipv6,
            r@.filter is None,
    {
        DiscoveryConfig::default()
    }

    /// Set the operation timeout (ms).
    pub fn with_timeout(self, timeout_ms: u64) -> (r: Self)
        ensures
            r@ == (DiscoveryConfigView { timeout_ms: Option::Some(timeout_ms), ..self@ }),
    {
        DiscoveryConfig { timeout_ms: Option::Some(timeout_ms), ..self }
    }

    /// The operation timeout (ms), when set.
    pub fn timeout(&self) -> (r: Option<u64>)
        ensures
            r == self@.timeout_ms,
    {
        self.timeout_ms
    }

    /// Add one service type to discover.
    pub fn with_service_type(self, service_type: ServiceType) -> (r: Self)
        ensures
            r@ == (DiscoveryConfigView {
                service_types: self@.service_types.push(service_type@),
                ..self@
            }),
    {
        let ghost tv = service_type@;
        let mut s = self;
        s.service_types.push(service_type);
        proof {
            assert(s@.service_types =~= self@.service_types.push(tv));
        }
        s
    }

    /// The configured service types.
    pub fn service_types(&self) -> (r: &Vec<ServiceType>)
        ensures
            r@.len() == self@.service_types.len(),
            forall|i: int| 0 <= i < r@.len() ==> (#[trigger] r@[i])@ == self@.service_types[i],
    {
        &self.service_types
    }

    /// Set whether discovered services are verified.
    pub fn with_verify_services(self, verify: bool) -> (r: Self)
        ensures
            r@ == (DiscoveryConfigView { verify_services: verify, ..self@ }),
    {
        DiscoveryConfig { verify_services: verify, ..self }
    }

    /// Whether discovered services are verified.
    pub fn verify_services(&self) -> (r: bool)
        ensures
            r == self@.verify_services,
    {
        self.verify_services
    }

    /// Restrict discovery to the named interfaces.
    pub fn with_interfaces(self, interfaces: Vec<String>) -> (r: Self)
        ensures
            r@ == (DiscoveryConfigView {
                interfaces: Option::Some(
                    Seq::new(interfaces@.len(), |i: int| interfaces@[i]@),
                ),
                ..self@
            }),
    {
        DiscoveryConfig { interfaces: Option::Some(interfaces), ..self }
    }

    /// The interface restriction, when present.
    pub fn interfaces(&self) -> (r: Option<&Vec<String>>)
        ensures
            match r {
                Option::Some(ifs) => self@.interfaces == Option::Some(
                    Seq::new(ifs@.len(), |i: int| ifs@[i]@),
                ),
                Option::None => self@.interfaces is None,
            },
    {
        match &self.interfaces {
            Option::Some(ifs) => Option::Some(ifs),
            Option::None => Option::None,
        }
    }

    /// Cap the number of services tracked and returned.
    pub fn with_max_services(self, max: usize) -> (r: Self)
        ensures
            r@ == (DiscoveryConfigView { max_services: max, ..self@ }),
    {
        DiscoveryConfig { max_services: max, ..self }
    }

    /// The service cap.
    pub fn max_services(&self) -> (r: usize)
        ensures
            r == self@.max_services,
    {
        self.max_services
    }

    /// Set the retry budget.
    pub fn with_max_retries(self, retries: u32) -> (r: Self)
        ensures
            r@ == (DiscoveryConfigView { max_retries: retries, ..self@ }),
    {
        DiscoveryConfig { max_retries: retries, ..self }
    }

    /// The retry budget.
    pub fn max_retries(&self) -> (r: u32)
        ensures
            r == self@.max_retries,
    {
        self.max_retries
    }

    /// Enable or disable IPv4.
    pub fn with_ipv4(self, enable: bool) -> (r: Self)
        ensures
            r@ == (DiscoveryConfigView { enable_ipv4: enable, ..self@ }),
    {
        DiscoveryConfig { enable_ipv4: enable, ..self }
    }

    /// Whether IPv4 is enabled.
    pub fn enable_ipv4(&self) -> (r: bool)
        ensures
            r == self@.enable_ipv4,
    {
        self.enable_ipv4
    }

    /// Enable or disable IPv6.
    pub fn with_ipv6(self, enable: bool) -> (r: Self)
        ensures
            r@ == (DiscoveryConfigView { enable_ipv6: enable, ..self@ }),
    {
        DiscoveryConfig { enable_ipv6: enable, ..self }
    }

    /// Whether IPv6 is enabled.
    pub fn enable_ipv6(&self) -> (r: bool)
        ensures
            r == self@.enable_ipv6,
    {
        self.enable_ipv6
    }

    /// Enable one protocol; enabling an enabled protocol changes nothing.
    pub fn with_protocol(self, protocol: ProtocolType) -> (r: Self)
        ensures
            spec_protocols_contain(r@.enabled_protocols, protocol),
            forall|p: ProtocolType|
                spec_protocols_contain(r@.enabled_protocols, p) == (spec_protocols_contain(
                    self@.enabled_protocols,
                    p,
                ) || p == protocol),
            r@.service_types == self@.service_types,
            r@.timeout_ms == self@.timeout_ms,
            r@.verify_services == self@.verify_services,
            r@.interfaces == self@.interfaces,
            r@.max_services == self@.max_services,
            r@.max_retries == self@.max_retries,
            r@.cache_duration_ms == self@.cache_duration_ms,
            r@.rate_limit_ms == self@.rate_limit_ms,
            r@.metrics_enabled == self@.metrics_enabled,
            r@.allow_cross_protocol == self@.allow_cross_protocol,
            r@.enable_ipv4 == self@.enable_ipv4,
            r@.enable_ipv6 == self@.enable_ipv6,
            r@.filter == self@.filter,
    {
        let mut s = self;
        s.enable_protocol(protocol);
        s
    }

    /// Whether the protocol is enabled.
    pub fn is_protocol_enabled(&self, protocol: ProtocolType) -> (r: bool)
        ensures
            r == spec_protocols_contain(self@.enabled_protocols, protocol),
    {
        protocols_contain(&self.enabled_protocols, protocol)
    }

    /// Enable one protocol in place.
    pub fn enable_protocol(&mut self, protocol: ProtocolType)
        ensures
            spec_protocols_contain(final(self)@.enabled_protocols, protocol),
            forall|p: ProtocolType|
                spec_protocols_contain(final(self)@.enabled_protocols, p) == (
                spec_protocols_contain(old(self)@.enabled_protocols, p) || p == protocol),
            final(self)@.service_types == old(self)@.service_types,
            final(self)@.timeout_ms == old(self)@.timeout_ms,
            final(self)@.verify_services == old(self)@.verify_services,
            final(self)@.interfaces == old(self)@.interfaces,
            final(self)@.max_services == old(self)@.max_services,
            final(self)@.max_retries == old(self)@.max_retries,
            final(self)@.cache_duration_ms == old(self)@.cache_duration_ms,
            final(self)@.rate_limit_ms == old(self)@.rate_limit_ms,
            final(self)@.metrics_enabled == old(self)@.metrics_enabled,
            final(self)@.allow_cross_protocol == old(self)@.allow_cross_protocol,
            final(self)@.enable_ipv4 == old(self)@.enable_ipv4,
            final(self)@.enable_ipv6 == old(self)@.enable_ipv6,
            final(self)@.filter == old(self)@.filter,
    {
        if !protocols_contain(&self.enabled_protocols, protocol) {
            self.enabled_protocols.push(protocol);
            proof {
                assert forall|p: ProtocolType|
                    spec_protocols_contain(self@.enabled_protocols, p) == (
                    spec_protocols_contain(old(self)@.enabled_protocols, p) || p
                        == protocol) by {
                    let es = self@.enabled_protocols;
                    if spec_protocols_contain(es, p) {
                        let i = choose|i: int| 0 <= i < es.len() && es[i] == p;
                        if i < es.len() - 1 {
                            assert(old(self)@.enabled_protocols[i] == p);
                        }
                    }
                    if spec_protocols_contain(old(self)@.enabled_protocols, p) {
                        let i = choose|i: int|
                            0 <= i < old(self)@.enabled_protocols.len() && old(
                                self,
                            )@.enabled_protocols[i] == p;
                        assert(es[i] == p);
                    }
                    if p == protocol {
                        assert(es[es.len() - 1] == p);
                    }
                }
            }
        }
    }

    /// Disable one protocol in place.
    pub fn disable_protocol(&mut self, protocol: ProtocolType)
        ensures
            !spec_protocols_contain(final(self)@.enabled_protocols, protocol),
            forall|p: ProtocolType|
                p != protocol ==> #[trigger] spec_protocols_contain(
                    final(self)@.enabled_protocols,
                    p,
                ) == spec_protocols_contain(old(self)@.enabled_protocols, p),
            final(self)@.service_types == old(self)@.service_types,
            final(self)@.timeout_ms == old(self)@.timeout_ms,
            final(self)@.filter == old(self)@.filter,
            final(self)@.enable_ipv4 == old(self)@.enable_ipv4,
            final(self)@.enable_ipv6 == old(self)@.enable_ipv6,
            final(self)@.max_services == old(self)@.max_services,
    {
        let ghost whole = self.enabled_protocols@;
        let mut kept: Vec<ProtocolType> = Vec::new();
        let mut i: usize = 0;
        while i < self.enabled_protocols.len()
            invariant
                0 <= i <= self.enabled_protocols@.len(),
                self.enabled_protocols@ == whole,
                forall|p: ProtocolType|
                    #[trigger] spec_protocols_contain(kept@, p) == (p != protocol
                        && spec_protocols_contain(whole.take(i as int), p)),
            decreases self.enabled_protocols@.len() - i,
        {
            let ghost kept_old = kept@;
            let ghost prefix = whole.take(i as int);
            let ghost cur = whole.take(i + 1);
            let x = self.enabled_protocols[i];
            if x != protocol {
                kept.push(x);
            }
            proof {
                assert(cur[i as int] == x);
                assert forall|p: ProtocolType|
                    #[trigger] spec_protocols_contain(kept@, p) == (p != protocol
                        && spec_protocols_contain(cur, p)) by {
                    if spec_protocols_contain(kept@, p) {
                        let k = choose|k: int| 0 <= k < kept@.len() && kept@[k] == p;
                        if k < kept_old.len() {
                            assert(kept@[k] == kept_old[k]);
                            assert(spec_protocols_contain(kept_old, p));
                            let m = choose|m: int|
                                0 <= m < prefix.len() && prefix[m] == p;
                            assert(cur[m] == p);
                            assert(spec_protocols_contain(cur, p));
                        } else {
                            assert(kept@[k] == x);
                            assert(x != protocol);
                            assert(spec_protocols_contain(cur, p));
                        }
                    }
                    if p != protocol && spec_protocols_contain(cur, p) {
                        let k = choose|k: int| 0 <= k < cur.len() && cur[k] == p;
                        if k == i {
                            assert(x == p);
                            assert(kept@[kept@.len() - 1] == p);
                            assert(spec_protocols_contain(kept@, p));
                        } else {
                            assert(prefix[k] == p);
                            assert(spec_protocols_contain(prefix, p));
                            assert(spec_protocols_contain(kept_old, p));
                            let m = choose|m: int|
                                0 <= m < kept_old.len() && kept_old[m] == p;
                            assert(kept@[m] == p);
                            assert(spec_protocols_contain(kept@, p));
                        }
                    }
                }
            }
            i = i + 1;
        }
        proof {
            assert(whole.take(whole.len() as int) =~= whole);
        }
        self.enabled_protocols = kept;
    }

    /// Replace the enabled protocol set.
    pub fn with_protocols(self, protocols: Vec<ProtocolType>) -> (r: Self)
        ensures
            r@ == (DiscoveryConfigView { enabled_protocols: protocols@, ..self@ }),
    {
        DiscoveryConfig { enabled_protocols: protocols, ..self }
    }

    /// The enabled protocols.
    pub fn protocols(&self) -> (r: &Vec<ProtocolType>)
        ensures
            r@ == self@.enabled_protocols,
    {
        &self.enabled_protocols
    }

    /// Allow or forbid cross-protocol operations.
    pub fn with_cross_protocol(self, enable: bool) -> (r: Self)
        ensures
            r@ == (DiscoveryConfigView { allow_cross_protocol: enable, ..self@ }),
    {
        DiscoveryConfig { allow_cross_protocol: enable, ..self }
    }

    /// Whether cross-protocol operations are allowed.
    pub fn allow_cross_protocol(&self) -> (r: bool)
        ensures
            r == self@.allow_cross_protocol,
    {
        self.allow_cross_protocol
    }

    /// Enable or disable metrics.
    pub fn with_metrics(self, enable: bool) -> (r: Self)
        ensures
            r@ == (DiscoveryConfigView { metrics_enabled: enable, ..self@ }),
    {
        DiscoveryConfig { metrics_enabled: enable, ..self }
    }

    /// Whether metrics are enabled.
    pub fn metrics_enabled(&self) -> (r: bool)
        ensures
            r == self@.metrics_enabled,
    {
        self.metrics_enabled
    }

    /// Set the minimum interval between operations (ms).
    pub fn with_rate_limit(self, limit_ms: u64) -> (r: Self)
        ensures
            r@ == (DiscoveryConfigView { rate_limit_ms: Option::Some(limit_ms), ..self@ }),
    {
        DiscoveryConfig { rate_limit_ms: Option::Some(limit_ms), ..self }
    }

    /// The minimum interval between operations (ms), when set.
    pub fn rate_limit(&self) -> (r: Option<u64>)
        ensures
            r == self@.rate_limit_ms,
    {
        self.rate_limit_ms
    }

    /// Set the cache window (ms).
    pub fn with_cache_duration(self, duration_ms: u64) -> (r: Self)
        ensures
            r@ == (DiscoveryConfigView { cache_duration_ms: duration_ms, ..self@ }),
    {
        DiscoveryConfig { cache_duration_ms: duration_ms, ..self }
    }

    /// The cache window (ms).
    pub fn cache_duration(&self) -> (r: u64)
        ensures
            r == self@.cache_duration_ms,
    {
        self.cache_duration_ms
    }

    /// The timeout handed to the engines: the configured one, or 30 s.
    pub fn protocol_timeout(&self) -> (r: u64)
        ensures
            r == (match self@.timeout_ms {
                Option::Some(t) => t,
                Option::None => 30000u64,
            }),
    {
        match self.timeout_ms {
            Option::Some(t) => t,
            Option::None => 30000,
        }
    }

    /// Whether the protocol is enabled (alias of `is_protocol_enabled`).
    pub fn has_protocol(&self, protocol: ProtocolType) -> (r: bool)
        ensures
            r == spec_protocols_contain(self@.enabled_protocols, protocol),
    {
        self.is_protocol_enabled(protocol)
    }

    /// The discovery post-filter, when set.
    pub fn filter(&self) -> (r: Option<&DiscoveryFilter>)
        ensures
            match r {
                Option::Some(f) => self@.filter == Option::Some(f@),
                Option::None => self@.filter is None,
            },
    {
        match &self.filter {
            Option::Some(f) => Option::Some(f),
            Option::None => Option::None,
        }
    }

    /// Set the discovery post-filter.
    pub fn with_filter(self, filter: DiscoveryFilter) -> (r: Self)
        ensures
            r@ == (DiscoveryConfigView { filter: Option::Some(filter@), ..self@ }),
    {
        DiscoveryConfig { filter: Option::Some(filter), ..self }
    }

    /// Validate the configuration: the timeout, when set, must be
    /// positive; at least one IP version and at least one protocol must
    /// be enabled.
    pub fn validate(&self) -> (r: Result<(), DiscoveryError>)
        ensures
            match r {
                Result::Ok(_) => spec_config_valid(self@),
                Result::Err(e) => e is Configuration && !spec_config_valid(self@),
            },
    {
        match self.timeout_ms {
            Option::Some(t) => {
                if t == 0 {
                    return Result::Err(
                        DiscoveryError::configuration(
                            "Timeout must be greater than 0".to_owned(),
                        ),
                    );
                }
            },
            Option::None => {},
        }
        if !self.enable_ipv4 && !self.enable_ipv6 {
            return Result::Err(
                DiscoveryError::configuration(
                    "Either IPv4 or IPv6 must be enabled".to_owned(),
                ),
            );
        }
        if self.enabled_protocols.len() == 0 {
            return Result::Err(
                DiscoveryError::configuration(
                    "At least one protocol must be enabled".to_owned(),
                ),
            );
        }
        Result::Ok(())
    }
}

} // verus!

verus! {

/// Configuration of a service registration.
#[derive(Debug)]
pub struct RegistrationConfig {
    /// Record TTL in ms.
    pub ttl_ms: u64,
    /// Whether the registration refreshes itself.
    pub auto_refresh: bool,
    /// Refresh interval in ms, used when `auto_refresh` is on.
    pub refresh_interval_ms: u64,
    /// Interfaces to register on.
    pub interfaces: Vec<String>,
    /// Protocols to register with.
    pub protocols: Vec<ProtocolType>,
    /// Whether IPv6 registration is enabled.
    pub enable_ipv6: bool,
    /// Whether IPv4 registration is enabled.
    pub enable_ipv4: bool,
    /// Priority, for protocols that carry one.
    pub priority: u16,
    /// Weight, for protocols that carry one.
    pub weight: u16,
}

/// A registration configuration is valid when its TTL is positive, the
/// refresh interval (when auto-refresh is on) is positive and below the
/// TTL, at least one protocol is chosen, and at least one IP version is
/// enabled.
pub open spec fn spec_registration_valid(c: &RegistrationConfig) -> bool {
    &&& c.ttl_ms != 0
    &&& (c.auto_refresh ==> c.refresh_interval_ms != 0)
    &&& (c.auto_refresh ==> c.refresh_interval_ms < c.ttl_ms)
    &&& c.protocols@.len() > 0
    &&& (c.enable_ipv4 || c.enable_ipv6)
}

impl Default for RegistrationConfig {
    /// Defaults: 120 s TTL, auto-refresh every 60 s, no interface
    /// restriction, mDNS only, both IP versions, zero priority and
    /// weight.
    fn default() -> (r: Self)
        ensures
            r.ttl_ms == 120000,
            r.auto_refresh,
            r.refresh_interval_ms == 60000,
            r.interfaces@.len() == 0,
            r.protocols@ =~= seq![ProtocolType::Mdns],
            r.enable_ipv6,
            r.enable_ipv4,
            r.priority == 0,
            r.weight == 0,
    {
        let mut protocols: Vec<ProtocolType> = Vec::new();
        protocols.push(ProtocolType::Mdns);
        RegistrationConfig {
            ttl_ms: 120000,
            auto_refresh: true,
            refresh_interval_ms: 60000,
            interfaces: Vec::new(),
            protocols,
            enable_ipv6: true,
            enable_ipv4: true,
            priority: 0,
            weight: 0,
        }
    }
}

impl RegistrationConfig {
    /// A registration configuration with the default values.
    pub fn new() -> (r: Self)
        ensures
            r.ttl_ms == 120000,
            r.auto_refresh,
            r.refresh_interval_ms == 60000,
            r.interfaces@.len() == 0,
            r.protocols@ =~= seq![ProtocolType::Mdns],
            r.enable_ipv6,
            r.enable_ipv4,
            r.priority == 0,
            r.weight == 0,
    {
        RegistrationConfig::default()
    }

    /// Set the record TTL (ms).
    pub fn ttl(self, ttl_ms: u64) -> (r: Self)
        ensures
            r == (RegistrationConfig { ttl_ms, ..self }),
    {
        RegistrationConfig { ttl_ms, ..self }
    }

    /// Switch auto-refresh on or off.
    pub fn auto_refresh(self, auto_refresh: bool) -> (r: Self)
        ensures
            r == (RegistrationConfig { auto_refresh, ..self }),
    {
        RegistrationConfig { auto_refresh, ..self }
    }

    /// Set the refresh interval (ms).
    pub fn refresh_interval(self, interval_ms: u64) -> (r: Self)
        ensures
            r == (RegistrationConfig { refresh_interval_ms: interval_ms, ..self }),
    {
        RegistrationConfig { refresh_interval_ms: interval_ms, ..self }
    }

    /// Set the interfaces to register on.
    pub fn interfaces(self, interfaces: Vec<String>) -> (r: Self)
        ensures
            r == (RegistrationConfig { interfaces, ..self }),
    {
        RegistrationConfig { interfaces, ..self }
    }

    /// Set the protocols to register with.
    pub fn protocols(self, protocols: Vec<ProtocolType>) -> (r: Self)
        ensures
            r == (RegistrationConfig { protocols, ..self }),
    {
        RegistrationConfig { protocols, ..self }
    }

    /// Set the priority.
    pub fn priority(self, priority: u16) -> (r: Self)
        ensures
            r == (RegistrationConfig { priority, ..self }),
    {
        RegistrationConfig { priority, ..self }
    }

    /// Set the weight.
    pub fn weight(self, weight: u16) -> (r: Self)
        ensures
            r == (RegistrationConfig { weight, ..self }),
    {
        RegistrationConfig { weight, ..self }
    }

    /// Validate the configuration; see [`spec_registration_valid`].
    pub fn validate(&self) -> (r: Result<(), DiscoveryError>)
        ensures
            match r {
                Result::Ok(_) => spec_registration_valid(self),
                Result::Err(e) => e is Configuration && !spec_registration_valid(self),
            },
    {
        if self.ttl_ms == 0 {
            return Result::Err(
                DiscoveryError::configuration("TTL cannot be zero".to_owned()),
            );
        }
        if self.auto_refresh && self.refresh_interval_ms == 0 {
            return Result::Err(
                DiscoveryError::configuration(
                    "Refresh interval cannot be zero when auto-refresh is enabled".to_owned(),
                ),
            );
        }
        if self.auto_refresh && self.refresh_interval_ms >= self.ttl_ms {
            return Result::Err(
                DiscoveryError::configuration(
                    "Refresh interval must be less than TTL".to_owned(),
                ),
            );
        }
        if self.protocols.len() == 0 {
            return Result::Err(
                DiscoveryError::configuration(
                    "At least one protocol must be enabled".to_owned(),
                ),
            );
        }
        if !self.enable_ipv4 && !self.enable_ipv6 {
            return Result::Err(
                DiscoveryError::configuration(
                    "At least one IP version must be enabled".to_owned(),
                ),
            );
        }
        Result::Ok(())
    }
}

} // verus!
