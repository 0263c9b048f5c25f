//! Service descriptions and discovery events.

use vstd::prelude::*;

use crate::error::DiscoveryError;
use crate::types::{
    IpAddress, Ipv4Address, ProtocolType, ServiceAttributes, ServiceType, ServiceTypeView,
    spec_parse_service_type, spec_attr_insert,
};
use crate::utils::current_timestamp_millis;

verus! {

/// Description of one discovered or registered service instance.
///
/// Times are milliseconds of the system wall clock (Unix epoch); `ttl` is a
/// validity window in milliseconds.
#[derive(Debug)]
pub struct ServiceInfo {
    /// Process-unique opaque identifier (a version-4 UUID at creation).
    pub id: String,
    /// Human-readable instance name.
    pub name: String,
    /// Service type, e.g. `_http._tcp`.
    pub service_type: ServiceType,
    /// The one IP address the instance is reachable at.
    pub address: IpAddress,
    /// Port number.
    pub port: u16,
    /// TXT-like attributes.
    pub attributes: ServiceAttributes,
    /// The engine this instance is bound to or was observed by.
    pub protocol_type: ProtocolType,
    /// When the service was created or last refreshed, in ms.
    pub discovered_at: u64,
    /// Validity window in ms; 60 000 by default.
    pub ttl: u64,
    /// Whether an external verifier accepted the service.
    pub verified: bool,
    /// Source interface name, when known.
    pub interface: Option<String>,
}

/// Mathematical image of a [`ServiceInfo`].
pub struct ServiceInfoView {
    /// Identifier text.
    pub id: Seq<char>,
    /// Instance name.
    pub name: Seq<char>,
    /// Service type.
    pub service_type: ServiceTypeView,
    /// Address.
    pub address: IpAddress,
    /// Port.
    pub port: u16,
    /// Attribute pairs.
    pub attributes: Seq<(Seq<char>, Seq<char>)>,
    /// Engine tag.
    pub protocol_type: ProtocolType,
    /// Creation / refresh time in ms.
    pub discovered_at: u64,
    /// Validity window in ms.
    pub ttl: u64,
    /// Verification outcome.
    pub verified: bool,
    /// Source interface.
    pub interface: Option<Seq<char>>,
}

impl View for ServiceInfo {
    type V = ServiceInfoView;

    open spec fn view(&self) -> ServiceInfoView {
        ServiceInfoView {
            id: self.id@,
            name: self.name@,
            service_type: self.service_type@,
            address: self.address,
            port: self.port,
            attributes: self.attributes@,
            protocol_type: self.protocol_type,
            discovered_at: self.discovered_at,
            ttl: self.ttl,
            verified: self.verified,
            interface: match self.interface {
                Option::Some(i) => Option::Some(i@),
                Option::None => Option::None,
            },
        }
    }
}

/// A record is expired at `now` when its window has passed; a record whose
/// timestamp lies in the future is not expired.
pub open spec fn spec_expired_at(discovered_at: u64, ttl: u64, now: u64) -> bool {
    now > discovered_at + ttl
}

/// Relies on `uuid::Uuid::new_v4` and its hyphenated `Display` rendering:
/// a fresh random version-4 UUID printed as 36 characters.  The value is
/// random, so nothing more is promised of it.
#[verifier::external_body]
fn new_uuid_string() -> (r: String)
    ensures
        r@.len() == 36,
{
    uuid::Uuid::new_v4().to_string()
}

impl Clone for ServiceInfo {
    fn clone(&self) -> (r: Self)
        ensures
            r@ == self@,
    {
        ServiceInfo {
            id: self.id.clone(),
            name: self.name.clone(),
            service_type: self.service_type.clone(),
            address: self.address,
            port: self.port,
            attributes: self.attributes.clone(),
            protocol_type: self.protocol_type,
            discovered_at: self.discovered_at,
            ttl: self.ttl,
            verified: self.verified,
            interface: match &self.interface {
                Option::Some(i) => Option::Some(i.clone()),
                Option::None => Option::None,
            },
        }
    }
}

/// The attribute list built by inserting the given pairs left to right into
/// an empty set.
pub open spec fn spec_attrs_of_list(list: Seq<(Seq<char>, Seq<char>)>) -> Seq<
    (Seq<char>, Seq<char>),
>
    decreases list.len(),
{
    if list.len() == 0 {
        Seq::empty()
    } else {
        spec_attr_insert(spec_attrs_of_list(list.drop_last()), list.last().0, list.last().1)
    }
}

impl ServiceInfo {
    /// Create a new service description.
    ///
    /// The service type string must parse; the identifier is a fresh UUID,
    /// the address defaults to `127.0.0.1`, the protocol to mDNS, the TTL
    /// to 60 s, and the attribute pairs are inserted in the given order.
    pub fn new(
        name: &str,
        service_type: &str,
        port: u16,
        attributes: Option<Vec<(&str, &str)>>,
    ) -> (r: Result<Self, DiscoveryError>)
        ensures
            match r {
                Result::Ok(s) => {
                    &&& spec_parse_service_type(service_type@) == Option::Some(s.service_type@)
                    &&& s.name@ == name@
                    &&& s.port == port
                    &&& s.address == IpAddress::V4(Ipv4Address(127, 0, 0, 1))
                    &&& s.protocol_type == ProtocolType::Mdns
                    &&& s.ttl == 60000
                    &&& !s.verified
                    &&& s.interface is None
                    &&& s.id@.len() == 36
                    &&& s.attributes@ == spec_attrs_of_list(
                        match attributes {
                            Option::Some(list) => Seq::new(
                                list@.len(),
                                |i: int| (list@[i].0@, list@[i].1@),
                            ),
                            Option::None => Seq::empty(),
                        },
                    )
                },
                Result::Err(e) => spec_parse_service_type(service_type@) is None
                    && e is InvalidData,
            },
    {
        let service_type = match ServiceType::new(service_type) {
            Result::Ok(t) => t,
            Result::Err(e) => {
                return Result::Err(e);
            },
        };
        let mut attrs = ServiceAttributes::new();
        match &attributes {
            Option::Some(list) => {
                let ghost lv = Seq::new(list@.len(), |i: int| (list@[i].0@, list@[i].1@));
                let mut i: usize = 0;
                while i < list.len()
                    invariant
                        0 <= i <= list@.len(),
                        lv == Seq::new(list@.len(), |k: int| (list@[k].0@, list@[k].1@)),
                        attrs@ == spec_attrs_of_list(lv.take(i as int)),
                    decreases list@.len() - i,
                {
                    let key = list[i].0.to_owned();
                    let value = list[i].1.to_owned();
                    attrs.insert(key, value);
                    proof {
                        assert(lv.take(i + 1).drop_last() =~= lv.take(i as int));
                        assert(lv.take(i + 1).last() == lv[i as int]);
                    }
                    i = i + 1;
                }
                proof {
                    assert(lv.take(lv.len() as int) =~= lv);
                }
            },
            Option::None => {
                proof {
                    assert(attrs@ =~= spec_attrs_of_list(Seq::empty()));
                }
            },
        }
        let now = current_timestamp_millis();
        Result::Ok(
            ServiceInfo {
                id: new_uuid_string(),
                name: name.to_owned(),
                service_type,
                address: IpAddress::localhost(),
                port,
                attributes: attrs,
                protocol_type: ProtocolType::Mdns,
                discovered_at: now,
                ttl: 60000,
                verified: false,
                interface: Option::None,
            },
        )
    }

    /// The engine this service is bound to.
    pub fn protocol_type(&self) -> (r: ProtocolType)
        ensures
            r == self.protocol_type,
    {
        self.protocol_type
    }

    /// Rebind the service to an engine.
    pub fn with_protocol_type(self, protocol_type: ProtocolType) -> (r: Self)
        ensures
            r@ == (ServiceInfoView { protocol_type, ..self@ }),
    {
        ServiceInfo { protocol_type, ..self }
    }

    /// The validity window in milliseconds.
    pub fn ttl(&self) -> (r: u64)
        ensures
            r == self.ttl,
    {
        self.ttl
    }

    /// Replace the validity window (milliseconds).
    pub fn with_ttl(self, ttl: u64) -> (r: Self)
        ensures
            r@ == (ServiceInfoView { ttl, ..self@ }),
    {
        ServiceInfo { ttl, ..self }
    }

    /// Whether the record's window has passed at time `now_ms`.
    pub fn is_expired_at(&self, now_ms: u64) -> (r: bool)
        ensures
            r == spec_expired_at(self.discovered_at, self.ttl, now_ms),
    {
        now_ms > self.discovered_at && now_ms - self.discovered_at > self.ttl
    }

    /// Whether the record's window has passed, by the system clock.
    pub fn is_expired(&self) -> (r: bool)
        ensures
            exists|now: u64| r == spec_expired_at(self.discovered_at, self.ttl, now),
    {
        let now = current_timestamp_millis();
        self.is_expired_at(now)
    }

    /// Refresh the discovery time from the system clock; no other field
    /// changes.
    pub fn refresh(&mut self)
        ensures
            final(self)@ == (ServiceInfoView {
                discovered_at: final(self).discovered_at,
                ..old(self)@
            }),
    {
        let now = current_timestamp_millis();
        self.discovered_at = now;
    }

    /// Replace the whole attribute set.
    pub fn with_attributes(self, attrs: ServiceAttributes) -> (r: Self)
        ensures
            r@ == (ServiceInfoView { attributes: attrs@, ..self@ }),
    {
        ServiceInfo { attributes: attrs, ..self }
    }

    /// Insert or update one attribute, returning the updated service.
    pub fn with_attribute(self, key: String, value: String) -> (r: Self)
        ensures
            r@ == (ServiceInfoView {
                attributes: spec_attr_insert(self@.attributes, key@, value@),
                ..self@
            }),
    {
        let mut s = self;
        s.attributes.insert(key, value);
        s
    }

    /// Insert or update one attribute in place.
    pub fn insert_attribute(&mut self, key: String, value: String)
        ensures
            final(self)@ == (ServiceInfoView {
                attributes: spec_attr_insert(old(self)@.attributes, key@, value@),
                ..old(self)@
            }),
    {
        self.attributes.insert(key, value);
    }

    /// Value of one attribute, if stored.
    pub fn get_attribute(&self, key: &str) -> (r: Option<&String>)
        ensures
            match r {
                Option::Some(v) => crate::types::spec_attr_get(self@.attributes, key@)
                    == Option::Some(v@),
                Option::None => crate::types::spec_attr_get(self@.attributes, key@) is None,
            },
    {
        self.attributes.get(key)
    }

    /// The port.
    pub fn port(&self) -> (r: u16)
        ensures
            r == self.port,
    {
        self.port
    }

    /// The address.
    pub fn address(&self) -> (r: IpAddress)
        ensures
            r == self.address,
    {
        self.address
    }

    /// Replace the address.
    pub fn with_address(self, address: IpAddress) -> (r: Self)
        ensures
            r@ == (ServiceInfoView { address, ..self@ }),
    {
        ServiceInfo { address, ..self }
    }

    /// The instance name.
    pub fn name(&self) -> (r: &str)
        ensures
            r@ == self.name@,
    {
        self.name.as_str()
    }

    /// The service type.
    pub fn service_type(&self) -> (r: &ServiceType)
        ensures
            r@ == self.service_type@,
    {
        &self.service_type
    }
}

// ---------------------------------------------------------------------------
// ServiceEvent
// ---------------------------------------------------------------------------

/// Events that can occur during service discovery.
#[derive(Debug)]
pub enum ServiceEvent {
    /// A new service was discovered.
    New(ServiceInfo),
    /// An existing service was updated.
    Updated(ServiceInfo),
    /// A service was removed or expired.
    Removed(ServiceInfo),
    /// A service failed verification.
    VerificationFailed(ServiceInfo),
    /// A discovery pass started.
    DiscoveryStarted {
        /// Service types being searched for.
        service_types: Vec<ServiceType>,
        /// Protocols in use.
        protocols: Vec<ProtocolType>,
    },
    /// A discovery pass finished.
    DiscoveryCompleted {
        /// How many services were found.
        services_found: usize,
        /// How long the pass took, in ms.
        duration_ms: u64,
    },
    /// A discovery pass failed.
    DiscoveryFailed {
        /// The error message.
        error: String,
        /// The service types that failed.
        service_types: Vec<ServiceType>,
    },
}

impl ServiceEvent {
    /// Event for a newly discovered service.
    pub fn new(service: ServiceInfo) -> (r: Self)
        ensures
            r == ServiceEvent::New(service),
    {
        ServiceEvent::New(service)
    }

    /// Event for an updated service.
    pub fn updated(service: ServiceInfo) -> (r: Self)
        ensures
            r == ServiceEvent::Updated(service),
    {
        ServiceEvent::Updated(service)
    }

    /// Event for a removed service.
    pub fn removed(service: ServiceInfo) -> (r: Self)
        ensures
            r == ServiceEvent::Removed(service),
    {
        ServiceEvent::Removed(service)
    }

    /// Event for a service that failed verification.
    pub fn verification_failed(service: ServiceInfo) -> (r: Self)
        ensures
            r == ServiceEvent::VerificationFailed(service),
    {
        ServiceEvent::VerificationFailed(service)
    }

    /// Event for the start of a discovery pass.
    pub fn discovery_started(
        service_types: Vec<ServiceType>,
        protocols: Vec<ProtocolType>,
    ) -> (r: Self)
        ensures
            r == (ServiceEvent::DiscoveryStarted { service_types, protocols }),
    {
        ServiceEvent::DiscoveryStarted { service_types, protocols }
    }

    /// Event for the completion of a discovery pass.
    pub fn discovery_completed(services_found: usize, duration_ms: u64) -> (r: Self)
        ensures
            r == (ServiceEvent::DiscoveryCompleted { services_found, duration_ms }),
    {
        ServiceEvent::DiscoveryCompleted { services_found, duration_ms }
    }

    /// Event for a failed discovery pass.
    pub fn discovery_failed(error: String, service_types: Vec<ServiceType>) -> (r: Self)
        ensures
            r == (ServiceEvent::DiscoveryFailed { error, service_types }),
    {
        ServiceEvent::DiscoveryFailed { error, service_types }
    }

    /// The service the event speaks of, when it carries one.
    pub fn service(&self) -> (r: Option<&ServiceInfo>)
        ensures
            match r {
                Option::Some(s) => (self is New && *s == self->New_0) || (self is Updated && *s
                    == self->Updated_0) || (self is Removed && *s == self->Removed_0) || (
                self is VerificationFailed && *s == self->VerificationFailed_0),
                Option::None => !(self is New) && !(self is Updated) && !(self is Removed)
                    && !(self is VerificationFailed),
            },
    {
        match self {
            ServiceEvent::New(s) => Option::Some(s),
            ServiceEvent::Updated(s) => Option::Some(s),
            ServiceEvent::Removed(s) => Option::Some(s),
            ServiceEvent::VerificationFailed(s) => Option::Some(s),
            _ => Option::None,
        }
    }

    /// Whether the event reports something gained: a new or updated
    /// service, or a completed pass.
    pub fn is_positive(&self) -> (r: bool)
        ensures
            r == (self is New || self is Updated || self is DiscoveryCompleted),
    {
        match self {
            ServiceEvent::New(_) => true,
            ServiceEvent::Updated(_) => true,
            ServiceEvent::DiscoveryCompleted { .. } => true,
            _ => false,
        }
    }

    /// Whether the event reports something lost: a removed service, a
    /// failed verification, or a failed pass.
    pub fn is_negative(&self) -> (r: bool)
        ensures
            r == (self is Removed || self is VerificationFailed || self is DiscoveryFailed),
    {
        match self {
            ServiceEvent::Removed(_) => true,
            ServiceEvent::VerificationFailed(_) => true,
            ServiceEvent::DiscoveryFailed { .. } => true,
            _ => false,
        }
    }
}

} // verus!
