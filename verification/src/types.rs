//! Core data types: service type names, protocol tags, addresses,
//! attributes, network interfaces, and the discovery filter.

use vstd::prelude::*;

use crate::error::DiscoveryError;
use crate::strutil::{
    has_prefix, spec_split, spec_join, lemma_split_no_sep, lemma_split_at_sep,
    lemma_split_len, lemma_join_split, lemma_split_join, lemma_split_parts_free, str_eq,
    starts_with, find_char_from,
    spec_dec, spec_hex, u64_to_dec, u64_to_hex, contains_substr,
};

verus! {

// ---------------------------------------------------------------------------
// ServiceType
// ---------------------------------------------------------------------------

/// A service type accepted for discovery.  Two syntactic flavours exist:
///
/// * the DNS-SD triple `<instance>.<proto>[.<domain>]`, where the protocol
///   label must begin with `_` (the instance label gets a leading `_`
///   prepended when the caller omitted it), and
/// * a UPnP URN starting with the literal `urn:`, stored whole with an
///   empty protocol field.
#[derive(Debug)]
pub struct ServiceType {
    service_name: String,
    protocol: String,
    domain: Option<String>,
}

/// Mathematical image of a [`ServiceType`].
pub struct ServiceTypeView {
    /// Instance label (or the whole URN).
    pub service_name: Seq<char>,
    /// Protocol label including its leading dot; empty for URNs.
    pub protocol: Seq<char>,
    /// Trailing domain labels, when present.
    pub domain: Option<Seq<char>>,
}

impl View for ServiceType {
    type V = ServiceTypeView;

    closed spec fn view(&self) -> ServiceTypeView {
        ServiceTypeView {
            service_name: self.service_name@,
            protocol: self.protocol@,
            domain: match self.domain {
                Option::Some(d) => Option::Some(d@),
                Option::None => Option::None,
            },
        }
    }
}

/// What parsing a service type string yields: `None` when the string is
/// rejected.  An accepted string is either a URN (kept whole) or is cut at
/// its dots, with the second piece required to start with `_`.
pub open spec fn spec_parse_service_type(s: Seq<char>) -> Option<ServiceTypeView> {
    if s.len() == 0 {
        Option::None
    } else if has_prefix(s, "urn:"@) {
        Option::Some(
            ServiceTypeView { service_name: s, protocol: Seq::empty(), domain: Option::None },
        )
    } else {
        let parts = spec_split(s, '.');
        if parts.len() < 2 {
            Option::None
        } else if parts[1].len() == 0 || parts[1][0] != '_' {
            Option::None
        } else {
            Option::Some(
                ServiceTypeView {
                    service_name: if parts[0].len() > 0 && parts[0][0] == '_' {
                        parts[0]
                    } else {
                        seq!['_'] + parts[0]
                    },
                    protocol: seq!['.'] + parts[1],
                    domain: if parts.len() > 2 {
                        Option::Some(spec_join(parts.skip(2), '.'))
                    } else {
                        Option::None
                    },
                },
            )
        }
    }
}

/// The string a [`ServiceType`] renders to: name, protocol, and the domain
/// after one more dot when present.
pub open spec fn spec_display_service_type(v: ServiceTypeView) -> Seq<char> {
    match v.domain {
        Option::None => v.service_name + v.protocol,
        Option::Some(d) => v.service_name + v.protocol + seq!['.'] + d,
    }
}

impl Clone for ServiceType {
    fn clone(&self) -> (r: Self)
        ensures
            r == *self,
    {
        ServiceType {
            service_name: self.service_name.clone(),
            protocol: self.protocol.clone(),
            domain: match &self.domain {
                Option::Some(d) => Option::Some(d.clone()),
                Option::None => Option::None,
            },
        }
    }
}

impl PartialEq for ServiceType {
    fn eq(&self, other: &Self) -> (r: bool) {
        let names = str_eq(self.service_name.as_str(), other.service_name.as_str());
        let protos = str_eq(self.protocol.as_str(), other.protocol.as_str());
        let domains = match (&self.domain, &other.domain) {
            (Option::Some(a), Option::Some(b)) => str_eq(a.as_str(), b.as_str()),
            (Option::None, Option::None) => true,
            _ => false,
        };
        names && protos && domains
    }
}

impl vstd::std_specs::cmp::PartialEqSpecImpl for ServiceType {
    open spec fn obeys_eq_spec() -> bool {
        true
    }

    open spec fn eq_spec(&self, other: &Self) -> bool {
        self@ == other@
    }
}

impl ServiceType {
    /// Parse a service type string.
    ///
    /// Accepts a UPnP URN (kept whole) or a DNS-SD style name with at least
    /// an instance label and a protocol label beginning with `_`; rejects
    /// the empty string, a string without any dot, and a string whose
    /// second label does not start with `_`.
    pub fn new(service: &str) -> (r: Result<Self, DiscoveryError>)
        ensures
            match r {
                Result::Ok(t) => spec_parse_service_type(service@) == Option::Some(t@),
                Result::Err(e) => spec_parse_service_type(service@) is None
                    && e is InvalidData,
            },
    {
        let n = service.unicode_len();
        if n == 0 {
            return Result::Err(
                DiscoveryError::invalid_service("Service type cannot be empty".to_owned()),
            );
        }
        if starts_with(service, "urn:") {
            return Result::Ok(
                ServiceType {
                    service_name: service.to_owned(),
                    protocol: String::new(),
                    domain: Option::None,
                },
            );
        }
        let p = find_char_from(service, '.', 0);
        if p == n {
            proof {
                assert(!service@.contains('.')) by {
                    assert(forall|j: int| 0 <= j < service@.len() ==> service@[j] != '.');
                }
                lemma_split_no_sep(service@, '.');
            }
            return Result::Err(
                DiscoveryError::invalid_service(
                    "Service type must contain protocol (e.g., '._tcp')".to_owned(),
                ),
            );
        }
        let first = service.substring_char(0, p);
        let rest = service.substring_char(p + 1, n);
        proof {
            assert(!first@.contains('.')) by {
                assert(forall|j: int| 0 <= j < first@.len() ==> first@[j] != '.');
            }
            assert(first@ + seq!['.'] + rest@ =~= service@);
            lemma_split_at_sep(first@, rest@, '.');
        }
        let ghost parts = spec_split(service@, '.');
        proof {
            lemma_split_len(rest@, '.');
            assert(parts =~~= seq![first@] + spec_split(rest@, '.'));
        }
        let q = find_char_from(service, '.', p + 1);
        let proto_part = service.substring_char(p + 1, q);
        proof {
            if q == n {
                assert(proto_part@ =~= rest@);
                assert(!rest@.contains('.')) by {
                    assert(forall|j: int|
                        0 <= j < rest@.len() ==> rest@[j] == service@[p + 1 + j]
                            && service@[p + 1 + j] != '.');
                }
                lemma_split_no_sep(rest@, '.');
                assert(parts =~~= seq![first@, rest@]);
            } else {
                let tail = service@.subrange(q + 1, n as int);
                assert(!proto_part@.contains('.')) by {
                    assert(forall|j: int|
                        0 <= j < proto_part@.len() ==> proto_part@[j] == service@[p + 1 + j]
                            && service@[p + 1 + j] != '.');
                }
                assert(proto_part@ + seq!['.'] + tail =~= rest@);
                lemma_split_at_sep(proto_part@, tail, '.');
                lemma_split_len(tail, '.');
                assert(spec_split(rest@, '.') =~~= seq![proto_part@] + spec_split(tail, '.'));
                assert(parts[1] == proto_part@);
                assert(parts.skip(2) =~~= spec_split(tail, '.'));
            }
        }
        if proto_part.unicode_len() == 0 || proto_part.get_char(0) != '_' {
            return Result::Err(
                DiscoveryError::invalid_service(
                    "Service type must contain protocol (e.g., '._tcp')".to_owned(),
                ),
            );
        }
        let mut protocol = ".".to_owned();
        protocol.append(proto_part);
        proof {
            reveal_strlit(".");
            assert(protocol@ =~= seq!['.'] + parts[1]);
        }
        let domain: Option<String> = if q < n {
            let tail_str = service.substring_char(q + 1, n);
            proof {
                lemma_join_split(service@.subrange(q + 1, n as int), '.');
                assert(spec_join(parts.skip(2), '.') =~= tail_str@);
            }
            Option::Some(tail_str.to_owned())
        } else {
            Option::None
        };
        let service_name: String = if first.unicode_len() > 0 && first.get_char(0) == '_' {
            first.to_owned()
        } else {
            let mut sn = "_".to_owned();
            sn.append(first);
            proof {
                reveal_strlit("_");
                assert(sn@ =~= seq!['_'] + first@);
            }
            sn
        };
        let t = ServiceType { service_name, protocol, domain };
        proof {
            let v = spec_parse_service_type(service@).unwrap();
            assert(t@.service_name =~= v.service_name);
            assert(t@.protocol =~= v.protocol);
            match t@.domain {
                Option::Some(d) => {
                    assert(v.domain is Some);
                    assert(d =~= v.domain.unwrap());
                },
                Option::None => {},
            }
        }
        Result::Ok(t)
    }

    /// Build a service type from a name and a bare protocol label; a `_` is
    /// prepended to the protocol when missing.  The rendered form carries no
    /// dot between the two parts, exactly as given.
    pub fn with_protocol(service: &str, protocol: &str) -> (r: Result<Self, DiscoveryError>)
        requires
            protocol@.len() > 0,
        ensures
            match r {
                Result::Ok(t) => t@.service_name == service@ && t@.domain is None
                    && t@.protocol == (if protocol@[0] == '_' {
                        protocol@
                    } else {
                        seq!['_'] + protocol@
                    }),
                Result::Err(_) => false,
            },
    {
        let protocol_str: String = if protocol.get_char(0) != '_' {
            let mut p = "_".to_owned();
            p.append(protocol);
            proof {
                reveal_strlit("_");
                assert(p@ =~= seq!['_'] + protocol@);
            }
            p
        } else {
            protocol.to_owned()
        };
        Result::Ok(
            ServiceType {
                service_name: service.to_owned(),
                protocol: protocol_str,
                domain: Option::None,
            },
        )
    }

    /// Build a service type with an explicit domain and the default `_tcp`
    /// protocol label (no leading dot, exactly as given).
    pub fn with_domain(service: &str, domain: &str) -> (r: Result<Self, DiscoveryError>)
        ensures
            match r {
                Result::Ok(t) => t@.service_name == service@ && t@.protocol == "_tcp"@
                    && t@.domain == Option::Some(domain@),
                Result::Err(_) => false,
            },
    {
        Result::Ok(
            ServiceType {
                service_name: service.to_owned(),
                protocol: "_tcp".to_owned(),
                domain: Option::Some(domain.to_owned()),
            },
        )
    }

    /// The instance label (or whole URN).
    pub fn service_name(&self) -> (r: &str)
        ensures
            r@ == self@.service_name,
    {
        self.service_name.as_str()
    }

    /// The protocol label.
    pub fn protocol(&self) -> (r: &str)
        ensures
            r@ == self@.protocol,
    {
        self.protocol.as_str()
    }

    /// The domain, when present.
    pub fn domain(&self) -> (r: Option<&str>)
        ensures
            match r {
                Option::Some(d) => self@.domain == Option::Some(d@),
                Option::None => self@.domain is None,
            },
    {
        match &self.domain {
            Option::Some(d) => Option::Some(d.as_str()),
            Option::None => Option::None,
        }
    }

    /// The string this type renders to; parsing it again yields the same
    /// structural value.
    pub fn display_string(&self) -> (r: String)
        ensures
            r@ == spec_display_service_type(self@),
    {
        let mut out = self.service_name.clone();
        out.append(self.protocol.as_str());
        match &self.domain {
            Option::Some(d) => {
                out.append(".");
                out.append(d.as_str());
                proof {
                    reveal_strlit(".");
                    assert(out@ =~= spec_display_service_type(self@));
                }
            },
            Option::None => {},
        }
        out
    }

    /// A fully qualified name: for URNs the stored name; otherwise the
    /// name and protocol joined by an underscore, with the domain appended
    /// after a dot when present.
    pub fn full_name(&self) -> (r: String)
        ensures
            r@ == self@.spec_full_name(),
    {
        if starts_with(self.service_name.as_str(), "urn:") {
            return self.service_name.clone();
        }
        let mut out = self.service_name.clone();
        out.append("_");
        out.append(self.protocol.as_str());
        match &self.domain {
            Option::Some(d) => {
                out.append(".");
                out.append(d.as_str());
            },
            Option::None => {},
        }
        proof {
            reveal_strlit("_");
            reveal_strlit(".");
            assert(out@ =~= self@.spec_full_name());
        }
        out
    }

    /// A service type is valid when both its name and protocol are
    /// non-empty.
    pub fn is_valid(&self) -> (r: bool)
        ensures
            r == (self@.service_name.len() > 0 && self@.protocol.len() > 0),
    {
        self.service_name.as_str().unicode_len() > 0
            && self.protocol.as_str().unicode_len() > 0
    }
}

impl ServiceTypeView {
    /// Spec of [`ServiceType::full_name`].
    pub open spec fn spec_full_name(self) -> Seq<char> {
        if has_prefix(self.service_name, "urn:"@) {
            self.service_name
        } else {
            match self.domain {
                Option::None => self.service_name + seq!['_'] + self.protocol,
                Option::Some(d) => self.service_name + seq!['_'] + self.protocol + seq!['.']
                    + d,
            }
        }
    }
}

} // verus!

verus! {

// ---------------------------------------------------------------------------
// ProtocolType
// ---------------------------------------------------------------------------

/// Which discovery protocol an operation is bound to.  `Any` is a sentinel
/// used only on the register path and means "let the manager pick".
#[derive(Debug, Clone, Copy, PartialEq, Eq, Hash, Structural)]
pub enum ProtocolType {
    /// Multicast DNS.
    Mdns,
    /// DNS Service Discovery.
    DnsSd,
    /// Universal Plug and Play (SSDP).
    Upnp,
    /// Register-path sentinel: the manager picks an enabled engine.
    Any,
}

impl Default for ProtocolType {
    /// The default protocol is mDNS.
    fn default() -> (r: Self)
        ensures
            r == ProtocolType::Mdns,
    {
        ProtocolType::Mdns
    }
}

/// Whether `protocols` holds `p`.
pub open spec fn spec_protocols_contain(protocols: Seq<ProtocolType>, p: ProtocolType) -> bool {
    exists|i: int| 0 <= i < protocols.len() && protocols[i] == p
}

/// Exec twin of [`spec_protocols_contain`].
pub fn protocols_contain(protocols: &Vec<ProtocolType>, p: ProtocolType) -> (r: bool)
    ensures
        r == spec_protocols_contain(protocols@, p),
{
    let mut i: usize = 0;
    while i < protocols.len()
        invariant
            0 <= i <= protocols@.len(),
            forall|j: int| 0 <= j < i ==> protocols@[j] != p,
        decreases protocols@.len() - i,
    {
        if protocols[i] == p {
            return true;
        }
        i = i + 1;
    }
    false
}

// ---------------------------------------------------------------------------
// Addresses
// ---------------------------------------------------------------------------

/// An IPv4 address, one octet per field.
#[derive(Debug, Clone, Copy, PartialEq, Eq, Structural)]
pub struct Ipv4Address(pub u8, pub u8, pub u8, pub u8);

/// An IPv6 address, one 16-bit group per field.
#[derive(Debug, Clone, Copy, PartialEq, Eq, Structural)]
pub struct Ipv6Address(
    pub u16,
    pub u16,
    pub u16,
    pub u16,
    pub u16,
    pub u16,
    pub u16,
    pub u16,
);

/// One IP address of either family.
#[derive(Debug, Clone, Copy, PartialEq, Eq, Structural)]
pub enum IpAddress {
    /// An IPv4 address.
    V4(Ipv4Address),
    /// An IPv6 address.
    V6(Ipv6Address),
}

/// Dotted-quad rendering of an IPv4 address.
pub open spec fn spec_ipv4_string(a: Ipv4Address) -> Seq<char> {
    spec_dec(a.0 as nat) + seq!['.'] + spec_dec(a.1 as nat) + seq!['.'] + spec_dec(a.2 as nat)
        + seq!['.'] + spec_dec(a.3 as nat)
}

/// Eight colon-separated hexadecimal groups, lower case, no zero
/// compression.
pub open spec fn spec_ipv6_string(a: Ipv6Address) -> Seq<char> {
    spec_hex(a.0 as nat) + seq![':'] + spec_hex(a.1 as nat) + seq![':'] + spec_hex(a.2 as nat)
        + seq![':'] + spec_hex(a.3 as nat) + seq![':'] + spec_hex(a.4 as nat) + seq![':']
        + spec_hex(a.5 as nat) + seq![':'] + spec_hex(a.6 as nat) + seq![':'] + spec_hex(
        a.7 as nat,
    )
}

/// Text form of an address, as it appears inside URLs and host fields.
pub open spec fn spec_ip_string(ip: IpAddress) -> Seq<char> {
    match ip {
        IpAddress::V4(a) => spec_ipv4_string(a),
        IpAddress::V6(a) => spec_ipv6_string(a),
    }
}

impl IpAddress {
    /// The loopback IPv4 address `127.0.0.1`.
    pub fn localhost() -> (r: Self)
        ensures
            r == IpAddress::V4(Ipv4Address(127, 0, 0, 1)),
    {
        IpAddress::V4(Ipv4Address(127, 0, 0, 1))
    }

    /// Render the address as text.
    pub fn to_display(&self) -> (r: String)
        ensures
            r@ == spec_ip_string(*self),
    {
        match self {
            IpAddress::V4(a) => {
                let mut out = u64_to_dec(a.0 as u64);
                out.append(".");
                let p1 = u64_to_dec(a.1 as u64);
                out.append(p1.as_str());
                out.append(".");
                let p2 = u64_to_dec(a.2 as u64);
                out.append(p2.as_str());
                out.append(".");
                let p3 = u64_to_dec(a.3 as u64);
                out.append(p3.as_str());
                proof {
                    reveal_strlit(".");
                    assert(out@ =~= spec_ip_string(*self));
                }
                out
            },
            IpAddress::V6(a) => {
                let mut out = u64_to_hex(a.0 as u64);
                out.append(":");
                let p1 = u64_to_hex(a.1 as u64);
                out.append(p1.as_str());
                out.append(":");
                let p2 = u64_to_hex(a.2 as u64);
                out.append(p2.as_str());
                out.append(":");
                let p3 = u64_to_hex(a.3 as u64);
                out.append(p3.as_str());
                out.append(":");
                let p4 = u64_to_hex(a.4 as u64);
                out.append(p4.as_str());
                out.append(":");
                let p5 = u64_to_hex(a.5 as u64);
                out.append(p5.as_str());
                out.append(":");
                let p6 = u64_to_hex(a.6 as u64);
                out.append(p6.as_str());
                out.append(":");
                let p7 = u64_to_hex(a.7 as u64);
                out.append(p7.as_str());
                proof {
                    reveal_strlit(":");
                    assert(out@ =~= spec_ip_string(*self));
                }
                out
            },
        }
    }
}

// ---------------------------------------------------------------------------
// ServiceAttributes
// ---------------------------------------------------------------------------

/// TXT-like key/value attributes of a service: an unordered mapping of
/// small UTF-8 keys to values, stored as pairs in insertion order.
#[derive(Debug)]
pub struct ServiceAttributes {
    pairs: Vec<(String, String)>,
}

/// First value stored under `key`, scanning left to right.
pub open spec fn spec_attr_get(
    pairs: Seq<(Seq<char>, Seq<char>)>,
    key: Seq<char>,
) -> Option<Seq<char>>
    decreases pairs.len(),
{
    if pairs.len() == 0 {
        Option::None
    } else if pairs[0].0 == key {
        Option::Some(pairs[0].1)
    } else {
        spec_attr_get(pairs.drop_first(), key)
    }
}

/// Insert-or-update on the pair list: the first pair holding `key` is
/// replaced in place; a fresh key is appended at the end.
pub open spec fn spec_attr_insert(
    pairs: Seq<(Seq<char>, Seq<char>)>,
    key: Seq<char>,
    value: Seq<char>,
) -> Seq<(Seq<char>, Seq<char>)>
    decreases pairs.len(),
{
    if pairs.len() == 0 {
        seq![(key, value)]
    } else if pairs[0].0 == key {
        seq![(key, value)] + pairs.drop_first()
    } else {
        seq![pairs[0]] + spec_attr_insert(pairs.drop_first(), key, value)
    }
}

proof fn lemma_attr_insert_update(
    pairs: Seq<(Seq<char>, Seq<char>)>,
    key: Seq<char>,
    value: Seq<char>,
    i: int,
)
    requires
        0 <= i < pairs.len(),
        pairs[i].0 == key,
        forall|j: int| 0 <= j < i ==> pairs[j].0 != key,
    ensures
        spec_attr_insert(pairs, key, value) =~= pairs.update(i, (key, value)),
    decreases i,
{
    if i == 0 {
        assert(seq![(key, value)] + pairs.drop_first() =~= pairs.update(0, (key, value)));
    } else {
        assert(pairs[0].0 != key);
        assert forall|j: int| 0 <= j < i - 1 implies pairs.drop_first()[j].0 != key by {
            assert(pairs.drop_first()[j] == pairs[j + 1]);
        }
        assert(pairs.drop_first()[i - 1] == pairs[i]);
        lemma_attr_insert_update(pairs.drop_first(), key, value, i - 1);
        assert(seq![pairs[0]] + pairs.drop_first().update(i - 1, (key, value)) =~= pairs.update(
            i,
            (key, value),
        ));
    }
}

proof fn lemma_attr_insert_push(pairs: Seq<(Seq<char>, Seq<char>)>, key: Seq<char>, value: Seq<char>)
    requires
        forall|j: int| 0 <= j < pairs.len() ==> pairs[j].0 != key,
    ensures
        spec_attr_insert(pairs, key, value) =~= pairs.push((key, value)),
    decreases pairs.len(),
{
    if pairs.len() == 0 {
        assert(seq![(key, value)] =~= pairs.push((key, value)));
    } else {
        assert forall|j: int| 0 <= j < pairs.drop_first().len() implies pairs.drop_first()[j].0
            != key by {
            assert(pairs.drop_first()[j] == pairs[j + 1]);
        }
        lemma_attr_insert_push(pairs.drop_first(), key, value);
        assert(seq![pairs[0]] + pairs.drop_first().push((key, value)) =~= pairs.push(
            (key, value),
        ));
    }
}

proof fn lemma_attr_get_skip(pairs: Seq<(Seq<char>, Seq<char>)>, key: Seq<char>, i: int)
    requires
        0 <= i <= pairs.len(),
        forall|j: int| 0 <= j < i ==> pairs[j].0 != key,
    ensures
        spec_attr_get(pairs, key) == spec_attr_get(pairs.skip(i), key),
    decreases i,
{
    if i > 0 {
        assert(pairs[0].0 != key);
        assert(spec_attr_get(pairs, key) == spec_attr_get(pairs.drop_first(), key));
        assert forall|j: int| 0 <= j < i - 1 implies pairs.drop_first()[j].0 != key by {
            assert(pairs.drop_first()[j] == pairs[j + 1]);
        }
        lemma_attr_get_skip(pairs.drop_first(), key, i - 1);
        assert(pairs.drop_first().skip(i - 1) =~= pairs.skip(i));
    } else {
        assert(pairs.skip(0) =~= pairs);
    }
}

impl View for ServiceAttributes {
    type V = Seq<(Seq<char>, Seq<char>)>;

    closed spec fn view(&self) -> Seq<(Seq<char>, Seq<char>)> {
        Seq::new(self.pairs@.len(), |i: int| (self.pairs@[i].0@, self.pairs@[i].1@))
    }
}

impl Clone for ServiceAttributes {
    fn clone(&self) -> (r: Self)
        ensures
            r@ == self@,
    {
        let mut pairs: Vec<(String, String)> = Vec::new();
        let mut i: usize = 0;
        while i < self.pairs.len()
            invariant
                0 <= i <= self.pairs@.len(),
                pairs@.len() == i,
                forall|j: int|
                    0 <= j < i ==> pairs@[j].0@ == self.pairs@[j].0@ && pairs@[j].1@
                        == self.pairs@[j].1@,
            decreases self.pairs@.len() - i,
        {
            let k = self.pairs[i].0.clone();
            let v = self.pairs[i].1.clone();
            pairs.push((k, v));
            i = i + 1;
        }
        let r = ServiceAttributes { pairs };
        proof {
            assert(r@ =~= self@);
        }
        r
    }
}

impl ServiceAttributes {
    /// An empty attribute set.
    pub fn new() -> (r: Self)
        ensures
            r@ =~= Seq::<(Seq<char>, Seq<char>)>::empty(),
    {
        ServiceAttributes { pairs: Vec::new() }
    }

    /// Number of stored pairs.
    pub fn len(&self) -> (r: usize)
        ensures
            r == self@.len(),
    {
        self.pairs.len()
    }

    /// Whether no pair is stored.
    pub fn is_empty(&self) -> (r: bool)
        ensures
            r == (self@.len() == 0),
    {
        self.pairs.len() == 0
    }

    /// Insert or update: an existing key keeps its position and gets the
    /// new value; a fresh key is appended.
    pub fn insert(&mut self, key: String, value: String)
        ensures
            final(self)@ == spec_attr_insert(old(self)@, key@, value@),
            spec_attr_get(final(self)@, key@) == Option::Some(value@),
            final(self)@.len() <= old(self)@.len() + 1,
            forall|k: Seq<char>|
                k != key@ ==> spec_attr_get(final(self)@, k) == spec_attr_get(old(self)@, k),
    {
        let ghost orig = self@;
        let mut i: usize = 0;
        while i < self.pairs.len()
            invariant
                0 <= i <= self.pairs@.len(),
                self@ == orig,
                old(self)@ == orig,
                forall|j: int| 0 <= j < i ==> self@[j].0 != key@,
            decreases self.pairs@.len() - i,
        {
            if str_eq(self.pairs[i].0.as_str(), key.as_str()) {
                let ghost valv = value@;
                let prior = self.pairs[i].0.clone();
                self.pairs.set(i, (prior, value));
                proof {
                    assert(self@.len() == orig.len());
                    assert(self@[i as int].0 == key@);
                    assert(self@[i as int].1 == valv);
                    assert(orig[i as int].0 == key@);
                    assert forall|j: int|
                        0 <= j < orig.len() && j != i implies self@[j] == orig[j] by {}
                    lemma_attr_update_get(orig, self@, key@, i as int);
                    lemma_attr_insert_update(orig, key@, valv, i as int);
                    assert(self@ =~= orig.update(i as int, (key@, valv)));
                }
                return;
            }
            i = i + 1;
        }
        let ghost keyv = key@;
        let ghost valv = value@;
        self.pairs.push((key, value));
        proof {
            assert(self@ =~= orig.push((keyv, valv)));
            lemma_attr_push_get(orig, keyv, valv);
            lemma_attr_insert_push(orig, keyv, valv);
        }
    }

    /// Value stored under `key`, if any.
    pub fn get(&self, key: &str) -> (r: Option<&String>)
        ensures
            match r {
                Option::Some(v) => spec_attr_get(self@, key@) == Option::Some(v@),
                Option::None => spec_attr_get(self@, key@) is None,
            },
    {
        let mut i: usize = 0;
        while i < self.pairs.len()
            invariant
                0 <= i <= self.pairs@.len(),
                forall|j: int| 0 <= j < i ==> self@[j].0 != key@,
            decreases self.pairs@.len() - i,
        {
            if str_eq(self.pairs[i].0.as_str(), key) {
                proof {
                    lemma_attr_get_skip(self@, key@, i as int);
                    assert(self@.skip(i as int)[0] == self@[i as int]);
                }
                return Option::Some(&self.pairs[i].1);
            }
            i = i + 1;
        }
        proof {
            lemma_attr_get_skip(self@, key@, self@.len() as int);
            assert(self@.skip(self@.len() as int).len() == 0);
        }
        Option::None
    }

    /// The stored pairs, in insertion order.
    pub fn as_pairs(&self) -> (r: &Vec<(String, String)>)
        ensures
            r@.len() == self@.len(),
            forall|i: int|
                0 <= i < r@.len() ==> r@[i].0@ == self@[i].0 && r@[i].1@ == self@[i].1,
    {
        &self.pairs
    }
}

proof fn lemma_attr_update_get(
    orig: Seq<(Seq<char>, Seq<char>)>,
    upd: Seq<(Seq<char>, Seq<char>)>,
    key: Seq<char>,
    i: int,
)
    requires
        0 <= i < orig.len(),
        upd.len() == orig.len(),
        upd[i].0 == key,
        orig[i].0 == key,
        forall|j: int| 0 <= j < orig.len() && j != i ==> upd[j] == orig[j],
        forall|j: int| 0 <= j < i ==> orig[j].0 != key,
    ensures
        spec_attr_get(upd, key) == Option::Some(upd[i].1),
        forall|k: Seq<char>| k != key ==> spec_attr_get(upd, k) == spec_attr_get(orig, k),
    decreases i,
{
    if i == 0 {
        assert(spec_attr_get(upd, key) == Option::Some(upd[0].1));
        assert forall|k: Seq<char>| k != key implies spec_attr_get(upd, k) == spec_attr_get(
            orig,
            k,
        ) by {
            assert(upd[0].0 == key);
            assert(spec_attr_get(upd, k) == spec_attr_get(upd.drop_first(), k));
            assert(spec_attr_get(orig, k) == spec_attr_get(orig.drop_first(), k));
            assert forall|j: int|
                0 <= j < upd.drop_first().len() implies upd.drop_first()[j]
                == orig.drop_first()[j] by {
                assert(upd.drop_first()[j] == upd[j + 1]);
                assert(orig.drop_first()[j] == orig[j + 1]);
            }
            assert(upd.drop_first() =~= orig.drop_first());
        }
    } else {
        assert(upd[0] == orig[0]);
        assert(orig[0].0 != key);
        assert forall|j: int|
            0 <= j < orig.drop_first().len() && j != i - 1 implies upd.drop_first()[j]
            == orig.drop_first()[j] by {
            assert(upd.drop_first()[j] == upd[j + 1]);
            assert(orig.drop_first()[j] == orig[j + 1]);
        }
        assert forall|j: int| 0 <= j < i - 1 implies orig.drop_first()[j].0 != key by {
            assert(orig.drop_first()[j] == orig[j + 1]);
        }
        assert(upd.drop_first()[i - 1] == upd[i]);
        assert(orig.drop_first()[i - 1] == orig[i]);
        lemma_attr_update_get(orig.drop_first(), upd.drop_first(), key, i - 1);
        assert(spec_attr_get(upd, key) == spec_attr_get(upd.drop_first(), key));
        assert forall|k: Seq<char>| k != key implies spec_attr_get(upd, k) == spec_attr_get(
            orig,
            k,
        ) by {
            assert(spec_attr_get(upd.drop_first(), k) == spec_attr_get(orig.drop_first(), k));
            if upd[0].0 == k {
            } else {
                assert(spec_attr_get(upd, k) == spec_attr_get(upd.drop_first(), k));
                assert(spec_attr_get(orig, k) == spec_attr_get(orig.drop_first(), k));
            }
        }
    }
}

proof fn lemma_attr_push_get(orig: Seq<(Seq<char>, Seq<char>)>, key: Seq<char>, value: Seq<char>)
    requires
        forall|j: int| 0 <= j < orig.len() ==> orig[j].0 != key,
    ensures
        spec_attr_get(orig.push((key, value)), key) == Option::Some(value),
        forall|k: Seq<char>|
            k != key ==> spec_attr_get(orig.push((key, value)), k) == spec_attr_get(orig, k),
    decreases orig.len(),
{
    let pushed = orig.push((key, value));
    if orig.len() == 0 {
        assert(pushed[0] == (key, value));
        assert(spec_attr_get(pushed, key) == Option::Some(value));
        assert forall|k: Seq<char>| k != key implies spec_attr_get(pushed, k) == spec_attr_get(
            orig,
            k,
        ) by {
            assert(spec_attr_get(pushed, k) == spec_attr_get(pushed.drop_first(), k));
            assert(pushed.drop_first() =~= Seq::<(Seq<char>, Seq<char>)>::empty());
        }
    } else {
        assert forall|j: int| 0 <= j < orig.drop_first().len() implies orig.drop_first()[j].0
            != key by {
            assert(orig.drop_first()[j] == orig[j + 1]);
        }
        lemma_attr_push_get(orig.drop_first(), key, value);
        assert(pushed.drop_first() =~= orig.drop_first().push((key, value)));
        assert(pushed[0] == orig[0]);
        assert(orig[0].0 != key);
        assert(spec_attr_get(pushed, key) == spec_attr_get(pushed.drop_first(), key));
        assert forall|k: Seq<char>| k != key implies spec_attr_get(pushed, k) == spec_attr_get(
            orig,
            k,
        ) by {
            if pushed[0].0 == k {
            } else {
                assert(spec_attr_get(pushed, k) == spec_attr_get(pushed.drop_first(), k));
                assert(spec_attr_get(orig, k) == spec_attr_get(orig.drop_first(), k));
            }
        }
    }
}

} // verus!

verus! {

// ---------------------------------------------------------------------------
// NetworkInterface
// ---------------------------------------------------------------------------

/// Description of one network interface of the host.
#[derive(Debug)]
pub struct NetworkInterface {
    /// Interface name.
    pub name: String,
    /// IPv4 addresses bound to the interface.
    pub ipv4_addresses: Vec<Ipv4Address>,
    /// IPv6 addresses bound to the interface.
    pub ipv6_addresses: Vec<Ipv6Address>,
    /// Whether the interface is up.
    pub is_up: bool,
    /// Whether the interface supports multicast.
    pub supports_multicast: bool,
}

impl Clone for NetworkInterface {
    fn clone(&self) -> (r: Self)
        ensures
            r.name@ == self.name@,
            r.ipv4_addresses@ == self.ipv4_addresses@,
            r.ipv6_addresses@ == self.ipv6_addresses@,
            r.is_up == self.is_up,
            r.supports_multicast == self.supports_multicast,
    {
        let r = NetworkInterface {
            name: self.name.clone(),
            ipv4_addresses: self.ipv4_addresses.clone(),
            ipv6_addresses: self.ipv6_addresses.clone(),
            is_up: self.is_up,
            supports_multicast: self.supports_multicast,
        };
        proof {
            assert(r.ipv4_addresses@ =~= self.ipv4_addresses@);
            assert(r.ipv6_addresses@ =~= self.ipv6_addresses@);
        }
        r
    }
}

impl NetworkInterface {
    /// A fresh interface description: no addresses, down, no multicast.
    pub fn new(name: &str) -> (r: Self)
        ensures
            r.name@ == name@,
            r.ipv4_addresses@.len() == 0,
            r.ipv6_addresses@.len() == 0,
            !r.is_up,
            !r.supports_multicast,
    {
        NetworkInterface {
            name: name.to_owned(),
            ipv4_addresses: Vec::new(),
            ipv6_addresses: Vec::new(),
            is_up: false,
            supports_multicast: false,
        }
    }

    /// Append an IPv4 address.
    pub fn with_ipv4(self, addr: Ipv4Address) -> (r: Self)
        ensures
            r.name@ == self.name@,
            r.ipv4_addresses@ == self.ipv4_addresses@.push(addr),
            r.ipv6_addresses@ == self.ipv6_addresses@,
            r.is_up == self.is_up,
            r.supports_multicast == self.supports_multicast,
    {
        let mut s = self;
        s.ipv4_addresses.push(addr);
        s
    }

    /// Append an IPv6 address.
    pub fn with_ipv6(self, addr: Ipv6Address) -> (r: Self)
        ensures
            r.name@ == self.name@,
            r.ipv4_addresses@ == self.ipv4_addresses@,
            r.ipv6_addresses@ == self.ipv6_addresses@.push(addr),
            r.is_up == self.is_up,
            r.supports_multicast == self.supports_multicast,
    {
        let mut s = self;
        s.ipv6_addresses.push(addr);
        s
    }

    /// Set the up and multicast flags.
    pub fn with_status(self, is_up: bool, supports_multicast: bool) -> (r: Self)
        ensures
            r.name@ == self.name@,
            r.ipv4_addresses@ == self.ipv4_addresses@,
            r.ipv6_addresses@ == self.ipv6_addresses@,
            r.is_up == is_up,
            r.supports_multicast == supports_multicast,
    {
        NetworkInterface { is_up, supports_multicast, ..self }
    }

    /// All addresses of the interface: the IPv4 ones first, then the IPv6
    /// ones.
    pub fn all_addresses(&self) -> (r: Vec<IpAddress>)
        ensures
            r@.len() == self.ipv4_addresses@.len() + self.ipv6_addresses@.len(),
            forall|i: int|
                0 <= i < self.ipv4_addresses@.len() ==> r@[i] == IpAddress::V4(
                    self.ipv4_addresses@[i],
                ),
            forall|i: int|
                0 <= i < self.ipv6_addresses@.len() ==> r@[self.ipv4_addresses@.len() + i]
                    == IpAddress::V6(self.ipv6_addresses@[i]),
    {
        let mut out: Vec<IpAddress> = Vec::new();
        let mut i: usize = 0;
        while i < self.ipv4_addresses.len()
            invariant
                0 <= i <= self.ipv4_addresses@.len(),
                out@.len() == i,
                forall|j: int|
                    0 <= j < i ==> out@[j] == IpAddress::V4(self.ipv4_addresses@[j]),
            decreases self.ipv4_addresses@.len() - i,
        {
            out.push(IpAddress::V4(self.ipv4_addresses[i]));
            i = i + 1;
        }
        let n4 = self.ipv4_addresses.len();
        let mut k: usize = 0;
        while k < self.ipv6_addresses.len()
            invariant
                0 <= k <= self.ipv6_addresses@.len(),
                n4 == self.ipv4_addresses@.len(),
                out@.len() == n4 + k,
                forall|j: int|
                    0 <= j < n4 ==> out@[j] == IpAddress::V4(self.ipv4_addresses@[j]),
                forall|j: int|
                    0 <= j < k ==> out@[n4 + j] == IpAddress::V6(self.ipv6_addresses@[j]),
            decreases self.ipv6_addresses@.len() - k,
        {
            out.push(IpAddress::V6(self.ipv6_addresses[k]));
            k = k + 1;
        }
        out
    }
}

// ---------------------------------------------------------------------------
// DiscoveryFilter
// ---------------------------------------------------------------------------

/// Post-filter applied to discovered services: predicates are combined by
/// logical AND, and an empty list of alternatives means "no constraint".
#[derive(Debug)]
pub struct DiscoveryFilter {
    /// Keep services whose type equals one of these (when non-empty).
    pub service_type_filters: Vec<ServiceType>,
    /// Keep services observed by one of these protocols (when non-empty).
    pub protocol_filters: Vec<ProtocolType>,
    /// Each pattern must be matched by some attribute: the key contains the
    /// first component and the value contains the second.
    pub attribute_patterns: Vec<(String, String)>,
}

/// Mathematical image of a [`DiscoveryFilter`].
pub struct DiscoveryFilterView {
    /// Service type alternatives.
    pub service_type_filters: Seq<ServiceTypeView>,
    /// Protocol alternatives.
    pub protocol_filters: Seq<ProtocolType>,
    /// Attribute substring patterns.
    pub attribute_patterns: Seq<(Seq<char>, Seq<char>)>,
}

impl View for DiscoveryFilter {
    type V = DiscoveryFilterView;

    open spec fn view(&self) -> DiscoveryFilterView {
        DiscoveryFilterView {
            service_type_filters: Seq::new(
                self.service_type_filters@.len(),
                |i: int| self.service_type_filters@[i]@,
            ),
            protocol_filters: self.protocol_filters@,
            attribute_patterns: Seq::new(
                self.attribute_patterns@.len(),
                |i: int| (self.attribute_patterns@[i].0@, self.attribute_patterns@[i].1@),
            ),
        }
    }
}

impl Clone for DiscoveryFilter {
    fn clone(&self) -> (r: Self)
        ensures
            r@ == self@,
    {
        let mut stf: Vec<ServiceType> = Vec::new();
        let mut i: usize = 0;
        while i < self.service_type_filters.len()
            invariant
                0 <= i <= self.service_type_filters@.len(),
                stf@.len() == i,
                forall|j: int| 0 <= j < i ==> stf@[j]@ == self.service_type_filters@[j]@,
            decreases self.service_type_filters@.len() - i,
        {
            stf.push(self.service_type_filters[i].clone());
            i = i + 1;
        }
        let mut pats: Vec<(String, String)> = Vec::new();
        let mut k: usize = 0;
        while k < self.attribute_patterns.len()
            invariant
                0 <= k <= self.attribute_patterns@.len(),
                pats@.len() == k,
                forall|j: int|
                    0 <= j < k ==> pats@[j].0@ == self.attribute_patterns@[j].0@
                        && pats@[j].1@ == self.attribute_patterns@[j].1@,
            decreases self.attribute_patterns@.len() - k,
        {
            let p = (self.attribute_patterns[k].0.clone(), self.attribute_patterns[k].1.clone());
            pats.push(p);
            k = k + 1;
        }
        let r = DiscoveryFilter {
            service_type_filters: stf,
            protocol_filters: self.protocol_filters.clone(),
            attribute_patterns: pats,
        };
        proof {
            assert(r.protocol_filters@ =~= self.protocol_filters@);
            assert(r@.service_type_filters =~= self@.service_type_filters);
            assert(r@.attribute_patterns =~= self@.attribute_patterns);
            assert(r@.protocol_filters =~= self@.protocol_filters);
        }
        r
    }
}

/// Whether some attribute matches the pattern: its key contains the
/// pattern's first component and its value the second.
pub open spec fn spec_pattern_matched(
    attrs: Seq<(Seq<char>, Seq<char>)>,
    pat: (Seq<char>, Seq<char>),
) -> bool {
    exists|a: int|
        0 <= a < attrs.len() && crate::strutil::has_substring(#[trigger] attrs[a].0, pat.0)
            && crate::strutil::has_substring(attrs[a].1, pat.1)
}

/// Whether a service passes the filter.
pub open spec fn spec_discovery_filter_matches(
    f: DiscoveryFilterView,
    s: crate::service::ServiceInfoView,
) -> bool {
    &&& (f.service_type_filters.len() == 0 || exists|i: int|
        0 <= i < f.service_type_filters.len() && f.service_type_filters[i] == s.service_type)
    &&& (f.protocol_filters.len() == 0 || spec_protocols_contain(
        f.protocol_filters,
        s.protocol_type,
    ))
    &&& (forall|p: int|
        0 <= p < f.attribute_patterns.len() ==> spec_pattern_matched(
            s.attributes,
            #[trigger] f.attribute_patterns[p],
        ))
}

impl DiscoveryFilter {
    /// An empty filter, which matches every service.
    pub fn new() -> (r: Self)
        ensures
            r@.service_type_filters.len() == 0,
            r@.protocol_filters.len() == 0,
            r@.attribute_patterns.len() == 0,
    {
        DiscoveryFilter {
            service_type_filters: Vec::new(),
            protocol_filters: Vec::new(),
            attribute_patterns: Vec::new(),
        }
    }

    /// Add a service type alternative.
    pub fn with_service_type(self, service_type: ServiceType) -> (r: Self)
        ensures
            r@.service_type_filters == self@.service_type_filters.push(service_type@),
            r@.protocol_filters == self@.protocol_filters,
            r@.attribute_patterns == self@.attribute_patterns,
    {
        let mut s = self;
        s.service_type_filters.push(service_type);
        proof {
            assert(s@.service_type_filters =~= self@.service_type_filters.push(
                s.service_type_filters@.last()@,
            ));
            assert(s@.attribute_patterns =~= self@.attribute_patterns);
        }
        s
    }

    /// Add a protocol alternative.
    pub fn with_protocol(self, protocol: ProtocolType) -> (r: Self)
        ensures
            r@.service_type_filters == self@.service_type_filters,
            r@.protocol_filters == self@.protocol_filters.push(protocol),
            r@.attribute_patterns == self@.attribute_patterns,
    {
        let mut s = self;
        s.protocol_filters.push(protocol);
        proof {
            assert(s@.service_type_filters =~= self@.service_type_filters);
            assert(s@.attribute_patterns =~= self@.attribute_patterns);
        }
        s
    }

    /// Add an attribute substring pattern (key pattern, value pattern).
    pub fn with_attribute_pattern(self, key_pattern: String, value_pattern: String) -> (r: Self)
        ensures
            r@.service_type_filters == self@.service_type_filters,
            r@.protocol_filters == self@.protocol_filters,
            r@.attribute_patterns == self@.attribute_patterns.push((key_pattern@, value_pattern@)),
    {
        let ghost kv = key_pattern@;
        let ghost vv = value_pattern@;
        let mut s = self;
        s.attribute_patterns.push((key_pattern, value_pattern));
        proof {
            assert(s@.service_type_filters =~= self@.service_type_filters);
            assert(s@.attribute_patterns =~= self@.attribute_patterns.push((kv, vv)));
        }
        s
    }

    /// Whether the service passes this filter.
    pub fn matches(&self, service: &crate::service::ServiceInfo) -> (r: bool)
        ensures
            r == spec_discovery_filter_matches(self@, service@),
    {
        if self.service_type_filters.len() > 0 {
            let type_ok = type_in_filters(&self.service_type_filters, &service.service_type);
            proof {
                if type_ok {
                    let i = choose|i: int|
                        0 <= i < self.service_type_filters@.len()
                            && (#[trigger] self.service_type_filters@[i])@
                            == service.service_type@;
                    assert(self@.service_type_filters[i] == service@.service_type);
                } else {
                    assert forall|i: int|
                        0 <= i < self@.service_type_filters.len() implies
                        self@.service_type_filters[i] != service@.service_type by {
                        assert((#[trigger] self.service_type_filters@[i])@
                            != service.service_type@);
                    }
                }
            }
            if !type_ok {
                return false;
            }
        }
        if self.protocol_filters.len() > 0 {
            if !protocols_contain(&self.protocol_filters, service.protocol_type) {
                return false;
            }
        }
        let pairs = service.attributes.as_pairs();
        proof {
            assert(Seq::new(pairs@.len(), |i: int| (pairs@[i].0@, pairs@[i].1@))
                =~= service@.attributes);
        }
        let mut p: usize = 0;
        while p < self.attribute_patterns.len()
            invariant
                0 <= p <= self.attribute_patterns@.len(),
                Seq::new(pairs@.len(), |i: int| (pairs@[i].0@, pairs@[i].1@))
                    == service@.attributes,
                forall|q: int|
                    0 <= q < p ==> spec_pattern_matched(
                        service@.attributes,
                        #[trigger] self@.attribute_patterns[q],
                    ),
            decreases self.attribute_patterns@.len() - p,
        {
            let pat_ok = any_pair_matches(
                pairs,
                self.attribute_patterns[p].0.as_str(),
                self.attribute_patterns[p].1.as_str(),
            );
            proof {
                assert(self@.attribute_patterns[p as int] == (
                    self.attribute_patterns@[p as int].0@,
                    self.attribute_patterns@[p as int].1@,
                ));
            }
            if !pat_ok {
                proof {
                    assert(!spec_pattern_matched(
                        service@.attributes,
                        self@.attribute_patterns[p as int],
                    ));
                }
                return false;
            }
            p = p + 1;
        }
        true
    }
}

/// Whether `filters` holds a type whose view equals `t`'s.
fn type_in_filters(filters: &Vec<ServiceType>, t: &ServiceType) -> (r: bool)
    ensures
        r == exists|i: int|
            0 <= i < filters@.len() && (#[trigger] filters@[i])@ == t@,
{
    let mut i: usize = 0;
    while i < filters.len()
        invariant
            0 <= i <= filters@.len(),
            forall|j: int| 0 <= j < i ==> (#[trigger] filters@[j])@ != t@,
        decreases filters@.len() - i,
    {
        if filters[i] == *t {
            return true;
        }
        i = i + 1;
    }
    false
}

/// Whether some pair's key contains `kp` and its value contains `vp`.
fn any_pair_matches(pairs: &Vec<(String, String)>, kp: &str, vp: &str) -> (r: bool)
    ensures
        r == spec_pattern_matched(
            Seq::new(pairs@.len(), |i: int| (pairs@[i].0@, pairs@[i].1@)),
            (kp@, vp@),
        ),
{
    let ghost attrs = Seq::new(pairs@.len(), |i: int| (pairs@[i].0@, pairs@[i].1@));
    let mut a: usize = 0;
    while a < pairs.len()
        invariant
            0 <= a <= pairs@.len(),
            attrs == Seq::new(pairs@.len(), |i: int| (pairs@[i].0@, pairs@[i].1@)),
            forall|j: int|
                0 <= j < a ==> !(crate::strutil::has_substring(#[trigger] attrs[j].0, kp@)
                    && crate::strutil::has_substring(attrs[j].1, vp@)),
        decreases pairs@.len() - a,
    {
        if contains_substr(pairs[a].0.as_str(), kp) && contains_substr(pairs[a].1.as_str(), vp) {
            proof {
                assert(attrs[a as int].0 == pairs@[a as int].0@);
                assert(spec_pattern_matched(attrs, (kp@, vp@)));
            }
            return true;
        }
        a = a + 1;
    }
    proof {
        assert(!spec_pattern_matched(attrs, (kp@, vp@)));
    }
    false
}

impl Default for DiscoveryFilter {
    /// The default filter is empty and matches every service.
    fn default() -> (r: Self)
        ensures
            r@.service_type_filters.len() == 0,
            r@.protocol_filters.len() == 0,
            r@.attribute_patterns.len() == 0,
    {
        DiscoveryFilter::new()
    }
}

} // verus!

verus! {

/// Parsing a two-label name `a.b` (no further dots, `b` starting with
/// `_`, not a URN) yields `a` with a `_` prepended when missing, `.b` as
/// the protocol, and no domain.
pub proof fn lemma_parse_two_labels(s: Seq<char>, a: Seq<char>, b: Seq<char>)
    requires
        s == a + seq!['.'] + b,
        !a.contains('.'),
        !b.contains('.'),
        b.len() > 0,
        b[0] == '_',
        !has_prefix(s, "urn:"@),
    ensures
        spec_parse_service_type(s) == Option::Some(
            ServiceTypeView {
                service_name: if a.len() > 0 && a[0] == '_' {
                    a
                } else {
                    seq!['_'] + a
                },
                protocol: seq!['.'] + b,
                domain: Option::None,
            },
        ),
{
    assert(s.len() > 0);
    lemma_split_at_sep(a, b, '.');
    lemma_split_no_sep(b, '.');
    let parts = spec_split(s, '.');
    assert(parts =~~= seq![a, b]);
    assert(parts.len() == 2);
    assert(parts[0] == a);
    assert(parts[1] == b);
}

} // verus!

verus! {

/// Law: parsing is idempotent through rendering.  Any accepted service
/// type string renders to a string that parses again to the same
/// structural value.
pub proof fn lemma_parse_display_roundtrip(s: Seq<char>)
    requires
        spec_parse_service_type(s) is Some,
    ensures
        spec_parse_service_type(
            spec_display_service_type(spec_parse_service_type(s).unwrap()),
        ) == spec_parse_service_type(s),
{
    let v = spec_parse_service_type(s).unwrap();
    let d = spec_display_service_type(v);
    if has_prefix(s, "urn:"@) {
        assert(d =~= s);
    } else {
        let parts = spec_split(s, '.');
        lemma_split_len(s, '.');
        lemma_split_parts_free(s, '.');
        assert(parts.len() >= 2);
        assert(parts[1].len() > 0 && parts[1][0] == '_');
        let sname = if parts[0].len() > 0 && parts[0][0] == '_' {
            parts[0]
        } else {
            seq!['_'] + parts[0]
        };
        assert(v.service_name == sname);
        assert(v.protocol == seq!['.'] + parts[1]);
        assert(!parts[0].contains('.'));
        assert(!parts[1].contains('.'));
        assert(!sname.contains('.')) by {
            if !(parts[0].len() > 0 && parts[0][0] == '_') {
                assert forall|j: int| 0 <= j < sname.len() implies sname[j] != '.' by {
                    if j > 0 {
                        assert(sname[j] == parts[0][j - 1]);
                        assert(!parts[0].contains('.'));
                    }
                }
            }
        }
        assert(sname.len() > 0 && sname[0] == '_');
        // the rendered string splits back into the same labels
        let dparts = spec_split(d, '.');
        if parts.len() > 2 {
            let tail = spec_join(parts.skip(2), '.');
            assert(v.domain == Option::Some(tail));
            assert(d =~= sname + seq!['.'] + (parts[1] + seq!['.'] + tail));
            lemma_split_at_sep(sname, parts[1] + seq!['.'] + tail, '.');
            lemma_split_at_sep(parts[1], tail, '.');
            assert(forall|i: int|
                0 <= i < parts.skip(2).len() ==> !(#[trigger] parts.skip(2)[i]).contains('.'))
                by {
                assert(forall|i: int|
                    0 <= i < parts.skip(2).len() ==> parts.skip(2)[i] == parts[i + 2]);
            }
            lemma_split_join(parts.skip(2), '.');
            assert(dparts =~~= seq![sname, parts[1]] + parts.skip(2));
            assert(dparts.len() == parts.len());
            assert(dparts[0] == sname);
            assert(dparts[1] == parts[1]);
            assert(dparts.skip(2) =~~= parts.skip(2));
        } else {
            assert(v.domain is None);
            assert(d =~= sname + seq!['.'] + parts[1]);
            lemma_split_at_sep(sname, parts[1], '.');
            lemma_split_no_sep(parts[1], '.');
            assert(dparts =~~= seq![sname, parts[1]]);
            assert(dparts[0] == sname);
            assert(dparts[1] == parts[1]);
        }
        // the rendered string is not a URN and is non-empty
        assert(d.len() > 0);
        assert(!has_prefix(d, "urn:"@)) by {
            reveal_strlit("urn:");
            assert("urn:"@.len() == 4);
            assert("urn:"@[0] == 'u');
            assert(d[0] == sname[0]);
            assert(d[0] == '_');
            if has_prefix(d, "urn:"@) {
                assert(d.subrange(0, 4)[0] == d[0]);
                assert(false);
            }
        }
        // reparse and compare field by field
        let v2 = spec_parse_service_type(d).unwrap();
        assert(dparts[1].len() > 0 && dparts[1][0] == '_');
        assert(v2.service_name == dparts[0]) by {
            assert(dparts[0] == sname);
            assert(sname.len() > 0 && sname[0] == '_');
        }
        assert(v2.service_name == v.service_name);
        assert(v2.protocol =~= v.protocol);
        if parts.len() > 2 {
            assert(dparts.len() > 2);
            assert(v2.domain == Option::Some(spec_join(dparts.skip(2), '.')));
            assert(spec_join(dparts.skip(2), '.') == spec_join(parts.skip(2), '.'));
            assert(v2.domain == v.domain);
        } else {
            assert(dparts.len() == 2);
            assert(v2.domain is None);
        }
        assert(v2 == v);
    }
}

} // verus!
