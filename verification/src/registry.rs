//! Service registry: a bounded in-memory store of local and discovered
//! services, indexed by the composite key `name:type:port`, with TTL
//! expiry, filter queries, and capacity eviction.
//!
//! Entries expire lazily: an expired entry never appears in a query result
//! even before [`ServiceRegistry::cleanup_expired_at`] reclaims its slot.
//! All operations that depend on time take the current wall clock in
//! milliseconds; the variants named as in the wider API read the system
//! clock themselves.

use vstd::prelude::*;

use crate::error::DiscoveryError;
use crate::service::{ServiceInfo, ServiceInfoView};
use crate::strutil::{has_substring, spec_dec, u64_to_dec, contains_substr, str_eq};
use crate::types::{
    ProtocolType, ServiceType, ServiceTypeView, spec_display_service_type,
    spec_protocols_contain, protocols_contain,
};
use crate::utils::current_timestamp_millis;

verus! {

// ---------------------------------------------------------------------------
// Keys
// ---------------------------------------------------------------------------

/// Composite registry key of a service: `name:type:port`.
pub open spec fn spec_service_key(s: ServiceInfoView) -> Seq<char> {
    s.name + seq![':'] + spec_display_service_type(s.service_type) + seq![':'] + spec_dec(
        s.port as nat,
    )
}

/// Exec twin of [`spec_service_key`].
pub fn service_key(service: &ServiceInfo) -> (r: String)
    ensures
        r@ == spec_service_key(service@),
{
    let mut out = service.name.clone();
    out.append(":");
    let ty = service.service_type.display_string();
    out.append(ty.as_str());
    out.append(":");
    let port = u64_to_dec(service.port as u64);
    out.append(port.as_str());
    proof {
        reveal_strlit(":");
        assert(out@ =~= spec_service_key(service@));
    }
    out
}

// ---------------------------------------------------------------------------
// Entries
// ---------------------------------------------------------------------------

/// One registry slot: a service plus bookkeeping.
#[derive(Debug)]
pub struct ServiceEntry {
    /// The stored service.
    pub service: ServiceInfo,
    /// When the slot was written, in ms of the wall clock.
    pub timestamp: u64,
    /// Whether this is a locally registered service.
    pub is_local: bool,
    /// Validity window in ms; local entries carry none and never expire.
    pub ttl: Option<u64>,
    /// The protocol that registered or discovered the service.
    pub protocol: ProtocolType,
}

/// Mathematical image of a [`ServiceEntry`].
pub struct ServiceEntryView {
    /// The stored service.
    pub service: ServiceInfoView,
    /// Write time in ms.
    pub timestamp: u64,
    /// Local flag.
    pub is_local: bool,
    /// Validity window.
    pub ttl: Option<u64>,
    /// Source protocol.
    pub protocol: ProtocolType,
}

impl View for ServiceEntry {
    type V = ServiceEntryView;

    open spec fn view(&self) -> ServiceEntryView {
        ServiceEntryView {
            service: self.service@,
            timestamp: self.timestamp,
            is_local: self.is_local,
            ttl: self.ttl,
            protocol: self.protocol,
        }
    }
}

impl Clone for ServiceEntry {
    fn clone(&self) -> (r: Self)
        ensures
            r@ == self@,
    {
        ServiceEntry {
            service: self.service.clone(),
            timestamp: self.timestamp,
            is_local: self.is_local,
            ttl: self.ttl,
            protocol: self.protocol,
        }
    }
}

/// An entry is expired at `now` when it carries a window and the window has
/// passed.  Entries without a window (local ones) never expire.
pub open spec fn spec_entry_expired(e: ServiceEntryView, now: u64) -> bool {
    match e.ttl {
        Option::Some(t) => now > e.timestamp + t,
        Option::None => false,
    }
}

impl ServiceEntry {
    /// Entry for a locally registered service: no expiry window.
    pub fn new_local(service: ServiceInfo, protocol: ProtocolType, now_ms: u64) -> (r: Self)
        ensures
            r@ == (ServiceEntryView {
                service: service@,
                timestamp: now_ms,
                is_local: true,
                ttl: Option::None,
                protocol,
            }),
    {
        ServiceEntry { service, timestamp: now_ms, is_local: true, ttl: Option::None, protocol }
    }

    /// Entry for a service discovered on the network.
    pub fn new_discovered(
        service: ServiceInfo,
        protocol: ProtocolType,
        ttl: Option<u64>,
        now_ms: u64,
    ) -> (r: Self)
        ensures
            r@ == (ServiceEntryView {
                service: service@,
                timestamp: now_ms,
                is_local: false,
                ttl,
                protocol,
            }),
    {
        ServiceEntry { service, timestamp: now_ms, is_local: false, ttl, protocol }
    }

    /// Whether the entry is expired at `now_ms`.
    pub fn is_expired(&self, now_ms: u64) -> (r: bool)
        ensures
            r == spec_entry_expired(self@, now_ms),
    {
        match self.ttl {
            Option::Some(t) => now_ms > self.timestamp && now_ms - self.timestamp > t,
            Option::None => false,
        }
    }

    /// The composite key the entry is indexed by.
    pub fn service_id(&self) -> (r: String)
        ensures
            r@ == spec_service_key(self@.service),
    {
        service_key(&self.service)
    }
}

// ---------------------------------------------------------------------------
// Filters
// ---------------------------------------------------------------------------

/// Query filter over registry entries; absent fields do not constrain.
/// `local_only` and `discovered_only` together match nothing.
#[derive(Debug)]
pub struct ServiceFilter {
    /// Keep entries whose rendered service type equals one of these.
    pub service_types: Option<Vec<ServiceType>>,
    /// Keep entries recorded by one of these protocols.
    pub protocols: Option<Vec<ProtocolType>>,
    /// Keep entries whose service name contains this text.
    pub name_contains: Option<String>,
    /// Keep only local entries.
    pub local_only: bool,
    /// Keep only discovered entries.
    pub discovered_only: bool,
    /// Keep only entries written at most this many ms ago.
    pub max_age: Option<u64>,
}

/// Mathematical image of a [`ServiceFilter`].
pub struct ServiceFilterView {
    /// Service type alternatives.
    pub service_types: Option<Seq<ServiceTypeView>>,
    /// Protocol alternatives.
    pub protocols: Option<Seq<ProtocolType>>,
    /// Name substring.
    pub name_contains: Option<Seq<char>>,
    /// Local flag.
    pub local_only: bool,
    /// Discovered flag.
    pub discovered_only: bool,
    /// Age bound in ms.
    pub max_age: Option<u64>,
}

impl View for ServiceFilter {
    type V = ServiceFilterView;

    open spec fn view(&self) -> ServiceFilterView {
        ServiceFilterView {
            service_types: match self.service_types {
                Option::Some(ts) => Option::Some(Seq::new(ts@.len(), |i: int| ts@[i]@)),
                Option::None => Option::None,
            },
            protocols: match self.protocols {
                Option::Some(ps) => Option::Some(ps@),
                Option::None => Option::None,
            },
            name_contains: match self.name_contains {
                Option::Some(n) => Option::Some(n@),
                Option::None => Option::None,
            },
            local_only: self.local_only,
            discovered_only: self.discovered_only,
            max_age: self.max_age,
        }
    }
}

/// The filter's verdict on one entry at time `now`, expiry included: an
/// expired entry matches no filter.
pub open spec fn spec_filter_matches(f: ServiceFilterView, e: ServiceEntryView, now: u64) -> bool {
    &&& !spec_entry_expired(e, now)
    &&& match f.max_age {
        Option::Some(m) => !(now > e.timestamp + m),
        Option::None => true,
    }
    &&& (f.local_only ==> e.is_local)
    &&& (f.discovered_only ==> !e.is_local)
    &&& match f.service_types {
        Option::Some(ts) => exists|i: int|
            0 <= i < ts.len() && spec_display_service_type(#[trigger] ts[i])
                == spec_display_service_type(e.service.service_type),
        Option::None => true,
    }
    &&& match f.protocols {
        Option::Some(ps) => spec_protocols_contain(ps, e.protocol),
        Option::None => true,
    }
    &&& match f.name_contains {
        Option::Some(n) => has_substring(e.service.name, n),
        Option::None => true,
    }
}

/// Whether some type in `ts` renders to exactly `ty`.
fn any_type_renders_to(ts: &Vec<ServiceType>, ty: &str) -> (r: bool)
    ensures
        r == exists|i: int|
            0 <= i < ts@.len() && spec_display_service_type((#[trigger] ts@[i])@) == ty@,
{
    let mut i: usize = 0;
    while i < ts.len()
        invariant
            0 <= i <= ts@.len(),
            forall|j: int|
                0 <= j < i ==> spec_display_service_type((#[trigger] ts@[j])@) != ty@,
        decreases ts@.len() - i,
    {
        let rendered = ts[i].display_string();
        if str_eq(rendered.as_str(), ty) {
            return true;
        }
        i = i + 1;
    }
    false
}

impl Default for ServiceFilter {
    /// The default filter constrains nothing.
    fn default() -> (r: Self)
        ensures
            r@.service_types is None,
            r@.protocols is None,
            r@.name_contains is None,
            !r@.local_only,
            !r@.discovered_only,
            r@.max_age is None,
    {
        ServiceFilter {
            service_types: Option::None,
            protocols: Option::None,
            name_contains: Option::None,
            local_only: false,
            discovered_only: false,
            max_age: Option::None,
        }
    }
}

impl ServiceFilter {
    /// A filter that constrains nothing.
    pub fn new() -> (r: Self)
        ensures
            r@.service_types is None,
            r@.protocols is None,
            r@.name_contains is None,
            !r@.local_only,
            !r@.discovered_only,
            r@.max_age is None,
    {
        ServiceFilter::default()
    }

    /// Constrain to the given service types.
    pub fn with_service_types(self, types: Vec<ServiceType>) -> (r: Self)
        ensures
            r@ == (ServiceFilterView {
                service_types: Option::Some(Seq::new(types@.len(), |i: int| types@[i]@)),
                ..self@
            }),
    {
        ServiceFilter { service_types: Option::Some(types), ..self }
    }

    /// Constrain to the given protocols.
    pub fn with_protocols(self, protocols: Vec<ProtocolType>) -> (r: Self)
        ensures
            r@ == (ServiceFilterView { protocols: Option::Some(protocols@), ..self@ }),
    {
        ServiceFilter { protocols: Option::Some(protocols), ..self }
    }

    /// Constrain the service name to contain `name`.
    pub fn with_name_contains(self, name: String) -> (r: Self)
        ensures
            r@ == (ServiceFilterView { name_contains: Option::Some(name@), ..self@ }),
    {
        ServiceFilter { name_contains: Option::Some(name), ..self }
    }

    /// Keep only local entries.
    pub fn local_only(self) -> (r: Self)
        ensures
            r@ == (ServiceFilterView { local_only: true, ..self@ }),
    {
        ServiceFilter { local_only: true, ..self }
    }

    /// Keep only discovered entries.
    pub fn discovered_only(self) -> (r: Self)
        ensures
            r@ == (ServiceFilterView { discovered_only: true, ..self@ }),
    {
        ServiceFilter { discovered_only: true, ..self }
    }

    /// Keep only entries written at most `max_age_ms` ago.
    pub fn with_max_age(self, max_age_ms: u64) -> (r: Self)
        ensures
            r@ == (ServiceFilterView { max_age: Option::Some(max_age_ms), ..self@ }),
    {
        ServiceFilter { max_age: Option::Some(max_age_ms), ..self }
    }

    /// Whether `entry` passes the filter at time `now_ms`.
    pub fn matches(&self, entry: &ServiceEntry, now_ms: u64) -> (r: bool)
        ensures
            r == spec_filter_matches(self@, entry@, now_ms),
    {
        if entry.is_expired(now_ms) {
            return false;
        }
        match &self.max_age {
            Option::Some(m) => {
                if now_ms > entry.timestamp && now_ms - entry.timestamp > *m {
                    return false;
                }
            },
            Option::None => {},
        }
        if self.local_only && !entry.is_local {
            return false;
        }
        if self.discovered_only && entry.is_local {
            return false;
        }
        match &self.service_types {
            Option::Some(ts) => {
                let entry_ty = entry.service.service_type.display_string();
                let found = any_type_renders_to(ts, entry_ty.as_str());
                proof {
                    let tsv = self@.service_types.unwrap();
                    if found {
                        let i = choose|i: int|
                            0 <= i < ts@.len() && spec_display_service_type(
                                (#[trigger] ts@[i])@,
                            ) == entry_ty@;
                        assert(tsv[i] == ts@[i]@);
                        assert(spec_display_service_type(tsv[i]) == spec_display_service_type(
                            entry@.service.service_type,
                        ));
                    } else {
                        assert forall|j: int|
                            0 <= j < tsv.len() implies spec_display_service_type(
                            #[trigger] tsv[j],
                        ) != spec_display_service_type(entry@.service.service_type) by {
                            assert(tsv[j] == (#[trigger] ts@[j])@);
                        }
                    }
                }
                if !found {
                    return false;
                }
            },
            Option::None => {},
        }
        match &self.protocols {
            Option::Some(ps) => {
                if !protocols_contain(ps, entry.protocol) {
                    return false;
                }
            },
            Option::None => {},
        }
        match &self.name_contains {
            Option::Some(n) => {
                if !contains_substr(entry.service.name.as_str(), n.as_str()) {
                    return false;
                }
            },
            Option::None => {},
        }
        true
    }
}

} // verus!

verus! {

// ---------------------------------------------------------------------------
// Registry
// ---------------------------------------------------------------------------

/// The views of a sequence of services.
pub open spec fn spec_views_of(s: Seq<ServiceInfo>) -> Seq<ServiceInfoView> {
    Seq::new(s.len(), |i: int| s[i]@)
}

/// No two entries share a composite key.
pub open spec fn spec_keys_unique(es: Seq<ServiceEntryView>) -> bool {
    forall|i: int, j: int|
        0 <= i < j < es.len() ==> spec_service_key(#[trigger] es[i].service) != spec_service_key(
            #[trigger] es[j].service,
        )
}

/// Local entries carry no expiry window.
pub open spec fn spec_locals_no_ttl(es: Seq<ServiceEntryView>) -> bool {
    forall|i: int| 0 <= i < es.len() && (#[trigger] es[i]).is_local ==> es[i].ttl is None
}

/// Whether some entry carries the key.
pub open spec fn spec_has_key(es: Seq<ServiceEntryView>, key: Seq<char>) -> bool {
    exists|i: int| 0 <= i < es.len() && spec_service_key(#[trigger] es[i].service) == key
}

/// The services of the entries that pass `f` at time `now`, in store order.
pub open spec fn spec_find_services(
    es: Seq<ServiceEntryView>,
    f: ServiceFilterView,
    now: u64,
) -> Seq<ServiceInfoView>
    decreases es.len(),
{
    if es.len() == 0 {
        Seq::empty()
    } else {
        let rest = spec_find_services(es.drop_last(), f, now);
        if spec_filter_matches(f, es.last(), now) {
            rest.push(es.last().service)
        } else {
            rest
        }
    }
}

/// The entries that are not expired at `now`, in store order.
pub open spec fn spec_keep_unexpired(es: Seq<ServiceEntryView>, now: u64) -> Seq<ServiceEntryView>
    decreases es.len(),
{
    if es.len() == 0 {
        Seq::empty()
    } else {
        let rest = spec_keep_unexpired(es.drop_last(), now);
        if spec_entry_expired(es.last(), now) {
            rest
        } else {
            rest.push(es.last())
        }
    }
}

/// How many entries are local.
pub open spec fn spec_count_local(es: Seq<ServiceEntryView>) -> int
    decreases es.len(),
{
    if es.len() == 0 {
        0
    } else {
        spec_count_local(es.drop_last()) + if es.last().is_local {
            1int
        } else {
            0int
        }
    }
}

/// How many entries are expired at `now`.
pub open spec fn spec_count_expired(es: Seq<ServiceEntryView>, now: u64) -> int
    decreases es.len(),
{
    if es.len() == 0 {
        0
    } else {
        spec_count_expired(es.drop_last(), now) + if spec_entry_expired(es.last(), now) {
            1int
        } else {
            0int
        }
    }
}

/// Point-in-time counts over the registry.
#[derive(Debug, Clone, Copy)]
pub struct RegistryStats {
    /// Total number of entries.
    pub total_services: usize,
    /// Number of local entries.
    pub local_services: usize,
    /// Number of discovered entries.
    pub discovered_services: usize,
    /// Number of entries already expired.
    pub expired_services: usize,
}

/// Bounded store of service entries with unique composite keys.
pub struct ServiceRegistry {
    entries: Vec<ServiceEntry>,
    default_ttl: u64,
    max_services: usize,
}

impl View for ServiceRegistry {
    type V = Seq<ServiceEntryView>;

    closed spec fn view(&self) -> Seq<ServiceEntryView> {
        Seq::new(self.entries@.len(), |i: int| self.entries@[i]@)
    }
}

impl ServiceRegistry {
    /// The TTL given to discovered entries that arrive without one.
    pub closed spec fn spec_default_ttl(&self) -> u64 {
        self.default_ttl
    }

    /// The capacity bound.
    pub closed spec fn spec_max_services(&self) -> usize {
        self.max_services
    }

    /// Well-formedness: keys unique, local entries without expiry windows,
    /// and never more entries than the bound.
    pub open spec fn wf(&self) -> bool {
        spec_keys_unique(self@) && spec_locals_no_ttl(self@) && self@.len()
            <= self.spec_max_services()
    }

    /// A fresh registry: 5-minute default TTL, at most 1000 entries.
    pub fn new() -> (r: Self)
        ensures
            r@.len() == 0,
            r.spec_default_ttl() == 300000,
            r.spec_max_services() == 1000,
            r.wf(),
    {
        ServiceRegistry { entries: Vec::new(), default_ttl: 300000, max_services: 1000 }
    }

    /// A registry with a chosen default TTL (ms) and capacity.
    pub fn with_settings(default_ttl_ms: u64, max_services: usize) -> (r: Self)
        ensures
            r@.len() == 0,
            r.spec_default_ttl() == default_ttl_ms,
            r.spec_max_services() == max_services,
            r.wf(),
    {
        ServiceRegistry { entries: Vec::new(), default_ttl: default_ttl_ms, max_services }
    }

    /// First index holding `key`, scanning store order.
    fn find_key_index(&self, key: &str) -> (r: Option<usize>)
        ensures
            match r {
                Option::Some(i) => i < self@.len() && spec_service_key(self@[i as int].service)
                    == key@ && forall|j: int|
                    0 <= j < i ==> spec_service_key(#[trigger] self@[j].service) != key@,
                Option::None => forall|j: int|
                    0 <= j < self@.len() ==> spec_service_key(#[trigger] self@[j].service)
                        != key@,
            },
    {
        let mut i: usize = 0;
        while i < self.entries.len()
            invariant
                0 <= i <= self.entries@.len(),
                self@.len() == self.entries@.len(),
                forall|j: int|
                    0 <= j < i ==> spec_service_key(#[trigger] self@[j].service) != key@,
            decreases self.entries@.len() - i,
        {
            let k = self.entries[i].service_id();
            if str_eq(k.as_str(), key) {
                return Option::Some(i);
            }
            i = i + 1;
        }
        Option::None
    }

    /// First index of an expired entry with the smallest timestamp among
    /// the expired ones.
    fn find_oldest_expired(&self, now_ms: u64) -> (r: Option<usize>)
        ensures
            match r {
                Option::Some(j) => j < self@.len() && spec_entry_expired(self@[j as int], now_ms)
                    && forall|k: int|
                    0 <= k < self@.len() && spec_entry_expired(#[trigger] self@[k], now_ms)
                        ==> self@[j as int].timestamp <= self@[k].timestamp,
                Option::None => forall|k: int|
                    0 <= k < self@.len() ==> !spec_entry_expired(#[trigger] self@[k], now_ms),
            },
    {
        let mut best: Option<usize> = Option::None;
        let mut i: usize = 0;
        while i < self.entries.len()
            invariant
                0 <= i <= self.entries@.len(),
                self@.len() == self.entries@.len(),
                match best {
                    Option::Some(j) => j < i && spec_entry_expired(self@[j as int], now_ms)
                        && forall|k: int|
                        0 <= k < i && spec_entry_expired(#[trigger] self@[k], now_ms)
                            ==> self@[j as int].timestamp <= self@[k].timestamp,
                    Option::None => forall|k: int|
                        0 <= k < i ==> !spec_entry_expired(#[trigger] self@[k], now_ms),
                },
            decreases self.entries@.len() - i,
        {
            if self.entries[i].is_expired(now_ms) {
                match best {
                    Option::Some(j) => {
                        if self.entries[i].timestamp < self.entries[j].timestamp {
                            best = Option::Some(i);
                        }
                    },
                    Option::None => {
                        best = Option::Some(i);
                    },
                }
            }
            i = i + 1;
        }
        best
    }
}

} // verus!

verus! {

// ---------------------------------------------------------------------------
// Well-formedness lemmas
// ---------------------------------------------------------------------------

proof fn lemma_unique_update(es: Seq<ServiceEntryView>, i: int, e: ServiceEntryView)
    requires
        spec_keys_unique(es),
        0 <= i < es.len(),
        spec_service_key(e.service) == spec_service_key(es[i].service),
    ensures
        spec_keys_unique(es.update(i, e)),
        spec_locals_no_ttl(es) && (e.is_local ==> e.ttl is None) ==> spec_locals_no_ttl(
            es.update(i, e),
        ),
{
    if spec_locals_no_ttl(es) && (e.is_local ==> e.ttl is None) {
        assert forall|a: int|
            0 <= a < es.update(i, e).len() && (#[trigger] es.update(i, e)[a]).is_local
            implies es.update(i, e)[a].ttl is None by {
            if a != i {
                assert(es.update(i, e)[a] == es[a]);
            }
        }
    }
    let upd = es.update(i, e);
    assert forall|a: int, b: int|
        0 <= a < b < upd.len() implies spec_service_key(#[trigger] upd[a].service)
        != spec_service_key(#[trigger] upd[b].service) by {
        assert(es[a] == if a == i {
            es[i]
        } else {
            upd[a]
        });
        assert(es[b] == if b == i {
            es[i]
        } else {
            upd[b]
        });
    }
}

proof fn lemma_unique_push(es: Seq<ServiceEntryView>, e: ServiceEntryView)
    requires
        spec_keys_unique(es),
        !spec_has_key(es, spec_service_key(e.service)),
    ensures
        spec_keys_unique(es.push(e)),
        spec_locals_no_ttl(es) && (e.is_local ==> e.ttl is None) ==> spec_locals_no_ttl(
            es.push(e),
        ),
{
    if spec_locals_no_ttl(es) && (e.is_local ==> e.ttl is None) {
        assert forall|a: int|
            0 <= a < es.push(e).len() && (#[trigger] es.push(e)[a]).is_local implies es.push(
            e,
        )[a].ttl is None by {
            if a < es.len() {
                assert(es.push(e)[a] == es[a]);
            }
        }
    }
    let p = es.push(e);
    assert forall|a: int, b: int|
        0 <= a < b < p.len() implies spec_service_key(#[trigger] p[a].service)
        != spec_service_key(#[trigger] p[b].service) by {
        if b < es.len() {
            assert(p[a] == es[a]);
            assert(p[b] == es[b]);
        } else {
            assert(p[a] == es[a]);
            assert(p[b] == e);
            assert(spec_service_key(es[a].service) != spec_service_key(e.service));
        }
    }
}

proof fn lemma_unique_remove(es: Seq<ServiceEntryView>, j: int)
    requires
        spec_keys_unique(es),
        0 <= j < es.len(),
    ensures
        spec_keys_unique(es.remove(j)),
        spec_locals_no_ttl(es) ==> spec_locals_no_ttl(es.remove(j)),
        forall|key: Seq<char>| !spec_has_key(es, key) ==> !spec_has_key(es.remove(j), key),
{
    if spec_locals_no_ttl(es) {
        assert forall|a: int|
            0 <= a < es.remove(j).len() && (#[trigger] es.remove(j)[a]).is_local
            implies es.remove(j)[a].ttl is None by {
            let a0 = if a < j {
                a
            } else {
                a + 1
            };
            assert(es.remove(j)[a] == es[a0]);
        }
    }
    let rm = es.remove(j);
    assert forall|a: int, b: int|
        0 <= a < b < rm.len() implies spec_service_key(#[trigger] rm[a].service)
        != spec_service_key(#[trigger] rm[b].service) by {
        let a0 = if a < j {
            a
        } else {
            a + 1
        };
        let b0 = if b < j {
            b
        } else {
            b + 1
        };
        assert(rm[a] == es[a0]);
        assert(rm[b] == es[b0]);
    }
    assert forall|key: Seq<char>| !spec_has_key(es, key) implies !spec_has_key(
        rm,
        key,
    ) by {
        if spec_has_key(rm, key) {
            let i = choose|i: int|
                0 <= i < rm.len() && spec_service_key(#[trigger] rm[i].service) == key;
            let i0 = if i < j {
                i
            } else {
                i + 1
            };
            assert(rm[i] == es[i0]);
            assert(spec_service_key(es[i0].service) == key);
        }
    }
}

} // verus!

verus! {

impl ServiceRegistry {
    /// Register a local service: an entry under the same key is replaced in
    /// place; a fresh key is appended, evicting the oldest expired entry
    /// when the registry is full.  Fails with a configuration error when
    /// the registry is full of unexpired entries.
    pub fn register_local_service_at(
        &mut self,
        service: ServiceInfo,
        protocol: ProtocolType,
        now_ms: u64,
    ) -> (r: Result<(), DiscoveryError>)
        requires
            old(self).wf(),
        ensures
            final(self).wf(),
            final(self).spec_max_services() == old(self).spec_max_services(),
            final(self).spec_default_ttl() == old(self).spec_default_ttl(),
            spec_local_register_outcome(
                old(self)@,
                final(self)@,
                old(self).spec_max_services(),
                service@,
                protocol,
                now_ms,
                r,
            ),
    {
        let key = service_key(&service);
        let entry = ServiceEntry::new_local(service, protocol, now_ms);
        self.store_entry(entry, key, now_ms)
    }

    /// Record a service discovered on the network, with the given TTL or
    /// the registry default.  A full registry first evicts its oldest
    /// expired entry, and the arrival fails with a configuration error
    /// when none is expired; then an entry under the same key is replaced
    /// in place and a fresh key is appended.
    pub fn add_discovered_service_at(
        &mut self,
        service: ServiceInfo,
        protocol: ProtocolType,
        ttl_ms: Option<u64>,
        now_ms: u64,
    ) -> (r: Result<(), DiscoveryError>)
        requires
            old(self).wf(),
        ensures
            final(self).wf(),
            final(self).spec_max_services() == old(self).spec_max_services(),
            final(self).spec_default_ttl() == old(self).spec_default_ttl(),
            spec_discovered_add_outcome(
                old(self)@,
                final(self)@,
                old(self).spec_max_services(),
                old(self).spec_default_ttl(),
                service@,
                protocol,
                ttl_ms,
                now_ms,
                r,
            ),
    {
        let ttl = match ttl_ms {
            Option::Some(t) => t,
            Option::None => self.default_ttl,
        };
        if self.entries.len() >= self.max_services {
            match self.find_oldest_expired(now_ms) {
                Option::Some(j) => {
                    proof {
                        assert(spec_oldest_expired_at(old(self)@, j as int, now_ms));
                    }
                    self.entries.remove(j);
                    proof {
                        assert(self@ =~= old(self)@.remove(j as int));
                        lemma_unique_remove(old(self)@, j as int);
                    }
                },
                Option::None => {
                    return Result::Err(
                        DiscoveryError::configuration(
                            "Service registry at capacity".to_owned(),
                        ),
                    );
                },
            }
        }
        let ghost mid = self@;
        let key = service_key(&service);
        let entry = ServiceEntry::new_discovered(service, protocol, Option::Some(ttl), now_ms);
        let ghost e = entry@;
        match self.find_key_index(key.as_str()) {
            Option::Some(i) => {
                self.entries.set(i, entry);
                proof {
                    assert(self@ =~= mid.update(i as int, e));
                    lemma_unique_update(mid, i as int, e);
                }
            },
            Option::None => {
                self.entries.push(entry);
                proof {
                    assert(self@ =~= mid.push(e));
                    lemma_unique_push(mid, e);
                }
            },
        }
        Result::Ok(())
    }

    /// Shared store step for local registration.
    fn store_entry(&mut self, entry: ServiceEntry, key: String, now_ms: u64) -> (r: Result<
        (),
        DiscoveryError,
    >)
        requires
            old(self).wf(),
            key@ == spec_service_key(entry@.service),
            (entry@.is_local ==> entry@.ttl is None),
        ensures
            final(self).wf(),
            final(self).spec_max_services() == old(self).spec_max_services(),
            final(self).spec_default_ttl() == old(self).spec_default_ttl(),
            match r {
                Result::Ok(_) => {
                    if spec_has_key(old(self)@, key@) {
                        exists|i: int|
                            0 <= i < old(self)@.len() && spec_service_key(
                                #[trigger] old(self)@[i].service,
                            ) == key@ && final(self)@ == old(self)@.update(i, entry@)
                    } else if old(self)@.len() < old(self).spec_max_services() {
                        final(self)@ == old(self)@.push(entry@)
                    } else {
                        exists|j: int|
                            #[trigger] spec_oldest_expired_at(old(self)@, j, now_ms)
                                && final(self)@ == old(self)@.remove(j).push(entry@)
                    }
                },
                Result::Err(err) => err is Configuration && final(self)@ == old(self)@
                    && !spec_has_key(old(self)@, key@) && old(self)@.len() >= old(
                    self,
                ).spec_max_services() && (forall|j: int|
                    0 <= j < old(self)@.len() ==> !spec_entry_expired(
                        #[trigger] old(self)@[j],
                        now_ms,
                    )),
            },
    {
        let ghost e = entry@;
        match self.find_key_index(key.as_str()) {
            Option::Some(i) => {
                self.entries.set(i, entry);
                proof {
                    assert(self@ =~= old(self)@.update(i as int, e));
                    lemma_unique_update(old(self)@, i as int, e);
                }
                Result::Ok(())
            },
            Option::None => {
                if self.entries.len() < self.max_services {
                    self.entries.push(entry);
                    proof {
                        assert(self@ =~= old(self)@.push(e));
                        lemma_unique_push(old(self)@, e);
                    }
                    Result::Ok(())
                } else {
                    match self.find_oldest_expired(now_ms) {
                        Option::Some(j) => {
                            proof {
                                assert(spec_oldest_expired_at(old(self)@, j as int, now_ms));
                            }
                            self.entries.remove(j);
                            proof {
                                assert(self@ =~= old(self)@.remove(j as int));
                                lemma_unique_remove(old(self)@, j as int);
                            }
                            let ghost mid = self@;
                            self.entries.push(entry);
                            proof {
                                assert(self@ =~= mid.push(e));
                                lemma_unique_push(mid, e);
                            }
                            Result::Ok(())
                        },
                        Option::None => Result::Err(
                            DiscoveryError::configuration(
                                "Service registry at capacity".to_owned(),
                            ),
                        ),
                    }
                }
            },
        }
    }

    /// Remove the entry stored under `service_id`; fails with
    /// `ServiceNotFound` when no entry carries that key.
    pub fn unregister_local_service(&mut self, service_id: &str) -> (r: Result<
        (),
        DiscoveryError,
    >)
        requires
            old(self).wf(),
        ensures
            final(self).wf(),
            final(self).spec_max_services() == old(self).spec_max_services(),
            final(self).spec_default_ttl() == old(self).spec_default_ttl(),
            match r {
                Result::Ok(_) => exists|i: int|
                    0 <= i < old(self)@.len() && spec_service_key(
                        #[trigger] old(self)@[i].service,
                    ) == service_id@ && final(self)@ == old(self)@.remove(i),
                Result::Err(err) => err is ServiceNotFound && final(self)@ == old(self)@
                    && !spec_has_key(old(self)@, service_id@),
            },
    {
        match self.find_key_index(service_id) {
            Option::Some(i) => {
                self.entries.remove(i);
                proof {
                    assert(self@ =~= old(self)@.remove(i as int));
                    lemma_unique_remove(old(self)@, i as int);
                }
                Result::Ok(())
            },
            Option::None => Result::Err(
                DiscoveryError::service_not_found(service_id.to_owned()),
            ),
        }
    }
}

/// `j` indexes an expired entry whose timestamp is smallest among the
/// expired entries: the slot capacity eviction reclaims first.
pub open spec fn spec_oldest_expired_at(es: Seq<ServiceEntryView>, j: int, now: u64) -> bool {
    &&& 0 <= j < es.len()
    &&& spec_entry_expired(es[j], now)
    &&& forall|k: int|
        0 <= k < es.len() && spec_entry_expired(#[trigger] es[k], now) ==> es[j].timestamp
            <= es[k].timestamp
}

/// What registering a local service at time `now` does: an entry under
/// the same key is replaced in place; otherwise, with room left, the new
/// entry is appended; otherwise an expired entry is evicted first, and
/// the operation fails with a configuration error when none is expired.
pub open spec fn spec_local_register_outcome(
    pre: Seq<ServiceEntryView>,
    post: Seq<ServiceEntryView>,
    max_services: usize,
    s: ServiceInfoView,
    protocol: ProtocolType,
    now: u64,
    r: Result<(), DiscoveryError>,
) -> bool {
    let k = spec_service_key(s);
    let e = ServiceEntryView {
        service: s,
        timestamp: now,
        is_local: true,
        ttl: Option::None,
        protocol,
    };
    match r {
        Result::Ok(_) => {
            if spec_has_key(pre, k) {
                exists|i: int|
                    0 <= i < pre.len() && spec_service_key(#[trigger] pre[i].service) == k
                        && post == pre.update(i, e)
            } else if pre.len() < max_services {
                post == pre.push(e)
            } else {
                exists|j: int|
                    #[trigger] spec_oldest_expired_at(pre, j, now) && post == pre.remove(
                        j,
                    ).push(e)
            }
        },
        Result::Err(err) => err is Configuration && post == pre && !spec_has_key(pre, k)
            && pre.len() >= max_services && (forall|j: int|
            0 <= j < pre.len() ==> !spec_entry_expired(#[trigger] pre[j], now)),
    }
}

/// What recording a discovered service at time `now` does: a full store
/// first evicts its oldest expired entry (failing with a configuration
/// error when none is expired), then the entry is inserted under its key.
pub open spec fn spec_discovered_add_outcome(
    pre: Seq<ServiceEntryView>,
    post: Seq<ServiceEntryView>,
    max_services: usize,
    default_ttl: u64,
    s: ServiceInfoView,
    protocol: ProtocolType,
    ttl_ms: Option<u64>,
    now: u64,
    r: Result<(), DiscoveryError>,
) -> bool {
    let e = ServiceEntryView {
        service: s,
        timestamp: now,
        is_local: false,
        ttl: Option::Some(
            match ttl_ms {
                Option::Some(t) => t,
                Option::None => default_ttl,
            },
        ),
        protocol,
    };
    match r {
        Result::Ok(_) => {
            if pre.len() >= max_services {
                exists|j: int|
                    #[trigger] spec_oldest_expired_at(pre, j, now) && spec_inserted(
                        pre.remove(j),
                        post,
                        e,
                    )
            } else {
                spec_inserted(pre, post, e)
            }
        },
        Result::Err(err) => err is Configuration && post == pre && pre.len() >= max_services
            && (forall|j: int|
            0 <= j < pre.len() ==> !spec_entry_expired(#[trigger] pre[j], now)),
    }
}

/// `post` is `pre` with `e` inserted: replaced in place when `pre` holds
/// `e`'s key, appended otherwise.
pub open spec fn spec_inserted(
    pre: Seq<ServiceEntryView>,
    post: Seq<ServiceEntryView>,
    e: ServiceEntryView,
) -> bool {
    if spec_has_key(pre, spec_service_key(e.service)) {
        exists|i: int|
            0 <= i < pre.len() && spec_service_key(#[trigger] pre[i].service)
                == spec_service_key(e.service) && post == pre.update(i, e)
    } else {
        post == pre.push(e)
    }
}

} // verus!

verus! {

/// The local entries' services, in store order.
pub open spec fn spec_local_services(es: Seq<ServiceEntryView>) -> Seq<ServiceInfoView>
    decreases es.len(),
{
    if es.len() == 0 {
        Seq::empty()
    } else {
        let rest = spec_local_services(es.drop_last());
        if es.last().is_local {
            rest.push(es.last().service)
        } else {
            rest
        }
    }
}

/// A query whose filter keeps only local entries and carries no age bound
/// does not depend on the clock: local entries never expire.
proof fn lemma_local_find_time_free(es: Seq<ServiceEntryView>, f: ServiceFilterView, now: u64)
    requires
        spec_locals_no_ttl(es),
        f.local_only,
        f.max_age is None,
        f.service_types is None,
        f.protocols is None,
        f.name_contains is None,
        !f.discovered_only,
    ensures
        spec_find_services(es, f, now) == spec_local_services(es),
    decreases es.len(),
{
    if es.len() > 0 {
        assert(spec_locals_no_ttl(es.drop_last())) by {
            assert forall|i: int|
                0 <= i < es.drop_last().len() && (#[trigger] es.drop_last()[i]).is_local
                implies es.drop_last()[i].ttl is None by {
                assert(es.drop_last()[i] == es[i]);
            }
        }
        lemma_local_find_time_free(es.drop_last(), f, now);
        assert(es.last() == es[es.len() - 1]);
        if es.last().is_local {
            assert(es.last().ttl is None);
            assert(!spec_entry_expired(es.last(), now));
        }
    }
}

impl ServiceRegistry {
    /// The services of the entries passing `filter` at time `now_ms`, in
    /// store order.
    pub fn find_services_at(&self, filter: &ServiceFilter, now_ms: u64) -> (r: Vec<ServiceInfo>)
        ensures
            spec_views_of(r@) == spec_find_services(self@, filter@, now_ms),
    {
        let mut out: Vec<ServiceInfo> = Vec::new();
        let mut i: usize = 0;
        while i < self.entries.len()
            invariant
                0 <= i <= self.entries@.len(),
                self@.len() == self.entries@.len(),
                spec_views_of(out@) == spec_find_services(self@.take(i as int), filter@, now_ms),
            decreases self.entries@.len() - i,
        {
            let ghost pre = out@;
            if filter.matches(&self.entries[i], now_ms) {
                out.push(self.entries[i].service.clone());
                proof {
                    assert(spec_views_of(out@) =~= spec_views_of(pre).push(
                        self@[i as int].service,
                    ));
                }
            }
            proof {
                assert(self@.take(i + 1).drop_last() =~= self@.take(i as int));
                assert(self@.take(i + 1).last() == self@[i as int]);
            }
            i = i + 1;
        }
        proof {
            assert(self@.take(self@.len() as int) =~= self@);
        }
        out
    }

    /// The services passing `filter` by the system clock.
    pub fn find_services(&self, filter: &ServiceFilter) -> (r: Vec<ServiceInfo>)
        ensures
            exists|now: u64| spec_views_of(r@) == spec_find_services(self@, filter@, now),
    {
        let now = current_timestamp_millis();
        self.find_services_at(filter, now)
    }

    /// All locally registered services, in store order.
    pub fn get_local_services(&self) -> (r: Vec<ServiceInfo>)
        requires
            self.wf(),
        ensures
            spec_views_of(r@) == spec_local_services(self@),
    {
        let filter = ServiceFilter::new().local_only();
        let now = current_timestamp_millis();
        let r = self.find_services_at(&filter, now);
        proof {
            lemma_local_find_time_free(self@, filter@, now);
        }
        r
    }

    /// All discovered (non-local) services that are not yet expired by the
    /// system clock.
    pub fn get_discovered_services(&self) -> (r: Vec<ServiceInfo>)
        ensures
            exists|now: u64|
                spec_views_of(r@) == spec_find_services(
                    self@,
                    (ServiceFilterView {
                        service_types: Option::None,
                        protocols: Option::None,
                        name_contains: Option::None,
                        local_only: false,
                        discovered_only: true,
                        max_age: Option::None,
                    }),
                    now,
                ),
    {
        let filter = ServiceFilter::new().discovered_only();
        self.find_services(&filter)
    }

    /// The unexpired services rendered as the given type, by the system
    /// clock.
    pub fn get_services_by_type(&self, service_type: &ServiceType) -> (r: Vec<ServiceInfo>)
        ensures
            exists|now: u64|
                spec_views_of(r@) == spec_find_services(
                    self@,
                    (ServiceFilterView {
                        service_types: Option::Some(seq![service_type@]),
                        protocols: Option::None,
                        name_contains: Option::None,
                        local_only: false,
                        discovered_only: false,
                        max_age: Option::None,
                    }),
                    now,
                ),
    {
        let mut types: Vec<ServiceType> = Vec::new();
        types.push(service_type.clone());
        let filter = ServiceFilter::new().with_service_types(types);
        proof {
            assert(filter@.service_types.unwrap() =~= seq![service_type@]);
        }
        self.find_services(&filter)
    }

    /// The unexpired services recorded by the given protocol, by the
    /// system clock.
    pub fn get_services_by_protocol(&self, protocol: ProtocolType) -> (r: Vec<ServiceInfo>)
        ensures
            exists|now: u64|
                spec_views_of(r@) == spec_find_services(
                    self@,
                    (ServiceFilterView {
                        service_types: Option::None,
                        protocols: Option::Some(seq![protocol]),
                        name_contains: Option::None,
                        local_only: false,
                        discovered_only: false,
                        max_age: Option::None,
                    }),
                    now,
                ),
    {
        let mut protocols: Vec<ProtocolType> = Vec::new();
        protocols.push(protocol);
        let filter = ServiceFilter::new().with_protocols(protocols);
        proof {
            assert(filter@.protocols.unwrap() =~= seq![protocol]);
        }
        self.find_services(&filter)
    }

    /// Whether the key is present and its entry is local.
    pub fn is_local_service(&self, service_id: &str) -> (r: bool)
        requires
            self.wf(),
        ensures
            r == exists|i: int|
                0 <= i < self@.len() && spec_service_key(#[trigger] self@[i].service)
                    == service_id@ && self@[i].is_local,
    {
        match self.find_key_index(service_id) {
            Option::Some(i) => {
                let local = self.entries[i].is_local;
                proof {
                    if local {
                        assert(spec_service_key(self@[i as int].service) == service_id@
                            && self@[i as int].is_local);
                    } else {
                        assert forall|j: int|
                            0 <= j < self@.len() && spec_service_key(
                                #[trigger] self@[j].service,
                            ) == service_id@ implies !self@[j].is_local by {
                            if j < i as int {
                                assert(spec_service_key(self@[j].service) != spec_service_key(
                                    self@[i as int].service,
                                ));
                            } else if j > i as int {
                                assert(spec_service_key(self@[i as int].service)
                                    != spec_service_key(self@[j].service));
                            }
                        }
                    }
                }
                local
            },
            Option::None => false,
        }
    }

    /// Whether any entry carries the key.
    pub fn contains_service(&self, service_id: &str) -> (r: bool)
        ensures
            r == spec_has_key(self@, service_id@),
    {
        match self.find_key_index(service_id) {
            Option::Some(i) => {
                proof {
                    assert(spec_service_key(self@[i as int].service) == service_id@);
                }
                true
            },
            Option::None => false,
        }
    }

    /// Drop every entry expired at `now_ms`; local entries carry no window
    /// and are never dropped.  Returns how many entries were removed.
    pub fn cleanup_expired_at(&mut self, now_ms: u64) -> (r: usize)
        requires
            old(self).wf(),
        ensures
            final(self).wf(),
            final(self).spec_max_services() == old(self).spec_max_services(),
            final(self).spec_default_ttl() == old(self).spec_default_ttl(),
            final(self)@ == spec_keep_unexpired(old(self)@, now_ms),
            r == old(self)@.len() - final(self)@.len(),
    {
        let mut kept: Vec<ServiceEntry> = Vec::new();
        let mut i: usize = 0;
        while i < self.entries.len()
            invariant
                0 <= i <= self.entries@.len(),
                self@.len() == self.entries@.len(),
                kept@.len() <= i,
                Seq::new(kept@.len(), |k: int| kept@[k]@) == spec_keep_unexpired(
                    self@.take(i as int),
                    now_ms,
                ),
            decreases self.entries@.len() - i,
        {
            let ghost pre = Seq::new(kept@.len(), |k: int| kept@[k]@);
            if !self.entries[i].is_expired(now_ms) {
                kept.push(self.entries[i].clone());
                proof {
                    assert(Seq::new(kept@.len(), |k: int| kept@[k]@) =~= pre.push(
                        self@[i as int],
                    ));
                }
            }
            proof {
                assert(self@.take(i + 1).drop_last() =~= self@.take(i as int));
                assert(self@.take(i + 1).last() == self@[i as int]);
            }
            i = i + 1;
        }
        proof {
            assert(self@.take(self@.len() as int) =~= self@);
        }
        let removed = self.entries.len() - kept.len();
        self.entries = kept;
        proof {
            assert(self@ =~= spec_keep_unexpired(old(self)@, now_ms));
            lemma_keep_unexpired_unique(old(self)@, now_ms);
        }
        removed
    }

    /// Drop every entry expired by the system clock.
    pub fn cleanup_expired(&mut self) -> (r: usize)
        requires
            old(self).wf(),
        ensures
            final(self).wf(),
            final(self).spec_max_services() == old(self).spec_max_services(),
            final(self).spec_default_ttl() == old(self).spec_default_ttl(),
            exists|now: u64|
                final(self)@ == spec_keep_unexpired(old(self)@, now) && r == old(self)@.len()
                    - final(self)@.len(),
    {
        let now = current_timestamp_millis();
        self.cleanup_expired_at(now)
    }

    /// Counts over the store at time `now_ms`.
    pub fn stats_at(&self, now_ms: u64) -> (r: RegistryStats)
        ensures
            r.total_services == self@.len(),
            r.local_services == spec_count_local(self@),
            r.discovered_services == self@.len() - spec_count_local(self@),
            r.expired_services == spec_count_expired(self@, now_ms),
    {
        let mut local_count: usize = 0;
        let mut discovered_count: usize = 0;
        let mut expired_count: usize = 0;
        let mut i: usize = 0;
        while i < self.entries.len()
            invariant
                0 <= i <= self.entries@.len(),
                self@.len() == self.entries@.len(),
                local_count == spec_count_local(self@.take(i as int)),
                expired_count == spec_count_expired(self@.take(i as int), now_ms),
                local_count + discovered_count == i,
                local_count <= i,
                expired_count <= i,
            decreases self.entries@.len() - i,
        {
            if self.entries[i].is_local {
                local_count = local_count + 1;
            } else {
                discovered_count = discovered_count + 1;
            }
            if self.entries[i].is_expired(now_ms) {
                expired_count = expired_count + 1;
            }
            proof {
                assert(self@.take(i + 1).drop_last() =~= self@.take(i as int));
                assert(self@.take(i + 1).last() == self@[i as int]);
            }
            i = i + 1;
        }
        proof {
            assert(self@.take(self@.len() as int) =~= self@);
        }
        RegistryStats {
            total_services: self.entries.len(),
            local_services: local_count,
            discovered_services: discovered_count,
            expired_services: expired_count,
        }
    }

    /// Counts over the store by the system clock.
    pub fn stats(&self) -> (r: RegistryStats)
        ensures
            r.total_services == self@.len(),
            r.local_services == spec_count_local(self@),
            r.discovered_services == self@.len() - spec_count_local(self@),
            exists|now: u64| r.expired_services == spec_count_expired(self@, now),
    {
        let now = current_timestamp_millis();
        self.stats_at(now)
    }
}

proof fn lemma_keep_unexpired_unique(es: Seq<ServiceEntryView>, now: u64)
    requires
        spec_keys_unique(es),
        spec_locals_no_ttl(es),
    ensures
        spec_keys_unique(spec_keep_unexpired(es, now)),
        spec_locals_no_ttl(spec_keep_unexpired(es, now)),
        spec_keep_unexpired(es, now).len() <= es.len(),
        forall|i: int|
            0 <= i < spec_keep_unexpired(es, now).len() ==> exists|j: int|
                0 <= j < es.len() && es[j] == #[trigger] spec_keep_unexpired(es, now)[i],
    decreases es.len(),
{
    if es.len() > 0 {
        let dl = es.drop_last();
        assert(spec_keys_unique(dl)) by {
            assert forall|a: int, b: int|
                0 <= a < b < dl.len() implies spec_service_key(#[trigger] dl[a].service)
                != spec_service_key(#[trigger] dl[b].service) by {
                assert(dl[a] == es[a]);
                assert(dl[b] == es[b]);
            }
        }
        assert(spec_locals_no_ttl(dl)) by {
            assert forall|a: int|
                0 <= a < dl.len() && (#[trigger] dl[a]).is_local implies dl[a].ttl
                is None by {
                assert(dl[a] == es[a]);
            }
        }
        lemma_keep_unexpired_unique(dl, now);
        let kept_dl = spec_keep_unexpired(dl, now);
        let kept = spec_keep_unexpired(es, now);
        if !spec_entry_expired(es.last(), now) {
            assert(kept == kept_dl.push(es.last()));
            assert forall|a: int, b: int|
                0 <= a < b < kept.len() implies spec_service_key(#[trigger] kept[a].service)
                != spec_service_key(#[trigger] kept[b].service) by {
                if b < kept_dl.len() {
                    assert(kept[a] == kept_dl[a]);
                    assert(kept[b] == kept_dl[b]);
                } else {
                    assert(kept[a] == kept_dl[a]);
                    assert(kept[b] == es.last());
                    let j = choose|j: int| 0 <= j < dl.len() && dl[j] == kept_dl[a];
                    assert(es[j] == dl[j]);
                    assert(spec_service_key(es[j].service) != spec_service_key(
                        es[es.len() - 1].service,
                    ));
                }
            }
            assert forall|i: int| 0 <= i < kept.len() implies exists|j: int|
                0 <= j < es.len() && es[j] == #[trigger] kept[i] by {
                if i < kept_dl.len() {
                    let j = choose|j: int| 0 <= j < dl.len() && dl[j] == kept_dl[i];
                    assert(es[j] == kept[i]);
                } else {
                    assert(es[es.len() - 1] == kept[i]);
                }
            }
        } else {
            assert(kept == kept_dl);
            assert forall|i: int| 0 <= i < kept.len() implies exists|j: int|
                0 <= j < es.len() && es[j] == #[trigger] kept[i] by {
                let j = choose|j: int| 0 <= j < dl.len() && dl[j] == kept_dl[i];
                assert(es[j] == kept[i]);
            }
        }
    }
}

} // verus!

verus! {

/// Each local entry's service appears among the local services.
pub proof fn lemma_local_services_contains(es: Seq<ServiceEntryView>, i: int)
    requires
        0 <= i < es.len(),
        es[i].is_local,
    ensures
        exists|k: int|
            0 <= k < spec_local_services(es).len() && #[trigger] spec_local_services(es)[k]
                == es[i].service,
    decreases es.len(),
{
    let locals = spec_local_services(es);
    if i == es.len() - 1 {
        assert(es.last() == es[i]);
        assert(locals == spec_local_services(es.drop_last()).push(es[i].service));
        assert(locals[locals.len() - 1] == es[i].service);
    } else {
        assert(es.drop_last()[i] == es[i]);
        lemma_local_services_contains(es.drop_last(), i);
        let k = choose|k: int|
            0 <= k < spec_local_services(es.drop_last()).len()
                && #[trigger] spec_local_services(es.drop_last())[k] == es[i].service;
        if es.last().is_local {
            assert(locals[k] == spec_local_services(es.drop_last())[k]);
        } else {
            assert(locals[k] == spec_local_services(es.drop_last())[k]);
        }
    }
}

/// Each local service comes from some local entry.
pub proof fn lemma_local_services_membership(es: Seq<ServiceEntryView>)
    ensures
        forall|k: int|
            0 <= k < spec_local_services(es).len() ==> exists|j: int|
                0 <= j < es.len() && es[j].is_local && es[j].service
                    == #[trigger] spec_local_services(es)[k],
    decreases es.len(),
{
    if es.len() > 0 {
        lemma_local_services_membership(es.drop_last());
        let locals = spec_local_services(es);
        let locals_dl = spec_local_services(es.drop_last());
        assert forall|k: int| 0 <= k < locals.len() implies exists|j: int|
            0 <= j < es.len() && es[j].is_local && es[j].service == #[trigger] locals[k] by {
            if k < locals_dl.len() {
                assert(locals[k] == locals_dl[k]);
                let j = choose|j: int|
                    0 <= j < es.drop_last().len() && es.drop_last()[j].is_local
                        && es.drop_last()[j].service == locals_dl[k];
                assert(es[j] == es.drop_last()[j]);
            } else {
                assert(es.last().is_local && locals[k] == es.last().service);
                assert(es[es.len() - 1].is_local && es[es.len() - 1].service == locals[k]);
            }
        }
    }
}

} // verus!

verus! {

proof fn lemma_find_services_membership(es: Seq<ServiceEntryView>, f: ServiceFilterView, now: u64)
    ensures
        forall|k: int|
            0 <= k < spec_find_services(es, f, now).len() ==> exists|j: int|
                0 <= j < es.len() && spec_filter_matches(f, #[trigger] es[j], now)
                    && es[j].service == #[trigger] spec_find_services(es, f, now)[k],
    decreases es.len(),
{
    if es.len() > 0 {
        lemma_find_services_membership(es.drop_last(), f, now);
        let whole = spec_find_services(es, f, now);
        let rest = spec_find_services(es.drop_last(), f, now);
        assert forall|k: int| 0 <= k < whole.len() implies exists|j: int|
            0 <= j < es.len() && spec_filter_matches(f, #[trigger] es[j], now) && es[j].service
                == #[trigger] whole[k] by {
            if k < rest.len() {
                assert(whole[k] == rest[k]);
                let j = choose|j: int|
                    0 <= j < es.drop_last().len() && spec_filter_matches(
                        f,
                        #[trigger] es.drop_last()[j],
                        now,
                    ) && es.drop_last()[j].service == rest[k];
                assert(es[j] == es.drop_last()[j]);
            } else {
                assert(spec_filter_matches(f, es.last(), now));
                assert(whole[k] == es.last().service);
                assert(es[es.len() - 1] == es.last());
            }
        }
    }
}

/// Law, liveness half: an entry that a filter accepts at time `now` — in
/// particular a discovered entry whose window has not yet passed — has
/// its service among the query results at `now`.
pub proof fn lemma_ttl_live(es: Seq<ServiceEntryView>, i: int, f: ServiceFilterView, now: u64)
    requires
        0 <= i < es.len(),
        spec_filter_matches(f, es[i], now),
    ensures
        exists|k: int|
            0 <= k < spec_find_services(es, f, now).len() && #[trigger] spec_find_services(
                es,
                f,
                now,
            )[k] == es[i].service,
    decreases es.len(),
{
    let whole = spec_find_services(es, f, now);
    if i == es.len() - 1 {
        assert(es.last() == es[i]);
        assert(whole[whole.len() - 1] == es[i].service);
    } else {
        assert(es.drop_last()[i] == es[i]);
        lemma_ttl_live(es.drop_last(), i, f, now);
        let rest = spec_find_services(es.drop_last(), f, now);
        let k = choose|k: int| 0 <= k < rest.len() && #[trigger] rest[k] == es[i].service;
        assert(whole[k] == es[i].service);
    }
}

/// Law, expiry half: once a discovered entry's window has passed, no
/// query returns its service — under unique keys, no other entry can
/// stand in for it.
pub proof fn lemma_ttl_expired(es: Seq<ServiceEntryView>, i: int, f: ServiceFilterView, now: u64)
    requires
        spec_keys_unique(es),
        0 <= i < es.len(),
        spec_entry_expired(es[i], now),
    ensures
        forall|k: int|
            0 <= k < spec_find_services(es, f, now).len() ==> #[trigger] spec_find_services(
                es,
                f,
                now,
            )[k] != es[i].service,
{
    lemma_find_services_membership(es, f, now);
    let whole = spec_find_services(es, f, now);
    assert forall|k: int| 0 <= k < whole.len() implies #[trigger] whole[k]
        != es[i].service by {
        let j = choose|j: int|
            0 <= j < es.len() && spec_filter_matches(f, #[trigger] es[j], now)
                && es[j].service == whole[k];
        if j == i {
            assert(!spec_entry_expired(es[i], now));
            assert(false);
        } else {
            if whole[k] == es[i].service {
                assert(es[j].service == es[i].service);
                assert(spec_service_key(es[j].service) == spec_service_key(es[i].service));
                if j < i {
                    assert(spec_service_key(es[j].service) != spec_service_key(
                        es[i].service,
                    ));
                } else {
                    assert(spec_service_key(es[i].service) != spec_service_key(
                        es[j].service,
                    ));
                }
                assert(false);
            }
        }
    }
}

} // verus!

verus! {

impl ServiceRegistry {
    /// Register a local service, timestamped by the system clock; see
    /// [`spec_local_register_outcome`].
    pub fn register_local_service(&mut self, service: ServiceInfo, protocol: ProtocolType) -> (r:
        Result<(), DiscoveryError>)
        requires
            old(self).wf(),
        ensures
            final(self).wf(),
            final(self).spec_max_services() == old(self).spec_max_services(),
            final(self).spec_default_ttl() == old(self).spec_default_ttl(),
            exists|now: u64|
                spec_local_register_outcome(
                    old(self)@,
                    final(self)@,
                    old(self).spec_max_services(),
                    service@,
                    protocol,
                    now,
                    r,
                ),
    {
        let now = current_timestamp_millis();
        self.register_local_service_at(service, protocol, now)
    }

    /// Record a discovered service, timestamped by the system clock; see
    /// [`spec_discovered_add_outcome`].
    pub fn add_discovered_service(
        &mut self,
        service: ServiceInfo,
        protocol: ProtocolType,
        ttl_ms: Option<u64>,
    ) -> (r: Result<(), DiscoveryError>)
        requires
            old(self).wf(),
        ensures
            final(self).wf(),
            final(self).spec_max_services() == old(self).spec_max_services(),
            final(self).spec_default_ttl() == old(self).spec_default_ttl(),
            exists|now: u64|
                spec_discovered_add_outcome(
                    old(self)@,
                    final(self)@,
                    old(self).spec_max_services(),
                    old(self).spec_default_ttl(),
                    service@,
                    protocol,
                    ttl_ms,
                    now,
                    r,
                ),
    {
        let now = current_timestamp_millis();
        self.add_discovered_service_at(service, protocol, ttl_ms, now)
    }
}

} // verus!

verus! {

impl Default for ServiceRegistry {
    /// The default registry equals [`ServiceRegistry::new`].
    fn default() -> (r: Self)
        ensures
            r@.len() == 0,
            r.spec_default_ttl() == 300000,
            r.spec_max_services() == 1000,
            r.wf(),
    {
        ServiceRegistry::new()
    }
}

/// A successful local registration leaves a local entry holding exactly
/// the registered service.
pub proof fn lemma_register_adds_local_entry(
    pre: Seq<ServiceEntryView>,
    post: Seq<ServiceEntryView>,
    max_services: usize,
    s: ServiceInfoView,
    protocol: ProtocolType,
    now: u64,
)
    requires
        spec_local_register_outcome(pre, post, max_services, s, protocol, now, Result::Ok(())),
    ensures
        exists|i: int|
            0 <= i < post.len() && (#[trigger] post[i]).is_local && post[i].service == s,
{
    let k = spec_service_key(s);
    let e = ServiceEntryView {
        service: s,
        timestamp: now,
        is_local: true,
        ttl: Option::None,
        protocol,
    };
    if spec_has_key(pre, k) {
        let i = choose|i: int|
            0 <= i < pre.len() && spec_service_key(#[trigger] pre[i].service) == k && post
                == pre.update(i, e);
        assert(post[i] == e);
    } else if pre.len() < max_services {
        assert(post[post.len() - 1] == e);
    } else {
        let j = choose|j: int|
            #[trigger] spec_oldest_expired_at(pre, j, now) && post == pre.remove(j).push(e);
        assert(post[post.len() - 1] == e);
    }
}

} // verus!
