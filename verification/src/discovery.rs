//! Facade-level computation: the post-processing a discovery pass applies
//! to the merged engine results, and the name-keyed cache the facade keeps
//! for observability.
//!
//! The async orchestration around these functions lives outside the
//! verified core.

use vstd::prelude::*;

use crate::service::{ServiceInfo, ServiceInfoView};
use crate::strutil::str_eq;
use crate::types::{DiscoveryFilter, DiscoveryFilterView, spec_discovery_filter_matches};

verus! {

/// The services that pass the optional filter, in order.
pub open spec fn spec_keep_matching(
    svcs: Seq<ServiceInfoView>,
    filter: Option<DiscoveryFilterView>,
) -> Seq<ServiceInfoView>
    decreases svcs.len(),
{
    if svcs.len() == 0 {
        Seq::empty()
    } else {
        let rest = spec_keep_matching(svcs.drop_last(), filter);
        let keep = match filter {
            Option::Some(f) => spec_discovery_filter_matches(f, svcs.last()),
            Option::None => true,
        };
        if keep {
            rest.push(svcs.last())
        } else {
            rest
        }
    }
}

/// What a discovery pass returns: the merged results filtered, then cut
/// to `max_services` entries when that cap is positive.
pub open spec fn spec_select_services(
    svcs: Seq<ServiceInfoView>,
    filter: Option<DiscoveryFilterView>,
    max_services: usize,
) -> Seq<ServiceInfoView> {
    let kept = spec_keep_matching(svcs, filter);
    if max_services > 0 && kept.len() > max_services {
        kept.take(max_services as int)
    } else {
        kept
    }
}

/// Apply the configured post-filter and the service cap to merged
/// discovery results.
pub fn select_services(
    services: Vec<ServiceInfo>,
    filter: Option<&DiscoveryFilter>,
    max_services: usize,
) -> (r: Vec<ServiceInfo>)
    ensures
        Seq::new(r@.len(), |i: int| r@[i]@) == spec_select_services(
            Seq::new(services@.len(), |i: int| services@[i]@),
            match filter {
                Option::Some(f) => Option::Some(f@),
                Option::None => Option::None,
            },
            max_services,
        ),
{
    let ghost sv = Seq::new(services@.len(), |i: int| services@[i]@);
    let ghost fv = match filter {
        Option::Some(f) => Option::Some(f@),
        Option::None => Option::None,
    };
    let mut kept: Vec<ServiceInfo> = Vec::new();
    let mut i: usize = 0;
    while i < services.len()
        invariant
            0 <= i <= services@.len(),
            sv == Seq::new(services@.len(), |k: int| services@[k]@),
            fv == (match filter {
                Option::Some(f) => Option::Some(f@),
                Option::None => Option::None,
            }),
            Seq::new(kept@.len(), |k: int| kept@[k]@) == spec_keep_matching(
                sv.take(i as int),
                fv,
            ),
        decreases services@.len() - i,
    {
        let ghost pre = Seq::new(kept@.len(), |k: int| kept@[k]@);
        let keep = match filter {
            Option::Some(f) => f.matches(&services[i]),
            Option::None => true,
        };
        if keep {
            kept.push(services[i].clone());
            proof {
                assert(Seq::new(kept@.len(), |k: int| kept@[k]@) =~= pre.push(sv[i as int]));
            }
        }
        proof {
            assert(sv.take(i + 1).drop_last() =~= sv.take(i as int));
            assert(sv.take(i + 1).last() == sv[i as int]);
        }
        i = i + 1;
    }
    proof {
        assert(sv.take(sv.len() as int) =~= sv);
    }
    if max_services > 0 && kept.len() > max_services {
        kept.truncate(max_services);
        proof {
            assert(Seq::new(kept@.len(), |k: int| kept@[k]@) =~= spec_keep_matching(
                sv,
                fv,
            ).take(max_services as int));
        }
    }
    kept
}

// ---------------------------------------------------------------------------
// Name-keyed cache
// ---------------------------------------------------------------------------

/// Insert-or-replace by service name on the cache list.
pub open spec fn spec_cache_insert(
    entries: Seq<ServiceInfoView>,
    s: ServiceInfoView,
) -> Seq<ServiceInfoView>
    decreases entries.len(),
{
    if entries.len() == 0 {
        seq![s]
    } else if entries[0].name == s.name {
        seq![s] + entries.drop_first()
    } else {
        seq![entries[0]] + spec_cache_insert(entries.drop_first(), s)
    }
}

/// The cache contents after inserting every service, left to right.
pub open spec fn spec_cache_insert_all(
    entries: Seq<ServiceInfoView>,
    svcs: Seq<ServiceInfoView>,
) -> Seq<ServiceInfoView>
    decreases svcs.len(),
{
    if svcs.len() == 0 {
        entries
    } else {
        spec_cache_insert_all(spec_cache_insert(entries, svcs[0]), svcs.drop_first())
    }
}

/// Whether the cache holds a service under this name.
pub open spec fn spec_cache_has_name(entries: Seq<ServiceInfoView>, name: Seq<char>) -> bool {
    exists|i: int| 0 <= i < entries.len() && (#[trigger] entries[i]).name == name
}

/// The facade's name-keyed service cache: one slot per service name, the
/// latest arrival winning.
#[derive(Debug)]
pub struct ServiceCache {
    entries: Vec<ServiceInfo>,
}

impl View for ServiceCache {
    type V = Seq<ServiceInfoView>;

    closed spec fn view(&self) -> Seq<ServiceInfoView> {
        Seq::new(self.entries@.len(), |i: int| self.entries@[i]@)
    }
}

impl ServiceCache {
    /// An empty cache.
    pub fn new() -> (r: Self)
        ensures
            r@.len() == 0,
    {
        ServiceCache { entries: Vec::new() }
    }

    /// Number of cached services.
    pub fn len(&self) -> (r: usize)
        ensures
            r == self@.len(),
    {
        self.entries.len()
    }

    /// Insert one service, replacing a cached one of the same name in
    /// place.
    pub fn insert(&mut self, service: &ServiceInfo)
        ensures
            final(self)@ == spec_cache_insert(old(self)@, service@),
    {
        let mut i: usize = 0;
        while i < self.entries.len()
            invariant
                0 <= i <= self.entries@.len(),
                self@ == old(self)@,
                forall|j: int| 0 <= j < i ==> (#[trigger] self@[j]).name != service@.name,
            decreases self.entries@.len() - i,
        {
            if str_eq(self.entries[i].name.as_str(), service.name.as_str()) {
                self.entries.set(i, service.clone());
                proof {
                    assert(self@ =~= old(self)@.update(i as int, service@));
                    lemma_cache_insert_at(old(self)@, service@, i as int);
                }
                return;
            }
            i = i + 1;
        }
        self.entries.push(service.clone());
        proof {
            assert(self@ =~= old(self)@.push(service@));
            lemma_cache_insert_missing(old(self)@, service@);
        }
    }

    /// Insert every service of a result list, in order.
    pub fn insert_all(&mut self, services: &Vec<ServiceInfo>)
        ensures
            final(self)@ == spec_cache_insert_all(
                old(self)@,
                Seq::new(services@.len(), |i: int| services@[i]@),
            ),
    {
        let ghost sv = Seq::new(services@.len(), |i: int| services@[i]@);
        proof {
            assert(sv.skip(0) =~= sv);
        }
        let mut i: usize = 0;
        while i < services.len()
            invariant
                0 <= i <= services@.len(),
                sv == Seq::new(services@.len(), |k: int| services@[k]@),
                spec_cache_insert_all(self@, sv.skip(i as int)) == spec_cache_insert_all(
                    old(self)@,
                    sv,
                ),
            decreases services@.len() - i,
        {
            proof {
                assert(sv.skip(i as int)[0] == sv[i as int]);
                assert(sv.skip(i as int).drop_first() =~= sv.skip(i + 1));
            }
            self.insert(&services[i]);
            i = i + 1;
        }
        proof {
            assert(sv.skip(sv.len() as int).len() == 0);
        }
    }

    /// Remove the slot cached under `name`, if any.
    pub fn remove_name(&mut self, name: &str)
        ensures
            final(self)@ == spec_cache_remove_name(old(self)@, name@),
            !spec_cache_has_name(final(self)@, name@),
    {
        let mut kept: Vec<ServiceInfo> = Vec::new();
        let mut i: usize = 0;
        while i < self.entries.len()
            invariant
                0 <= i <= self.entries@.len(),
                self@ == old(self)@,
                Seq::new(kept@.len(), |k: int| kept@[k]@) == spec_cache_remove_name(
                    self@.take(i as int),
                    name@,
                ),
            decreases self.entries@.len() - i,
        {
            let ghost pre = Seq::new(kept@.len(), |k: int| kept@[k]@);
            if !str_eq(self.entries[i].name.as_str(), name) {
                kept.push(self.entries[i].clone());
                proof {
                    assert(Seq::new(kept@.len(), |k: int| kept@[k]@) =~= pre.push(
                        self@[i as int],
                    ));
                }
            }
            proof {
                assert(self@.take(i + 1).drop_last() =~= self@.take(i as int));
                assert(self@.take(i + 1).last() == self@[i as int]);
            }
            i = i + 1;
        }
        proof {
            assert(self@.take(self@.len() as int) =~= self@);
        }
        self.entries = kept;
        proof {
            assert(self@ =~= spec_cache_remove_name(old(self)@, name@));
            lemma_cache_remove_name_gone(old(self)@, name@);
        }
    }

    /// The cached services, in cache order.
    pub fn services(&self) -> (r: Vec<ServiceInfo>)
        ensures
            Seq::new(r@.len(), |i: int| r@[i]@) == self@,
    {
        let mut out: Vec<ServiceInfo> = Vec::new();
        let mut i: usize = 0;
        while i < self.entries.len()
            invariant
                0 <= i <= self.entries@.len(),
                out@.len() == i,
                forall|j: int| 0 <= j < i ==> (#[trigger] out@[j]@) == self@[j],
            decreases self.entries@.len() - i,
        {
            out.push(self.entries[i].clone());
            i = i + 1;
        }
        proof {
            assert(Seq::new(out@.len(), |k: int| out@[k]@) =~= self@);
        }
        out
    }

    /// Whether a service is cached under this name.
    pub fn contains_name(&self, name: &str) -> (r: bool)
        ensures
            r == spec_cache_has_name(self@, name@),
    {
        let mut i: usize = 0;
        while i < self.entries.len()
            invariant
                0 <= i <= self.entries@.len(),
                forall|j: int| 0 <= j < i ==> (#[trigger] self@[j]).name != name@,
            decreases self.entries@.len() - i,
        {
            if str_eq(self.entries[i].name.as_str(), name) {
                proof {
                    assert(self@[i as int].name == name@);
                }
                return true;
            }
            i = i + 1;
        }
        false
    }
}

/// The cache without any slot named `name`, order preserved.
pub open spec fn spec_cache_remove_name(
    entries: Seq<ServiceInfoView>,
    name: Seq<char>,
) -> Seq<ServiceInfoView>
    decreases entries.len(),
{
    if entries.len() == 0 {
        Seq::empty()
    } else {
        let rest = spec_cache_remove_name(entries.drop_last(), name);
        if entries.last().name == name {
            rest
        } else {
            rest.push(entries.last())
        }
    }
}

proof fn lemma_cache_remove_name_gone(entries: Seq<ServiceInfoView>, name: Seq<char>)
    ensures
        !spec_cache_has_name(spec_cache_remove_name(entries, name), name),
    decreases entries.len(),
{
    if entries.len() > 0 {
        lemma_cache_remove_name_gone(entries.drop_last(), name);
        let rest = spec_cache_remove_name(entries.drop_last(), name);
        let whole = spec_cache_remove_name(entries, name);
        if entries.last().name == name {
        } else {
            assert forall|i: int|
                0 <= i < whole.len() implies (#[trigger] whole[i]).name != name by {
                if i < rest.len() {
                    assert(whole[i] == rest[i]);
                } else {
                    assert(whole[i] == entries.last());
                }
            }
        }
    }
}

proof fn lemma_cache_insert_at(entries: Seq<ServiceInfoView>, s: ServiceInfoView, i: int)
    requires
        0 <= i < entries.len(),
        entries[i].name == s.name,
        forall|j: int| 0 <= j < i ==> (#[trigger] entries[j]).name != s.name,
    ensures
        spec_cache_insert(entries, s) =~= entries.update(i, s),
    decreases i,
{
    if i == 0 {
        assert(seq![s] + entries.drop_first() =~= entries.update(0, s));
    } else {
        assert(entries[0].name != s.name);
        assert forall|j: int|
            0 <= j < i - 1 implies (#[trigger] entries.drop_first()[j]).name != s.name by {
            assert(entries.drop_first()[j] == entries[j + 1]);
        }
        assert(entries.drop_first()[i - 1] == entries[i]);
        lemma_cache_insert_at(entries.drop_first(), s, i - 1);
        assert(seq![entries[0]] + entries.drop_first().update(i - 1, s) =~= entries.update(
            i,
            s,
        ));
    }
}

proof fn lemma_cache_insert_missing(entries: Seq<ServiceInfoView>, s: ServiceInfoView)
    requires
        forall|j: int| 0 <= j < entries.len() ==> (#[trigger] entries[j]).name != s.name,
    ensures
        spec_cache_insert(entries, s) =~= entries.push(s),
    decreases entries.len(),
{
    if entries.len() == 0 {
        assert(seq![s] =~= entries.push(s));
    } else {
        assert forall|j: int|
            0 <= j < entries.drop_first().len() implies (#[trigger] entries.drop_first()[j]).name
            != s.name by {
            assert(entries.drop_first()[j] == entries[j + 1]);
        }
        lemma_cache_insert_missing(entries.drop_first(), s);
        assert(seq![entries[0]] + entries.drop_first().push(s) =~= entries.push(s));
    }
}

} // verus!
