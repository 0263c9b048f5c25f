//! mDNS engine: the name and type normalisation the multicast-DNS daemon
//! needs, conversion of resolved answers into service descriptions, and
//! the merge of locally registered services into browse results.
//!
//! The daemon itself performs the RFC 6762 wire work outside the verified
//! core; it receives and returns plain values through these functions.

use vstd::prelude::*;

use crate::error::DiscoveryError;
use crate::service::{ServiceInfo, ServiceInfoView};
use crate::strutil::{has_suffix, ends_with, str_eq};
use crate::types::{
    IpAddress, ProtocolType, ServiceType, ServiceTypeView, spec_display_service_type,
    spec_parse_service_type,
};
use crate::registry::{ServiceEntryView, spec_local_services};

verus! {

// ---------------------------------------------------------------------------
// Wire names
// ---------------------------------------------------------------------------

/// The service type as the daemon wants it: ending in `.local.`, appended
/// when absent.
pub open spec fn spec_mdns_wire_type(v: ServiceTypeView) -> Seq<char> {
    let d = spec_display_service_type(v);
    if has_suffix(d, ".local."@) {
        d
    } else {
        d + ".local."@
    }
}

/// Exec twin of [`spec_mdns_wire_type`].
pub fn mdns_wire_type(service_type: &ServiceType) -> (r: String)
    ensures
        r@ == spec_mdns_wire_type(service_type@),
{
    let rendered = service_type.display_string();
    if ends_with(rendered.as_str(), ".local.") {
        rendered
    } else {
        let mut out = rendered;
        out.append(".local.");
        out
    }
}

/// The host name a registration advertises: `<name>.local.`.
pub fn mdns_hostname(name: &str) -> (r: String)
    ensures
        r@ == name@ + ".local."@,
{
    let mut out = name.to_owned();
    out.append(".local.");
    out
}

/// The full instance name a registration is known by, used to withdraw
/// it: `<name>.<wire type>`.
pub fn mdns_full_service_name(service: &ServiceInfo) -> (r: String)
    ensures
        r@ == service@.name + "."@ + spec_mdns_wire_type(service@.service_type),
{
    let mut out = service.name.clone();
    out.append(".");
    let wire = mdns_wire_type(&service.service_type);
    out.append(wire.as_str());
    proof {
        assert(out@ =~= service@.name + "."@ + spec_mdns_wire_type(service@.service_type));
    }
    out
}

/// The delay before retrying daemon creation: 100 ms times the attempt
/// number.
pub fn mdns_backoff_delay_ms(attempt: u64) -> (r: u64)
    requires
        attempt <= 16,
    ensures
        r == 100 * attempt,
{
    100 * attempt
}

// ---------------------------------------------------------------------------
// Conversion of resolved answers
// ---------------------------------------------------------------------------

/// Build a service description from the plain values of one resolved
/// browse answer: its host name, its advertised type, its address set and
/// its port.  Fails when the type does not parse or the answer carries no
/// address; the first address is used, attributes stay empty, and the
/// service is tagged as seen by mDNS.
pub fn convert_resolved(
    hostname: &str,
    type_str: &str,
    addresses: &Vec<IpAddress>,
    port: u16,
) -> (r: Result<ServiceInfo, DiscoveryError>)
    ensures
        match r {
            Result::Ok(s) => {
                &&& spec_parse_service_type(type_str@) == Option::Some(s.service_type@)
                &&& addresses@.len() > 0
                &&& s.address == addresses@[0]
                &&& s.port == port
                &&& s.name@ == hostname@
                &&& s.protocol_type == ProtocolType::Mdns
                &&& s.attributes@.len() == 0
            },
            Result::Err(e) => (spec_parse_service_type(type_str@) is None && e is InvalidData)
                || (e is Mdns && addresses@.len() == 0),
        },
{
    let service_type = match ServiceType::new(type_str) {
        Result::Ok(t) => t,
        Result::Err(e) => {
            return Result::Err(e);
        },
    };
    if addresses.len() == 0 {
        return Result::Err(DiscoveryError::mdns("Service has no addresses".to_owned()));
    }
    let made = ServiceInfo::new(hostname, type_str, port, Option::None);
    match made {
        Result::Ok(s) => {
            let s = s.with_protocol_type(ProtocolType::Mdns).with_address(addresses[0]);
            Result::Ok(s)
        },
        Result::Err(_) => {
            // The type string parsed a moment ago, so it cannot fail here.
            proof {
                assert(false);
            }
            Result::Err(DiscoveryError::mdns("Service has no addresses".to_owned()))
        },
    }
}

// ---------------------------------------------------------------------------
// Merging local registrations into browse results
// ---------------------------------------------------------------------------

/// Two rendered types match modulo the `.local.` suffix: equal outright,
/// or equal after appending the suffix to either side.
pub open spec fn spec_type_matches_modulo_local(a: Seq<char>, b: Seq<char>) -> bool {
    a == b || a + ".local."@ == b || a == b + ".local."@
}

/// Whether the service's rendered type matches any requested type modulo
/// `.local.`.
pub open spec fn spec_type_matches_any(s: ServiceInfoView, req: Seq<ServiceTypeView>) -> bool {
    exists|i: int|
        0 <= i < req.len() && spec_type_matches_modulo_local(
            spec_display_service_type(#[trigger] req[i]),
            spec_display_service_type(s.service_type),
        )
}

/// Whether some service in the list carries the identifier.
pub open spec fn spec_list_has_id(svcs: Seq<ServiceInfoView>, id: Seq<char>) -> bool {
    exists|i: int| 0 <= i < svcs.len() && (#[trigger] svcs[i]).id == id
}

/// Browse results extended by the locally registered services that match a
/// requested type, deduplicated by identifier, processed in order.
pub open spec fn spec_merge(
    acc: Seq<ServiceInfoView>,
    local: Seq<ServiceInfoView>,
    req: Seq<ServiceTypeView>,
) -> Seq<ServiceInfoView>
    decreases local.len(),
{
    if local.len() == 0 {
        acc
    } else {
        let first = local[0];
        let acc2 = if spec_type_matches_any(first, req) && !spec_list_has_id(acc, first.id) {
            acc.push(first)
        } else {
            acc
        };
        spec_merge(acc2, local.drop_first(), req)
    }
}

/// Exec twin of [`spec_type_matches_modulo_local`] on rendered strings.
fn type_matches_modulo_local(a: &str, b: &str) -> (r: bool)
    ensures
        r == spec_type_matches_modulo_local(a@, b@),
{
    if str_eq(a, b) {
        return true;
    }
    let mut a_local = a.to_owned();
    a_local.append(".local.");
    if str_eq(a_local.as_str(), b) {
        return true;
    }
    let mut b_local = b.to_owned();
    b_local.append(".local.");
    str_eq(a, b_local.as_str())
}

/// Whether the service's type matches any requested type modulo `.local.`.
fn matches_any_requested(service: &ServiceInfo, requested: &Vec<ServiceType>) -> (r: bool)
    ensures
        r == spec_type_matches_any(
            service@,
            Seq::new(requested@.len(), |i: int| requested@[i]@),
        ),
{
    let ghost reqv = Seq::new(requested@.len(), |i: int| requested@[i]@);
    let rendered = service.service_type.display_string();
    let mut i: usize = 0;
    while i < requested.len()
        invariant
            0 <= i <= requested@.len(),
            reqv == Seq::new(requested@.len(), |k: int| requested@[k]@),
            rendered@ == spec_display_service_type(service@.service_type),
            forall|j: int|
                0 <= j < i ==> !spec_type_matches_modulo_local(
                    spec_display_service_type(#[trigger] reqv[j]),
                    spec_display_service_type(service@.service_type),
                ),
        decreases requested@.len() - i,
    {
        let req_rendered = requested[i].display_string();
        if type_matches_modulo_local(req_rendered.as_str(), rendered.as_str()) {
            proof {
                assert(reqv[i as int] == requested@[i as int]@);
            }
            return true;
        }
        proof {
            assert(reqv[i as int] == requested@[i as int]@);
        }
        i = i + 1;
    }
    false
}

/// Whether some service in the list has this identifier.
fn list_has_id(svcs: &Vec<ServiceInfo>, id: &str) -> (r: bool)
    ensures
        r == spec_list_has_id(Seq::new(svcs@.len(), |i: int| svcs@[i]@), id@),
{
    let ghost views = Seq::new(svcs@.len(), |i: int| svcs@[i]@);
    let mut i: usize = 0;
    while i < svcs.len()
        invariant
            0 <= i <= svcs@.len(),
            views == Seq::new(svcs@.len(), |k: int| svcs@[k]@),
            forall|j: int| 0 <= j < i ==> (#[trigger] views[j]).id != id@,
        decreases svcs@.len() - i,
    {
        if str_eq(svcs[i].id.as_str(), id) {
            proof {
                assert(views[i as int].id == id@);
            }
            return true;
        }
        i = i + 1;
    }
    false
}

/// Merge the locally registered services into the browse results: a local
/// service joins the list when its type matches a requested type modulo
/// `.local.` and no listed service already carries its identifier.
pub fn merge_local_services(
    discovered: Vec<ServiceInfo>,
    local: &Vec<ServiceInfo>,
    requested: &Vec<ServiceType>,
) -> (r: Vec<ServiceInfo>)
    ensures
        Seq::new(r@.len(), |i: int| r@[i]@) == spec_merge(
            Seq::new(discovered@.len(), |i: int| discovered@[i]@),
            Seq::new(local@.len(), |i: int| local@[i]@),
            Seq::new(requested@.len(), |i: int| requested@[i]@),
        ),
{
    let ghost dv = Seq::new(discovered@.len(), |i: int| discovered@[i]@);
    let ghost lv = Seq::new(local@.len(), |i: int| local@[i]@);
    let ghost reqv = Seq::new(requested@.len(), |i: int| requested@[i]@);
    let mut out = discovered;
    let mut i: usize = 0;
    proof {
        assert(Seq::new(out@.len(), |k: int| out@[k]@) =~= dv);
        assert(lv.skip(0) =~= lv);
    }
    while i < local.len()
        invariant
            0 <= i <= local@.len(),
            lv == Seq::new(local@.len(), |k: int| local@[k]@),
            reqv == Seq::new(requested@.len(), |k: int| requested@[k]@),
            spec_merge(Seq::new(out@.len(), |k: int| out@[k]@), lv.skip(i as int), reqv)
                == spec_merge(dv, lv, reqv),
        decreases local@.len() - i,
    {
        let ghost acc = Seq::new(out@.len(), |k: int| out@[k]@);
        proof {
            assert(lv.skip(i as int)[0] == lv[i as int]);
            assert(lv[i as int] == local@[i as int]@);
            assert(lv.skip(i as int).drop_first() =~= lv.skip(i + 1));
        }
        if matches_any_requested(&local[i], requested) && !list_has_id(
            &out,
            local[i].id.as_str(),
        ) {
            out.push(local[i].clone());
            proof {
                assert(Seq::new(out@.len(), |k: int| out@[k]@) =~= acc.push(lv[i as int]));
            }
        }
        i = i + 1;
    }
    proof {
        assert(lv.skip(lv.len() as int) =~= Seq::<ServiceInfoView>::empty());
        assert(lv.skip(local@.len() as int).len() == 0);
    }
    out
}

/// Whether the registry's local services include one with this name: the
/// loose liveness check the engine offers.
pub fn mdns_verify_service(local_services: &Vec<ServiceInfo>, service: &ServiceInfo) -> (r: bool)
    ensures
        r == exists|i: int|
            0 <= i < local_services@.len() && (#[trigger] local_services@[i]@).name
                == service@.name,
{
    let mut i: usize = 0;
    while i < local_services.len()
        invariant
            0 <= i <= local_services@.len(),
            forall|j: int|
                0 <= j < i ==> (#[trigger] local_services@[j]@).name != service@.name,
        decreases local_services@.len() - i,
    {
        if str_eq(local_services[i].name.as_str(), service.name.as_str()) {
            proof {
                assert((local_services@[i as int]@).name == service@.name);
            }
            return true;
        }
        i = i + 1;
    }
    false
}

} // verus!

verus! {

/// Merging never loses what the accumulator already holds.
proof fn lemma_merge_keeps_acc(
    acc: Seq<ServiceInfoView>,
    local: Seq<ServiceInfoView>,
    req: Seq<ServiceTypeView>,
    s: ServiceInfoView,
)
    requires
        exists|k: int| 0 <= k < acc.len() && #[trigger] acc[k] == s,
    ensures
        exists|k: int|
            0 <= k < spec_merge(acc, local, req).len() && #[trigger] spec_merge(
                acc,
                local,
                req,
            )[k] == s,
    decreases local.len(),
{
    if local.len() == 0 {
        let k = choose|k: int| 0 <= k < acc.len() && #[trigger] acc[k] == s;
        assert(spec_merge(acc, local, req)[k] == s);
    } else {
        let first = local[0];
        let acc2 = if spec_type_matches_any(first, req) && !spec_list_has_id(acc, first.id) {
            acc.push(first)
        } else {
            acc
        };
        let k = choose|k: int| 0 <= k < acc.len() && #[trigger] acc[k] == s;
        assert(acc2[k] == s);
        lemma_merge_keeps_acc(acc2, local.drop_first(), req, s);
        let m = choose|m: int|
            0 <= m < spec_merge(acc2, local.drop_first(), req).len()
                && #[trigger] spec_merge(acc2, local.drop_first(), req)[m] == s;
        assert(spec_merge(acc, local, req) == spec_merge(acc2, local.drop_first(), req));
        assert(spec_merge(acc, local, req)[m] == s);
    }
}

proof fn lemma_merge_includes(
    acc: Seq<ServiceInfoView>,
    local: Seq<ServiceInfoView>,
    req: Seq<ServiceTypeView>,
    s: ServiceInfoView,
)
    requires
        exists|i: int| 0 <= i < local.len() && #[trigger] local[i] == s,
        spec_type_matches_any(s, req),
        forall|j: int| 0 <= j < local.len() && (#[trigger] local[j]).id == s.id ==> local[j] == s,
        !spec_list_has_id(acc, s.id) || exists|k: int| 0 <= k < acc.len() && #[trigger] acc[k]
            == s,
    ensures
        exists|k: int|
            0 <= k < spec_merge(acc, local, req).len() && #[trigger] spec_merge(
                acc,
                local,
                req,
            )[k] == s,
    decreases local.len(),
{
    let first = local[0];
    let acc2 = if spec_type_matches_any(first, req) && !spec_list_has_id(acc, first.id) {
        acc.push(first)
    } else {
        acc
    };
    if first == s {
        if spec_list_has_id(acc, s.id) {
            let k = choose|k: int| 0 <= k < acc.len() && #[trigger] acc[k] == s;
            assert(acc2[k] == s);
            lemma_merge_keeps_acc(acc2, local.drop_first(), req, s);
        } else {
            assert(acc2 == acc.push(s));
            assert(acc2[acc.len() as int] == s);
            lemma_merge_keeps_acc(acc2, local.drop_first(), req, s);
        }
        let m = choose|m: int|
            0 <= m < spec_merge(acc2, local.drop_first(), req).len()
                && #[trigger] spec_merge(acc2, local.drop_first(), req)[m] == s;
        assert(spec_merge(acc, local, req) == spec_merge(acc2, local.drop_first(), req));
        assert(spec_merge(acc, local, req)[m] == s);
    } else {
        assert(first.id != s.id);
        let i = choose|i: int| 0 <= i < local.len() && #[trigger] local[i] == s;
        assert(i >= 1);
        assert(local.drop_first()[i - 1] == s);
        assert forall|j: int|
            0 <= j < local.drop_first().len() && (#[trigger] local.drop_first()[j]).id == s.id
            implies local.drop_first()[j] == s by {
            assert(local.drop_first()[j] == local[j + 1]);
        }
        if spec_list_has_id(acc2, s.id) {
            if spec_list_has_id(acc, s.id) {
                let k = choose|k: int| 0 <= k < acc.len() && #[trigger] acc[k] == s;
                assert(acc2[k] == s);
            } else {
                let k = choose|k: int| 0 <= k < acc2.len() && (#[trigger] acc2[k]).id == s.id;
                assert(acc2 == acc.push(first));
                assert(k == acc.len());
                assert(acc2[k] == first);
                assert(first.id != s.id);
                assert(false);
            }
        }
        lemma_merge_includes(acc2, local.drop_first(), req, s);
        let m = choose|m: int|
            0 <= m < spec_merge(acc2, local.drop_first(), req).len()
                && #[trigger] spec_merge(acc2, local.drop_first(), req)[m] == s;
        assert(spec_merge(acc, local, req) == spec_merge(acc2, local.drop_first(), req));
        assert(spec_merge(acc, local, req)[m] == s);
    }
}

/// Law: a service registered locally is seen by a following discovery.
///
/// When the registry holds a local entry for `s`, some requested type
/// matches `s`'s type modulo `.local.`, none of the browse results
/// carries `s`'s identifier, and no other local entry reuses it, then the
/// merged discovery result contains `s` itself — in particular an entry
/// with `s`'s name and port.
///
/// The two identifier hypotheses are assumptions, not proved facts:
/// identifiers are fresh random UUIDs, so in practice nothing else
/// carries `s`'s, but nothing can be stated of a random value.  A browse
/// result that did reuse the identifier would block the merge and
/// falsify the unrestricted claim.
pub proof fn lemma_register_then_discover(
    es: Seq<ServiceEntryView>,
    discovered: Seq<ServiceInfoView>,
    req: Seq<ServiceTypeView>,
    s: ServiceInfoView,
)
    requires
        exists|i: int|
            0 <= i < es.len() && (#[trigger] es[i]).is_local && es[i].service == s,
        spec_type_matches_any(s, req),
        !spec_list_has_id(discovered, s.id),
        forall|j: int|
            0 <= j < es.len() && (#[trigger] es[j]).is_local && es[j].service.id == s.id
                ==> es[j].service == s,
    ensures
        exists|k: int|
            0 <= k < spec_merge(discovered, spec_local_services(es), req).len()
                && #[trigger] spec_merge(discovered, spec_local_services(es), req)[k] == s,
{
    let i = choose|i: int|
        0 <= i < es.len() && (#[trigger] es[i]).is_local && es[i].service == s;
    crate::registry::lemma_local_services_contains(es, i);
    crate::registry::lemma_local_services_membership(es);
    let locals = spec_local_services(es);
    assert forall|j: int|
        0 <= j < locals.len() && (#[trigger] locals[j]).id == s.id implies locals[j] == s by {
        let e = choose|e: int|
            0 <= e < es.len() && es[e].is_local && es[e].service == #[trigger] locals[j];
        assert(es[e].service.id == s.id);
    }
    lemma_merge_includes(discovered, locals, req, s);
}

/// Law: after a local service is removed and no other local entry shares
/// its name, the engine's liveness check finds nothing under that name.
pub proof fn lemma_unregister_then_verify_mdns(es: Seq<ServiceEntryView>, name: Seq<char>)
    requires
        forall|j: int|
            0 <= j < es.len() && (#[trigger] es[j]).is_local ==> es[j].service.name != name,
    ensures
        forall|k: int|
            0 <= k < spec_local_services(es).len() ==> (#[trigger] spec_local_services(
                es,
            )[k]).name != name,
{
    crate::registry::lemma_local_services_membership(es);
    assert forall|k: int|
        0 <= k < spec_local_services(es).len() implies (#[trigger] spec_local_services(
        es,
    )[k]).name != name by {
        let j = choose|j: int|
            0 <= j < es.len() && es[j].is_local && es[j].service == #[trigger] spec_local_services(
                es,
            )[k];
        assert(es[j].service.name != name);
    }
}

} // verus!
