//! SSDP (Simple Service Discovery Protocol) engine: the HTTPU wire format
//! of M-SEARCH, NOTIFY and response messages, the search-target match
//! rules, and the engine's registered-services table and listener state.
//!
//! Everything here is computation on text and table state; the UDP sockets
//! that carry the datagrams live outside the verified core and hand the
//! payloads in and out as strings.

use vstd::prelude::*;

use crate::service::{ServiceInfo, ServiceInfoView, spec_attrs_of_list};
use crate::strutil::{
    ci_has_prefix, has_substring, spec_split, spec_trim, spec_dec, lemma_split_no_sep,
    lemma_split_at_sep, lemma_split_len, starts_with_ci, find_char_from, trim_str, str_eq,
    contains_substr, u64_to_dec,
};
use crate::types::{spec_ip_string, IpAddress, ProtocolType, spec_parse_service_type};

verus! {

// ---------------------------------------------------------------------------
// Header extraction
// ---------------------------------------------------------------------------

/// The value of the first line that begins, case-insensitively, with
/// `name`: the rest of that line, whitespace-trimmed.
pub open spec fn spec_header_in_lines(lines: Seq<Seq<char>>, name: Seq<char>) -> Option<
    Seq<char>,
>
    decreases lines.len(),
{
    if lines.len() == 0 {
        Option::None
    } else if ci_has_prefix(lines[0], name) {
        Option::Some(spec_trim(lines[0].subrange(name.len() as int, lines[0].len() as int)))
    } else {
        spec_header_in_lines(lines.drop_first(), name)
    }
}

/// Header lookup over a whole message, its lines cut at `\n`.  The header
/// name is matched case-insensitively and the value is trimmed, carriage
/// returns included.
pub open spec fn spec_header_value(msg: Seq<char>, name: Seq<char>) -> Option<Seq<char>> {
    spec_header_in_lines(spec_split(msg, '\n'), name)
}

/// Exec twin of [`spec_header_value`].
fn header_value(message: &str, name: &str) -> (r: Option<String>)
    requires
        name@.len() > 0,
    ensures
        match r {
            Option::Some(v) => spec_header_value(message@, name@) == Option::Some(v@),
            Option::None => spec_header_value(message@, name@) is None,
        },
{
    let n = message.unicode_len();
    let mut pos: usize = 0;
    proof {
        assert(message@.subrange(0, n as int) =~= message@);
    }
    loop
        invariant
            n == message@.len(),
            0 <= pos <= n,
            name@.len() > 0,
            spec_header_value(message@, name@) == spec_header_in_lines(
                spec_split(message@.subrange(pos as int, n as int), '\n'),
                name@,
            ),
        decreases n - pos,
    {
        let e = find_char_from(message, '\n', pos);
        let line = message.substring_char(pos, e);
        let ghost remaining = message@.subrange(pos as int, n as int);
        proof {
            assert(!line@.contains('\n')) by {
                assert(forall|j: int| 0 <= j < line@.len() ==> line@[j] == message@[pos + j]
                    && message@[pos + j] != '\n');
            }
        }
        if starts_with_ci(line, name) {
            let name_len = name.unicode_len();
            let tail = line.substring_char(name_len, line.unicode_len());
            let value = trim_str(tail);
            proof {
                if e < n {
                    let rest = message@.subrange(e + 1, n as int);
                    assert(line@ + seq!['\n'] + rest =~= remaining);
                    lemma_split_at_sep(line@, rest, '\n');
                    assert(spec_split(remaining, '\n')[0] == line@);
                } else {
                    lemma_split_no_sep(line@, '\n');
                    assert(line@ =~= remaining);
                    assert(spec_split(remaining, '\n')[0] == line@);
                }
                assert(tail@ =~= line@.subrange(name@.len() as int, line@.len() as int));
            }
            return Option::Some(value.to_owned());
        }
        proof {
            if e < n {
                let rest = message@.subrange(e + 1, n as int);
                assert(line@ + seq!['\n'] + rest =~= remaining);
                lemma_split_at_sep(line@, rest, '\n');
                lemma_split_len(rest, '\n');
                assert(spec_split(remaining, '\n').drop_first() =~~= spec_split(rest, '\n'));
                assert(spec_split(remaining, '\n')[0] == line@);
            } else {
                lemma_split_no_sep(line@, '\n');
                assert(line@ =~= remaining);
                assert(spec_split(remaining, '\n') =~~= seq![line@]);
                let single = seq![line@];
                assert(!ci_has_prefix(single[0], name@));
                assert(single.drop_first() =~~= Seq::<Seq<char>>::empty());
                assert(spec_header_in_lines(single.drop_first(), name@) is None);
                assert(spec_header_in_lines(single, name@) is None);
                assert(spec_header_in_lines(spec_split(remaining, '\n'), name@) is None);
            }
        }
        if e == n {
            return Option::None;
        }
        pos = e + 1;
    }
}

// ---------------------------------------------------------------------------
// Search targets
// ---------------------------------------------------------------------------

/// The `ST` header of an M-SEARCH datagram; a datagram without one is
/// searched as `ssdp:all`.
pub open spec fn spec_search_target(msg: Seq<char>) -> Seq<char> {
    match spec_header_value(msg, "ST:"@) {
        Option::Some(v) => v,
        Option::None => "ssdp:all"@,
    }
}

/// Exec twin of [`spec_search_target`].
pub fn parse_search_target(message: &str) -> (r: String)
    ensures
        r@ == spec_search_target(message@),
{
    proof {
        reveal_strlit("ST:");
    }
    match header_value(message, "ST:") {
        Option::Some(v) => v,
        Option::None => "ssdp:all".to_owned(),
    }
}

/// Whether a service whose type renders to `ty` answers the search target:
/// the wildcard targets match every service, and otherwise the target must
/// equal the rendered type or occur inside it.  The substring alternative
/// is deliberately permissive; it mirrors the established behaviour of
/// this exchange.
pub open spec fn spec_matches_search(target: Seq<char>, ty: Seq<char>) -> bool {
    ||| target == "ssdp:all"@
    ||| target == "upnp:rootdevice"@
    ||| target == ty
    ||| has_substring(ty, target)
}

/// Exec twin of [`spec_matches_search`].
pub fn service_matches_search(search_target: &str, service: &ServiceInfo) -> (r: bool)
    ensures
        r == spec_matches_search(
            search_target@,
            crate::types::spec_display_service_type(service@.service_type),
        ),
{
    if str_eq(search_target, "ssdp:all") || str_eq(search_target, "upnp:rootdevice") {
        return true;
    }
    let ty = service.service_type.display_string();
    str_eq(search_target, ty.as_str()) || contains_substr(ty.as_str(), search_target)
}

// ---------------------------------------------------------------------------
// USN prefixes
// ---------------------------------------------------------------------------

/// The text before the first `::`, or the whole text when none occurs.
pub open spec fn spec_before_double_colon(s: Seq<char>) -> Seq<char>
    decreases s.len(),
{
    if s.len() >= 2 && s[0] == ':' && s[1] == ':' {
        Seq::empty()
    } else if s.len() == 0 {
        Seq::empty()
    } else {
        seq![s[0]] + spec_before_double_colon(s.drop_first())
    }
}

proof fn lemma_before_double_colon_at(s: Seq<char>, i: int)
    requires
        0 <= i,
        i + 2 <= s.len(),
        s[i] == ':',
        s[i + 1] == ':',
        forall|j: int| 0 <= j < i ==> !((#[trigger] s[j]) == ':' && s[j + 1] == ':'),
    ensures
        spec_before_double_colon(s) =~= s.subrange(0, i),
    decreases i,
{
    if i == 0 {
    } else {
        let t = s.drop_first();
        assert(!(s[0] == ':' && s[1] == ':'));
        assert(t[i - 1] == s[i] && t[i] == s[i + 1]);
        assert forall|j: int| 0 <= j < i - 1 implies !((#[trigger] t[j]) == ':' && t[j + 1] == ':') by {
            assert(t[j] == s[j + 1] && t[j + 1] == s[j + 2]);
        }
        lemma_before_double_colon_at(t, i - 1);
        assert(seq![s[0]] + t.subrange(0, i - 1) =~= s.subrange(0, i));
    }
}

proof fn lemma_before_double_colon_none(s: Seq<char>)
    requires
        forall|j: int| 0 <= j < s.len() - 1 ==> !((#[trigger] s[j]) == ':' && s[j + 1] == ':'),
    ensures
        spec_before_double_colon(s) =~= s,
    decreases s.len(),
{
    if s.len() > 0 {
        let t = s.drop_first();
        assert forall|j: int|
            0 <= j < t.len() - 1 implies !((#[trigger] t[j]) == ':' && t[j + 1] == ':') by {
            assert(t[j] == s[j + 1] && t[j + 1] == s[j + 2]);
        }
        lemma_before_double_colon_none(t);
        assert(seq![s[0]] + t =~= s);
    }
}

/// The part of a `USN` value before its first `::`: the advertised
/// service's identifier.
pub fn usn_prefix(usn: &str) -> (r: String)
    ensures
        r@ == spec_before_double_colon(usn@),
{
    let n = usn.unicode_len();
    let mut i: usize = 0;
    while n >= 2 && i < n - 1
        invariant
            n == usn@.len(),
            0 <= i,
            i <= n,
            forall|j: int| 0 <= j < i ==> !((#[trigger] usn@[j]) == ':' && usn@[j + 1] == ':'),
        decreases n - i,
    {
        if usn.get_char(i) == ':' && usn.get_char(i + 1) == ':' {
            proof {
                lemma_before_double_colon_at(usn@, i as int);
            }
            let prefix = usn.substring_char(0, i);
            return prefix.to_owned();
        }
        i = i + 1;
    }
    proof {
        lemma_before_double_colon_none(usn@);
    }
    usn.to_owned()
}

} // verus!

verus! {

// ---------------------------------------------------------------------------
// Message builders
// ---------------------------------------------------------------------------

/// The M-SEARCH datagram sent for one search target with the given `MX`
/// value.
pub open spec fn spec_msearch_request(st: Seq<char>, mx: nat) -> Seq<char> {
    "M-SEARCH * HTTP/1.1\r\nHOST: 239.255.255.250:1900\r\nMAN: \"ssdp:discover\"\r\nST: "@ + st
        + "\r\nMX: "@ + spec_dec(mx) + "\r\n\r\n"@
}

/// The unicast response a registered service sends back to a searcher.
pub open spec fn spec_msearch_response(s: ServiceInfoView, date: Seq<char>) -> Seq<char> {
    "HTTP/1.1 200 OK\r\nCACHE-CONTROL: max-age=1800\r\nDATE: "@ + date
        + "\r\nEXT:\r\nLOCATION: http://"@ + spec_ip_string(s.address) + ":"@ + spec_dec(
        s.port as nat,
    ) + "/\r\nSERVER: AutoDiscovery/1.0 UPnP/1.0\r\nST: upnp:rootdevice\r\nUSN: uuid:"@ + s.id
        + "::upnp:rootdevice\r\n\r\n"@
}

/// The multicast NOTIFY datagram for a service, with `NTS` either
/// `ssdp:alive` or `ssdp:byebye`.
pub open spec fn spec_notify(s: ServiceInfoView, nts: Seq<char>) -> Seq<char> {
    "NOTIFY * HTTP/1.1\r\nHOST: 239.255.255.250:1900\r\nCACHE-CONTROL: max-age=1800\r\nLOCATION: http://"@
        + spec_ip_string(s.address) + ":"@ + spec_dec(s.port as nat) + "/\r\nNT: upnp:rootdevice\r\nNTS: "@
        + nts + "\r\nUSN: uuid:"@ + s.id
        + "::upnp:rootdevice\r\nSERVER: AutoDiscovery/1.0 UPnP/1.0\r\n\r\n"@
}

/// Exec twin of [`spec_msearch_request`].
pub fn build_msearch_request(service_type: &str, mx_secs: u64) -> (r: String)
    ensures
        r@ == spec_msearch_request(service_type@, mx_secs as nat),
{
    let mut out = "M-SEARCH * HTTP/1.1\r\nHOST: 239.255.255.250:1900\r\nMAN: \"ssdp:discover\"\r\nST: "
        .to_owned();
    out.append(service_type);
    out.append("\r\nMX: ");
    let mx = u64_to_dec(mx_secs);
    out.append(mx.as_str());
    out.append("\r\n\r\n");
    proof {
        assert(out@ =~= spec_msearch_request(service_type@, mx_secs as nat));
    }
    out
}

/// Exec twin of [`spec_msearch_response`].
pub fn build_msearch_response(service: &ServiceInfo, date: &str) -> (r: String)
    ensures
        r@ == spec_msearch_response(service@, date@),
{
    let mut out = "HTTP/1.1 200 OK\r\nCACHE-CONTROL: max-age=1800\r\nDATE: ".to_owned();
    out.append(date);
    out.append("\r\nEXT:\r\nLOCATION: http://");
    let addr = service.address.to_display();
    out.append(addr.as_str());
    out.append(":");
    let port = u64_to_dec(service.port as u64);
    out.append(port.as_str());
    out.append("/\r\nSERVER: AutoDiscovery/1.0 UPnP/1.0\r\nST: upnp:rootdevice\r\nUSN: uuid:");
    out.append(service.id.as_str());
    out.append("::upnp:rootdevice\r\n\r\n");
    proof {
        assert(out@ =~= spec_msearch_response(service@, date@));
    }
    out
}

/// Exec twin of [`spec_notify`].
pub fn build_announcement(service: &ServiceInfo, notification_type: &str) -> (r: String)
    ensures
        r@ == spec_notify(service@, notification_type@),
{
    let mut out =
        "NOTIFY * HTTP/1.1\r\nHOST: 239.255.255.250:1900\r\nCACHE-CONTROL: max-age=1800\r\nLOCATION: http://"
        .to_owned();
    let addr = service.address.to_display();
    out.append(addr.as_str());
    out.append(":");
    let port = u64_to_dec(service.port as u64);
    out.append(port.as_str());
    out.append("/\r\nNT: upnp:rootdevice\r\nNTS: ");
    out.append(notification_type);
    out.append("\r\nUSN: uuid:");
    out.append(service.id.as_str());
    out.append("::upnp:rootdevice\r\nSERVER: AutoDiscovery/1.0 UPnP/1.0\r\n\r\n");
    proof {
        assert(out@ =~= spec_notify(service@, notification_type@));
    }
    out
}

/// The total window of one discovery pass: the caller's timeout (or 10 s
/// when absent), never more than 30 s.  In milliseconds.
pub fn cap_discover_timeout_ms(timeout_ms: Option<u64>) -> (r: u64)
    ensures
        r == (if (match timeout_ms {
            Option::Some(t) => t,
            Option::None => 10000u64,
        }) < 30000 {
            (match timeout_ms {
                Option::Some(t) => t,
                Option::None => 10000u64,
            })
        } else {
            30000u64
        }),
{
    let t = match timeout_ms {
        Option::Some(t) => t,
        Option::None => 10000,
    };
    if t < 30000 {
        t
    } else {
        30000
    }
}

/// The `MX` value of an M-SEARCH: the timeout in whole seconds, at most 5.
pub fn mx_for_timeout(timeout_secs: u64) -> (r: u64)
    ensures
        r == (if timeout_secs < 5 {
            timeout_secs
        } else {
            5u64
        }),
{
    if timeout_secs < 5 {
        timeout_secs
    } else {
        5
    }
}

} // verus!

verus! {

// ---------------------------------------------------------------------------
// Response parsing
// ---------------------------------------------------------------------------

/// Decode an M-SEARCH response datagram into a service description.
///
/// The datagram must carry `LOCATION` and `USN` headers, matched
/// case-insensitively; a datagram missing either is ignored.  The service
/// is named by the `USN` identifier (its text before the first `::`),
/// typed `upnp._tcp`, addressed at the datagram's source, and carries the
/// two headers as attributes.
pub fn parse_service_from_response(
    response: &str,
    source_ip: IpAddress,
    source_port: u16,
) -> (r: Option<ServiceInfo>)
    ensures
        match r {
            Option::Some(s) => {
                &&& spec_header_value(response@, "LOCATION:"@) is Some
                &&& spec_header_value(response@, "USN:"@) is Some
                &&& s.name@ == spec_before_double_colon(
                    spec_header_value(response@, "USN:"@).unwrap(),
                )
                &&& spec_parse_service_type("upnp._tcp"@) == Option::Some(s.service_type@)
                &&& s.port == source_port
                &&& s.address == source_ip
                &&& s.protocol_type == ProtocolType::Upnp
                &&& s.attributes@ == spec_attrs_of_list(
                    seq![
                        ("location"@, spec_header_value(response@, "LOCATION:"@).unwrap()),
                        ("usn"@, spec_header_value(response@, "USN:"@).unwrap()),
                    ],
                )
            },
            Option::None => spec_header_value(response@, "LOCATION:"@) is None
                || spec_header_value(response@, "USN:"@) is None,
        },
{
    proof {
        reveal_strlit("LOCATION:");
        reveal_strlit("USN:");
    }
    let location = match header_value(response, "LOCATION:") {
        Option::Some(v) => v,
        Option::None => {
            return Option::None;
        },
    };
    let usn = match header_value(response, "USN:") {
        Option::Some(v) => v,
        Option::None => {
            return Option::None;
        },
    };
    let service_id = usn_prefix(usn.as_str());
    let mut list: Vec<(&str, &str)> = Vec::new();
    list.push(("location", location.as_str()));
    list.push(("usn", usn.as_str()));
    let made = ServiceInfo::new(service_id.as_str(), "upnp._tcp", source_port, Option::Some(list));
    match made {
        Result::Ok(s) => {
            let s = s.with_address(source_ip).with_protocol_type(ProtocolType::Upnp);
            proof {
                assert(s.attributes@ == spec_attrs_of_list(
                    seq![("location"@, location@), ("usn"@, usn@)],
                )) by {
                    reveal_strlit("location");
                    reveal_strlit("usn");
                    assert(Seq::new(2, |i: int| (list@[i].0@, list@[i].1@)) =~~= seq![
                        ("location"@, location@),
                        ("usn"@, usn@),
                    ]);
                }
            }
            Option::Some(s)
        },
        Result::Err(_) => {
            proof {
                reveal_strlit("upnp._tcp");
                reveal_strlit("upnp");
                reveal_strlit("_tcp");
                reveal_strlit("urn:");
                let full = "upnp._tcp"@;
                let a = "upnp"@;
                let b = "_tcp"@;
                assert(full.len() == 9);
                assert(full =~= a + seq!['.'] + b);
                assert(!a.contains('.')) by {
                    assert forall|j: int| 0 <= j < a.len() implies a[j] != '.' by {
                        assert(a[0] == 'u' && a[1] == 'p' && a[2] == 'n' && a[3] == 'p');
                    }
                }
                assert(!b.contains('.')) by {
                    assert forall|j: int| 0 <= j < b.len() implies b[j] != '.' by {
                        assert(b[0] == '_' && b[1] == 't' && b[2] == 'c' && b[3] == 'p');
                    }
                }
                assert(!crate::strutil::has_prefix(full, "urn:"@)) by {
                    assert(full.subrange(0, 4)[1] == 'p');
                    assert("urn:"@[1] == 'r');
                }
                crate::types::lemma_parse_two_labels(full, a, b);
                assert(false);
            }
            Option::None
        },
    }
}

} // verus!

verus! {

// ---------------------------------------------------------------------------
// Engine state
// ---------------------------------------------------------------------------

/// Listener lifecycle of the engine.  Discovery and registration work in
/// any state; only the responder behaviour needs `Listening`.
#[derive(Debug, Clone, Copy, PartialEq, Eq, Structural)]
pub enum SsdpEngineState {
    /// Fresh engine, listener never started.
    Created,
    /// Background listener running.
    Listening,
    /// Listener shut down; it may be started again.
    Stopped,
}

/// The SSDP engine's own state: the services it advertises (unique by
/// identifier) and the listener lifecycle.
#[derive(Debug)]
pub struct SsdpEngine {
    registered: Vec<ServiceInfo>,
    state: SsdpEngineState,
}

/// Mathematical image of an [`SsdpEngine`].
pub struct SsdpEngineView {
    /// Advertised services.
    pub registered: Seq<ServiceInfoView>,
    /// Listener lifecycle.
    pub state: SsdpEngineState,
}

impl View for SsdpEngine {
    type V = SsdpEngineView;

    closed spec fn view(&self) -> SsdpEngineView {
        SsdpEngineView {
            registered: Seq::new(self.registered@.len(), |i: int| self.registered@[i]@),
            state: self.state,
        }
    }
}

/// Whether some advertised service carries the identifier.
pub open spec fn spec_has_id(svcs: Seq<ServiceInfoView>, id: Seq<char>) -> bool {
    exists|i: int| 0 <= i < svcs.len() && (#[trigger] svcs[i]).id == id
}

/// No two advertised services share an identifier.
pub open spec fn spec_ids_unique(svcs: Seq<ServiceInfoView>) -> bool {
    forall|i: int, j: int|
        0 <= i < j < svcs.len() ==> (#[trigger] svcs[i]).id != (#[trigger] svcs[j]).id
}

/// The response datagrams a search produces: one per advertised service
/// matching the target, in table order.
pub open spec fn spec_responses(
    svcs: Seq<ServiceInfoView>,
    target: Seq<char>,
    date: Seq<char>,
) -> Seq<Seq<char>>
    decreases svcs.len(),
{
    if svcs.len() == 0 {
        Seq::empty()
    } else {
        let rest = spec_responses(svcs.drop_last(), target, date);
        if spec_matches_search(
            target,
            crate::types::spec_display_service_type(svcs.last().service_type),
        ) {
            rest.push(spec_msearch_response(svcs.last(), date))
        } else {
            rest
        }
    }
}

/// The views of a list of datagram payloads.
pub open spec fn spec_string_views(s: Seq<String>) -> Seq<Seq<char>> {
    Seq::new(s.len(), |i: int| s[i]@)
}

/// Relies on `chrono::Utc::now` and its RFC 1123 style formatting for the
/// `DATE` response header.  The result depends on the clock, so nothing is
/// promised of it.
#[verifier::external_body]
fn http_date_now() -> String {
    chrono::Utc::now().format("%a, %d %b %Y %H:%M:%S GMT").to_string()
}

impl SsdpEngine {
    /// Identifiers of advertised services stay pairwise distinct.
    pub open spec fn wf(&self) -> bool {
        spec_ids_unique(self@.registered)
    }

    /// A fresh engine: nothing advertised, listener not started.
    pub fn new() -> (r: Self)
        ensures
            r@.registered.len() == 0,
            r@.state == SsdpEngineState::Created,
            r.wf(),
    {
        SsdpEngine { registered: Vec::new(), state: SsdpEngineState::Created }
    }

    /// Start the background listener; starting an already listening engine
    /// changes nothing.
    pub fn start_listener(&mut self)
        ensures
            final(self)@.state == SsdpEngineState::Listening,
            final(self)@.registered == old(self)@.registered,
            old(self).wf() ==> final(self).wf(),
    {
        self.state = SsdpEngineState::Listening;
        proof {
            assert(final(self)@.registered =~= old(self)@.registered);
        }
    }

    /// Stop the background listener.
    pub fn shutdown(&mut self)
        ensures
            final(self)@.state == SsdpEngineState::Stopped,
            final(self)@.registered == old(self)@.registered,
            old(self).wf() ==> final(self).wf(),
    {
        self.state = SsdpEngineState::Stopped;
        proof {
            assert(final(self)@.registered =~= old(self)@.registered);
        }
    }

    /// Whether the responder is running.
    pub fn is_listening(&self) -> (r: bool)
        ensures
            r == (self@.state == SsdpEngineState::Listening),
    {
        self.state == SsdpEngineState::Listening
    }

    /// First table index advertising `id`.
    fn find_id_index(&self, id: &str) -> (r: Option<usize>)
        ensures
            match r {
                Option::Some(i) => i < self@.registered.len() && self@.registered[i as int].id
                    == id@ && forall|j: int|
                    0 <= j < i ==> (#[trigger] self@.registered[j]).id != id@,
                Option::None => forall|j: int|
                    0 <= j < self@.registered.len() ==> (#[trigger] self@.registered[j]).id
                        != id@,
            },
    {
        let mut i: usize = 0;
        while i < self.registered.len()
            invariant
                0 <= i <= self.registered@.len(),
                self@.registered.len() == self.registered@.len(),
                forall|j: int| 0 <= j < i ==> (#[trigger] self@.registered[j]).id != id@,
            decreases self.registered@.len() - i,
        {
            if str_eq(self.registered[i].id.as_str(), id) {
                return Option::Some(i);
            }
            i = i + 1;
        }
        Option::None
    }

    /// Advertise a service and return the `ssdp:alive` NOTIFY datagram to
    /// multicast.  A service with the same identifier is replaced in
    /// place.
    pub fn register_service(&mut self, service: &ServiceInfo) -> (msg: String)
        requires
            old(self).wf(),
        ensures
            final(self).wf(),
            final(self)@.state == old(self)@.state,
            msg@ == spec_notify(service@, "ssdp:alive"@),
            if spec_has_id(old(self)@.registered, service@.id) {
                exists|i: int|
                    0 <= i < old(self)@.registered.len() && (#[trigger] old(
                        self,
                    )@.registered[i]).id == service@.id && final(self)@.registered == old(
                        self,
                    )@.registered.update(i, service@)
            } else {
                final(self)@.registered == old(self)@.registered.push(service@)
            },
    {
        let msg = build_announcement(service, "ssdp:alive");
        match self.find_id_index(service.id.as_str()) {
            Option::Some(i) => {
                self.registered.set(i, service.clone());
                proof {
                    assert(final(self)@.registered =~= old(self)@.registered.update(
                        i as int,
                        service@,
                    ));
                    lemma_ids_unique_update(old(self)@.registered, i as int, service@);
                }
            },
            Option::None => {
                self.registered.push(service.clone());
                proof {
                    assert(final(self)@.registered =~= old(self)@.registered.push(service@));
                    lemma_ids_unique_push(old(self)@.registered, service@);
                }
            },
        }
        msg
    }

    /// Withdraw a service by identifier.  When it was advertised, the
    /// stored entry leaves the table and its `ssdp:byebye` NOTIFY datagram
    /// is returned; otherwise nothing changes.
    pub fn unregister_service(&mut self, service: &ServiceInfo) -> (r: Option<String>)
        requires
            old(self).wf(),
        ensures
            final(self).wf(),
            final(self)@.state == old(self)@.state,
            match r {
                Option::Some(msg) => exists|i: int|
                    0 <= i < old(self)@.registered.len() && (#[trigger] old(
                        self,
                    )@.registered[i]).id == service@.id && msg@ == spec_notify(
                        old(self)@.registered[i],
                        "ssdp:byebye"@,
                    ) && final(self)@.registered == old(self)@.registered.remove(i),
                Option::None => final(self)@.registered == old(self)@.registered
                    && !spec_has_id(old(self)@.registered, service@.id),
            },
    {
        match self.find_id_index(service.id.as_str()) {
            Option::Some(i) => {
                let msg = build_announcement(&self.registered[i], "ssdp:byebye");
                self.registered.remove(i);
                proof {
                    assert(final(self)@.registered =~= old(self)@.registered.remove(i as int));
                    lemma_ids_unique_remove(old(self)@.registered, i as int);
                }
                Option::Some(msg)
            },
            Option::None => {
                proof {
                    assert(final(self)@.registered =~= old(self)@.registered);
                }
                Option::None
            },
        }
    }

    /// Whether a service with this identifier is advertised.
    pub fn verify_service(&self, service: &ServiceInfo) -> (r: bool)
        ensures
            r == spec_has_id(self@.registered, service@.id),
    {
        match self.find_id_index(service.id.as_str()) {
            Option::Some(i) => {
                proof {
                    assert((self@.registered[i as int]).id == service@.id);
                }
                true
            },
            Option::None => false,
        }
    }

    /// The responder's reaction to one datagram, with an explicit `DATE`
    /// header value: an M-SEARCH datagram draws one unicast response for
    /// every advertised service matching its search target, in table
    /// order; any other datagram draws none.
    pub fn respond_to_search_dated(&self, message: &str, date: &str) -> (r: Vec<String>)
        ensures
            has_substring(message@, "M-SEARCH"@) ==> spec_string_views(r@) == spec_responses(
                self@.registered,
                spec_search_target(message@),
                date@,
            ),
            !has_substring(message@, "M-SEARCH"@) ==> r@.len() == 0,
    {
        if !contains_substr(message, "M-SEARCH") {
            return Vec::new();
        }
        let target = parse_search_target(message);
        let mut out: Vec<String> = Vec::new();
        let mut i: usize = 0;
        while i < self.registered.len()
            invariant
                0 <= i <= self.registered@.len(),
                self@.registered.len() == self.registered@.len(),
                target@ == spec_search_target(message@),
                spec_string_views(out@) == spec_responses(
                    self@.registered.take(i as int),
                    target@,
                    date@,
                ),
            decreases self.registered@.len() - i,
        {
            let ghost pre = out@;
            if service_matches_search(target.as_str(), &self.registered[i]) {
                out.push(build_msearch_response(&self.registered[i], date));
                proof {
                    assert(spec_string_views(out@) =~= spec_string_views(pre).push(
                        spec_msearch_response(self@.registered[i as int], date@),
                    ));
                }
            }
            proof {
                assert(self@.registered.take(i + 1).drop_last() =~= self@.registered.take(
                    i as int,
                ));
                assert(self@.registered.take(i + 1).last() == self@.registered[i as int]);
            }
            i = i + 1;
        }
        proof {
            assert(self@.registered.take(self@.registered.len() as int) =~= self@.registered);
        }
        out
    }

    /// The responder's reaction to one datagram, dating the responses by
    /// the system clock.
    pub fn respond_to_search(&self, message: &str) -> (r: Vec<String>)
        ensures
            has_substring(message@, "M-SEARCH"@) ==> exists|date: Seq<char>|
                spec_string_views(r@) == spec_responses(
                    self@.registered,
                    spec_search_target(message@),
                    date,
                ),
            !has_substring(message@, "M-SEARCH"@) ==> r@.len() == 0,
    {
        let date = http_date_now();
        self.respond_to_search_dated(message, date.as_str())
    }
}

proof fn lemma_ids_unique_update(svcs: Seq<ServiceInfoView>, i: int, s: ServiceInfoView)
    requires
        spec_ids_unique(svcs),
        0 <= i < svcs.len(),
        svcs[i].id == s.id,
    ensures
        spec_ids_unique(svcs.update(i, s)),
{
    let upd = svcs.update(i, s);
    assert forall|a: int, b: int|
        0 <= a < b < upd.len() implies (#[trigger] upd[a]).id != (#[trigger] upd[b]).id by {
        assert(svcs[a] == if a == i {
            svcs[i]
        } else {
            upd[a]
        });
        assert(svcs[b] == if b == i {
            svcs[i]
        } else {
            upd[b]
        });
    }
}

proof fn lemma_ids_unique_push(svcs: Seq<ServiceInfoView>, s: ServiceInfoView)
    requires
        spec_ids_unique(svcs),
        !spec_has_id(svcs, s.id),
    ensures
        spec_ids_unique(svcs.push(s)),
{
    let p = svcs.push(s);
    assert forall|a: int, b: int|
        0 <= a < b < p.len() implies (#[trigger] p[a]).id != (#[trigger] p[b]).id by {
        if b < svcs.len() {
            assert(p[a] == svcs[a]);
            assert(p[b] == svcs[b]);
        } else {
            assert(p[a] == svcs[a]);
            assert(p[b] == s);
        }
    }
}

proof fn lemma_ids_unique_remove(svcs: Seq<ServiceInfoView>, j: int)
    requires
        spec_ids_unique(svcs),
        0 <= j < svcs.len(),
    ensures
        spec_ids_unique(svcs.remove(j)),
{
    let rm = svcs.remove(j);
    assert forall|a: int, b: int|
        0 <= a < b < rm.len() implies (#[trigger] rm[a]).id != (#[trigger] rm[b]).id by {
        let a0 = if a < j {
            a
        } else {
            a + 1
        };
        let b0 = if b < j {
            b
        } else {
            b + 1
        };
        assert(rm[a] == svcs[a0]);
        assert(rm[b] == svcs[b0]);
    }
}

/// Law: a search for `ssdp:all` draws exactly one response per advertised
/// service — the response list has one entry for each table slot, in
/// order, and that entry is the slot's own response datagram.
pub proof fn lemma_ssdp_all_one_response_each(svcs: Seq<ServiceInfoView>, date: Seq<char>)
    ensures
        spec_responses(svcs, "ssdp:all"@, date).len() == svcs.len(),
        forall|i: int|
            0 <= i < svcs.len() ==> spec_responses(svcs, "ssdp:all"@, date)[i]
                == spec_msearch_response(#[trigger] svcs[i], date),
    decreases svcs.len(),
{
    if svcs.len() > 0 {
        lemma_ssdp_all_one_response_each(svcs.drop_last(), date);
        assert(spec_matches_search(
            "ssdp:all"@,
            crate::types::spec_display_service_type(svcs.last().service_type),
        ));
        assert forall|i: int|
            0 <= i < svcs.len() implies spec_responses(svcs, "ssdp:all"@, date)[i]
            == spec_msearch_response(#[trigger] svcs[i], date) by {
            if i < svcs.len() - 1 {
                assert(svcs.drop_last()[i] == svcs[i]);
            } else {
                assert(svcs.last() == svcs[i]);
            }
        }
    }
}

} // verus!

verus! {

/// Law: withdrawing an advertised service makes its verification fail —
/// after the slot holding an identifier leaves a table with pairwise
/// distinct identifiers, no slot carries that identifier.
pub proof fn lemma_unregister_then_verify_ssdp(svcs: Seq<ServiceInfoView>, i: int)
    requires
        spec_ids_unique(svcs),
        0 <= i < svcs.len(),
    ensures
        !spec_has_id(svcs.remove(i), svcs[i].id),
{
    let rm = svcs.remove(i);
    assert forall|k: int| 0 <= k < rm.len() implies (#[trigger] rm[k]).id != svcs[i].id by {
        let k0 = if k < i {
            k
        } else {
            k + 1
        };
        assert(rm[k] == svcs[k0]);
    }
}

} // verus!
