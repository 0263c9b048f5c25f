//! Utility functions: wall-clock reads, duration rendering, service-name
//! sanitising, TXT record parsing and printing, and validation helpers.

use vstd::prelude::*;

use crate::error::DiscoveryError;
use crate::strutil::{
    spec_dec, u64_to_dec, has_substring, contains_substr, spec_trim, trim_str, spec_split,
    spec_before_char, spec_after_char, lemma_before_after_at, lemma_before_after_none,
    lemma_split_at_sep, lemma_split_no_sep, lemma_split_len, find_char_from, str_eq,
};
use crate::types::{
    IpAddress, NetworkInterface, ServiceAttributes, spec_attr_insert,
};


verus! {

// ---------------------------------------------------------------------------
// Time
// ---------------------------------------------------------------------------

/// Seconds since the Unix epoch, by the system wall clock; zero when the
/// clock reads before the epoch.
///
/// Relies on `std::time::SystemTime::now` and `duration_since(UNIX_EPOCH)`:
/// the result depends on the clock, so nothing is promised of it.
#[verifier::external_body]
pub fn current_timestamp() -> u64 {
    std::time::SystemTime::now()
        .duration_since(std::time::UNIX_EPOCH)
        .unwrap_or(std::time::Duration::ZERO)
        .as_secs()
}

/// Milliseconds since the Unix epoch, by the system wall clock; zero when
/// the clock reads before the epoch.
///
/// Relies on `std::time::SystemTime::now` and `duration_since(UNIX_EPOCH)`:
/// the result depends on the clock, so nothing is promised of it.
#[verifier::external_body]
pub fn current_timestamp_millis() -> u64 {
    std::time::SystemTime::now()
        .duration_since(std::time::UNIX_EPOCH)
        .unwrap_or(std::time::Duration::ZERO)
        .as_millis() as u64
}

} // verus!

verus! {

/// Elapsed wall-clock time at `now_ms`, counting from `since_ms`; zero
/// when the clock reads earlier than the start.
pub open spec fn spec_elapsed(since_ms: u64, now_ms: u64) -> int {
    if now_ms >= since_ms {
        now_ms - since_ms
    } else {
        0
    }
}

/// Whether `duration_ms` has passed since `since_ms`, judged at `now_ms`.
pub fn has_elapsed_at(since_ms: u64, duration_ms: u64, now_ms: u64) -> (r: bool)
    ensures
        r == (spec_elapsed(since_ms, now_ms) >= duration_ms),
{
    if now_ms >= since_ms {
        now_ms - since_ms >= duration_ms
    } else {
        duration_ms == 0
    }
}

/// Whether `duration_ms` has passed since `since_ms`, by the system
/// clock.
pub fn has_elapsed(since_ms: u64, duration_ms: u64) -> (r: bool)
    ensures
        exists|now: u64| r == (spec_elapsed(since_ms, now) >= duration_ms),
{
    let now = current_timestamp_millis();
    has_elapsed_at(since_ms, duration_ms, now)
}

// ---------------------------------------------------------------------------
// Duration rendering
// ---------------------------------------------------------------------------

/// Three-digit zero-padded decimal for the millisecond part.
pub open spec fn spec_dec3(n: nat) -> Seq<char> {
    if n < 10 {
        seq!['0', '0'] + spec_dec(n)
    } else if n < 100 {
        seq!['0'] + spec_dec(n)
    } else {
        spec_dec(n)
    }
}

/// Human-readable rendering of a duration given in milliseconds:
/// `1h 1m 5s`, `1m 5s`, `5.000s`, or `500ms`, depending on size.
pub open spec fn spec_duration_string(ms: nat) -> Seq<char> {
    let total_secs = ms / 1000;
    let hours = total_secs / 3600;
    let minutes = (total_secs % 3600) / 60;
    let seconds = total_secs % 60;
    let millis = ms % 1000;
    if hours > 0 {
        spec_dec(hours) + "h "@ + spec_dec(minutes) + "m "@ + spec_dec(seconds) + "s"@
    } else if minutes > 0 {
        spec_dec(minutes) + "m "@ + spec_dec(seconds) + "s"@
    } else if seconds > 0 {
        spec_dec(seconds) + "."@ + spec_dec3(millis) + "s"@
    } else {
        spec_dec(ms) + "ms"@
    }
}

/// Exec twin of [`spec_duration_string`].
pub fn duration_to_string(duration_ms: u64) -> (r: String)
    ensures
        r@ == spec_duration_string(duration_ms as nat),
{
    let total_secs = duration_ms / 1000;
    let hours = total_secs / 3600;
    let minutes = (total_secs % 3600) / 60;
    let seconds = total_secs % 60;
    let millis = duration_ms % 1000;
    if hours > 0 {
        let mut out = u64_to_dec(hours);
        out.append("h ");
        let m = u64_to_dec(minutes);
        out.append(m.as_str());
        out.append("m ");
        let s = u64_to_dec(seconds);
        out.append(s.as_str());
        out.append("s");
        proof {
            assert(out@ =~= spec_duration_string(duration_ms as nat));
        }
        out
    } else if minutes > 0 {
        let mut out = u64_to_dec(minutes);
        out.append("m ");
        let s = u64_to_dec(seconds);
        out.append(s.as_str());
        out.append("s");
        proof {
            assert(out@ =~= spec_duration_string(duration_ms as nat));
        }
        out
    } else if seconds > 0 {
        let mut out = u64_to_dec(seconds);
        out.append(".");
        let frac: String = if millis < 10 {
            let mut f = "00".to_owned();
            let d = u64_to_dec(millis);
            f.append(d.as_str());
            proof {
                reveal_strlit("00");
                assert(f@ =~= spec_dec3(millis as nat));
            }
            f
        } else if millis < 100 {
            let mut f = "0".to_owned();
            let d = u64_to_dec(millis);
            f.append(d.as_str());
            proof {
                reveal_strlit("0");
                assert(f@ =~= spec_dec3(millis as nat));
            }
            f
        } else {
            u64_to_dec(millis)
        };
        out.append(frac.as_str());
        out.append("s");
        proof {
            assert(out@ =~= spec_duration_string(duration_ms as nat));
        }
        out
    } else {
        let mut out = u64_to_dec(duration_ms);
        out.append("ms");
        proof {
            assert(out@ =~= spec_duration_string(duration_ms as nat));
        }
        out
    }
}

// ---------------------------------------------------------------------------
// Service names and types
// ---------------------------------------------------------------------------

/// Whether a character counts as a Unicode letter or digit.  The result
/// of `char::is_alphanumeric`, a function of the character alone.
pub uninterp spec fn alphanumeric_char(c: char) -> bool;

/// Relies on `char::is_alphanumeric`: Unicode letter-or-digit
/// classification, depending on the character alone.
#[verifier::external_body]
fn char_is_alphanumeric(c: char) -> (r: bool)
    ensures
        r == alphanumeric_char(c),
{
    c.is_alphanumeric()
}

/// A name made safe for the wire: every character that is not
/// alphanumeric, `-`, `_` or `.` becomes `_`.
pub open spec fn spec_sanitized(s: Seq<char>) -> Seq<char> {
    Seq::new(
        s.len(),
        |i: int|
            if alphanumeric_char(s[i]) || s[i] == '-' || s[i] == '_' || s[i] == '.' {
                s[i]
            } else {
                '_'
            },
    )
}

/// Exec twin of [`spec_sanitized`].
pub fn sanitize_service_name(name: &str) -> (r: String)
    ensures
        r@ == spec_sanitized(name@),
{
    let n = name.unicode_len();
    let mut out = String::new();
    let mut i: usize = 0;
    while i < n
        invariant
            n == name@.len(),
            0 <= i <= n,
            out@ =~= spec_sanitized(name@).take(i as int),
        decreases n - i,
    {
        let c = name.get_char(i);
        if char_is_alphanumeric(c) || c == '-' || c == '_' || c == '.' {
            let piece = name.substring_char(i, i + 1);
            out.append(piece);
            proof {
                assert(piece@ =~= seq![name@[i as int]]);
                assert(out@ =~= spec_sanitized(name@).take(i + 1));
            }
        } else {
            out.append("_");
            proof {
                reveal_strlit("_");
                assert(out@ =~= spec_sanitized(name@).take(i + 1));
            }
        }
        i = i + 1;
    }
    proof {
        assert(spec_sanitized(name@).take(n as int) =~= spec_sanitized(name@));
    }
    out
}

/// A service type string is acceptable when it is non-empty, starts with
/// `_`, and mentions `._tcp` or `._udp`.
pub open spec fn spec_service_type_ok(s: Seq<char>) -> bool {
    &&& s.len() > 0
    &&& s[0] == '_'
    &&& (has_substring(s, "._tcp"@) || has_substring(s, "._udp"@))
}

/// Validate a service type string; see [`spec_service_type_ok`].
pub fn validate_service_type(service_type: &str) -> (r: Result<(), DiscoveryError>)
    ensures
        match r {
            Result::Ok(_) => spec_service_type_ok(service_type@),
            Result::Err(e) => e is InvalidData && !spec_service_type_ok(service_type@),
        },
{
    if service_type.unicode_len() == 0 {
        return Result::Err(
            DiscoveryError::invalid_service("Service type cannot be empty".to_owned()),
        );
    }
    if service_type.get_char(0) != '_' {
        return Result::Err(
            DiscoveryError::invalid_service(
                "Service type must start with underscore".to_owned(),
            ),
        );
    }
    if !contains_substr(service_type, "._tcp") && !contains_substr(service_type, "._udp") {
        return Result::Err(
            DiscoveryError::invalid_service(
                "Service type must contain ._tcp or ._udp".to_owned(),
            ),
        );
    }
    Result::Ok(())
}

// ---------------------------------------------------------------------------
// Port and timeout validation
// ---------------------------------------------------------------------------

/// A port is valid when it is not zero.
pub fn validate_port(port: u16) -> (r: Result<(), DiscoveryError>)
    ensures
        match r {
            Result::Ok(_) => port != 0,
            Result::Err(e) => e is InvalidData && port == 0,
        },
{
    if port == 0 {
        return Result::Err(DiscoveryError::invalid_service("Port cannot be zero".to_owned()));
    }
    Result::Ok(())
}

/// A timeout is valid when it is not zero (milliseconds).
pub fn validate_timeout(timeout_ms: u64) -> (r: Result<(), DiscoveryError>)
    ensures
        match r {
            Result::Ok(_) => timeout_ms != 0,
            Result::Err(e) => e is InvalidData && timeout_ms == 0,
        },
{
    if timeout_ms == 0 {
        return Result::Err(
            DiscoveryError::invalid_service("Timeout cannot be zero".to_owned()),
        );
    }
    Result::Ok(())
}

} // verus!

verus! {

// ---------------------------------------------------------------------------
// TXT records
// ---------------------------------------------------------------------------

/// One `key=value` piece of a TXT record: cut at the first `=`, both
/// sides trimmed; a piece without `=` is a bare key with an empty value.
pub open spec fn spec_txt_pair(p: Seq<char>) -> (Seq<char>, Seq<char>) {
    if p.contains('=') {
        (spec_trim(spec_before_char(p, '=')), spec_trim(spec_after_char(p, '=')))
    } else {
        (spec_trim(p), Seq::<char>::empty())
    }
}

/// The attribute set built from the pieces, inserted left to right.
pub open spec fn spec_txt_fold(
    acc: Seq<(Seq<char>, Seq<char>)>,
    parts: Seq<Seq<char>>,
) -> Seq<(Seq<char>, Seq<char>)>
    decreases parts.len(),
{
    if parts.len() == 0 {
        acc
    } else {
        spec_txt_fold(
            spec_attr_insert(acc, spec_txt_pair(parts[0]).0, spec_txt_pair(parts[0]).1),
            parts.drop_first(),
        )
    }
}

/// Parse a TXT record string: pieces cut at `;`, each piece cut at its
/// first `=`, keys and values trimmed, later keys replacing earlier ones.
pub fn parse_txt_record(txt_data: &str) -> (r: ServiceAttributes)
    ensures
        r@ == spec_txt_fold(
            Seq::<(Seq<char>, Seq<char>)>::empty(),
            spec_split(txt_data@, ';'),
        ),
{
    let n = txt_data.unicode_len();
    let mut attrs = ServiceAttributes::new();
    let mut pos: usize = 0;
    proof {
        assert(txt_data@.subrange(0, n as int) =~= txt_data@);
        assert(attrs@ =~= Seq::<(Seq<char>, Seq<char>)>::empty());
    }
    loop
        invariant
            n == txt_data@.len(),
            0 <= pos <= n,
            spec_txt_fold(attrs@, spec_split(txt_data@.subrange(pos as int, n as int), ';'))
                == spec_txt_fold(
                Seq::<(Seq<char>, Seq<char>)>::empty(),
                spec_split(txt_data@, ';'),
            ),
        decreases n - pos,
    {
        let e = find_char_from(txt_data, ';', pos);
        let piece = txt_data.substring_char(pos, e);
        let ghost remaining = txt_data@.subrange(pos as int, n as int);
        proof {
            assert(!piece@.contains(';')) by {
                assert(forall|j: int|
                    0 <= j < piece@.len() ==> piece@[j] == txt_data@[pos + j] && txt_data@[pos
                        + j] != ';');
            }
            if e < n {
                let rest = txt_data@.subrange(e + 1, n as int);
                assert(piece@ + seq![';'] + rest =~= remaining);
                lemma_split_at_sep(piece@, rest, ';');
                lemma_split_len(rest, ';');
                assert(spec_split(remaining, ';')[0] == piece@);
                assert(spec_split(remaining, ';').drop_first() =~~= spec_split(rest, ';'));
            } else {
                lemma_split_no_sep(piece@, ';');
                assert(piece@ =~= remaining);
                assert(spec_split(remaining, ';') =~~= seq![piece@]);
                assert(spec_split(remaining, ';')[0] == piece@);
                assert(spec_split(remaining, ';').drop_first() =~~= Seq::<Seq<char>>::empty());
            }
        }
        let pn = piece.unicode_len();
        let eq = find_char_from(piece, '=', 0);
        if eq < pn {
            let key = trim_str(piece.substring_char(0, eq));
            let value = trim_str(piece.substring_char(eq + 1, pn));
            proof {
                lemma_before_after_at(piece@, '=', eq as int);
                assert(piece@.contains('='));
            }
            attrs.insert(key.to_owned(), value.to_owned());
        } else {
            let key = trim_str(piece);
            proof {
                assert(forall|j: int| 0 <= j < piece@.len() ==> piece@[j] != '=');
                lemma_before_after_none(piece@, '=');
                assert(!piece@.contains('='));
            }
            attrs.insert(key.to_owned(), String::new());
        }
        if e == n {
            proof {
                assert(spec_txt_fold(
                    attrs@,
                    spec_split(
                        txt_data@.subrange(n as int, n as int),
                        ';',
                    ).drop_first(),
                ) == spec_txt_fold(attrs@, Seq::<Seq<char>>::empty()));
            }
            return attrs;
        }
        pos = e + 1;
    }
}

/// The TXT rendering of one pair: the key alone when the value is empty,
/// `key=value` otherwise.
pub open spec fn spec_txt_render(p: (Seq<char>, Seq<char>)) -> Seq<char> {
    if p.1.len() == 0 {
        p.0
    } else {
        p.0 + seq!['='] + p.1
    }
}

/// The pairs rendered and joined with `;`.
pub open spec fn spec_txt_format(pairs: Seq<(Seq<char>, Seq<char>)>) -> Seq<char>
    decreases pairs.len(),
{
    if pairs.len() == 0 {
        Seq::empty()
    } else if pairs.len() == 1 {
        spec_txt_render(pairs[0])
    } else {
        spec_txt_render(pairs[0]) + seq![';'] + spec_txt_format(pairs.drop_first())
    }
}

proof fn lemma_txt_format_push(pairs: Seq<(Seq<char>, Seq<char>)>, p: (Seq<char>, Seq<char>))
    ensures
        pairs.len() == 0 ==> spec_txt_format(pairs.push(p)) == spec_txt_render(p),
        pairs.len() > 0 ==> spec_txt_format(pairs.push(p)) =~= spec_txt_format(pairs)
            + seq![';'] + spec_txt_render(p),
    decreases pairs.len(),
{
    if pairs.len() == 0 {
        assert(pairs.push(p)[0] == p);
    } else {
        lemma_txt_format_push(pairs.drop_first(), p);
        assert(pairs.push(p).drop_first() =~= pairs.drop_first().push(p));
        assert(pairs.push(p)[0] == pairs[0]);
    }
}

/// Render an attribute set as a TXT record string, in stored order.
pub fn format_txt_record(attributes: &ServiceAttributes) -> (r: String)
    ensures
        r@ == spec_txt_format(attributes@),
{
    let pairs = attributes.as_pairs();
    let mut out = String::new();
    let mut i: usize = 0;
    proof {
        assert(attributes@.take(0) =~= Seq::<(Seq<char>, Seq<char>)>::empty());
    }
    while i < pairs.len()
        invariant
            pairs@.len() == attributes@.len(),
            forall|j: int|
                0 <= j < pairs@.len() ==> (#[trigger] pairs@[j]).0@ == attributes@[j].0
                    && pairs@[j].1@ == attributes@[j].1,
            0 <= i <= pairs@.len(),
            out@ == spec_txt_format(attributes@.take(i as int)),
        decreases pairs@.len() - i,
    {
        let ghost pre = out@;
        if i > 0 {
            out.append(";");
        }
        out.append(pairs[i].0.as_str());
        if pairs[i].1.as_str().unicode_len() > 0 {
            out.append("=");
            out.append(pairs[i].1.as_str());
        }
        proof {
            reveal_strlit(";");
            reveal_strlit("=");
            assert(attributes@.take(i + 1).drop_last() =~= attributes@.take(i as int));
            lemma_txt_format_push(attributes@.take(i as int), attributes@[i as int]);
            assert(attributes@.take(i + 1) =~= attributes@.take(i as int).push(
                attributes@[i as int],
            ));
            if i == 0 {
                assert(out@ =~= spec_txt_render(attributes@[0]));
            } else {
                assert(out@ =~= pre + seq![';'] + spec_txt_render(attributes@[i as int]));
            }
            assert(out@ =~= spec_txt_format(attributes@.take(i + 1)));
        }
        i = i + 1;
    }
    proof {
        assert(attributes@.take(attributes@.len() as int) =~= attributes@);
    }
    out
}

// ---------------------------------------------------------------------------
// Addresses
// ---------------------------------------------------------------------------

/// Whether an address lies in a private or link-local range.
pub open spec fn spec_is_private_ip(ip: IpAddress) -> bool {
    match ip {
        IpAddress::V4(a) => a.0 == 10 || (a.0 == 172 && 16 <= a.1 && a.1 <= 31) || (a.0 == 192
            && a.1 == 168) || a.0 == 127,
        IpAddress::V6(a) => (a.0 & 0xffc0) == 0xfe80 || (a.0 == 0 && a.1 == 0 && a.2 == 0 && a.3
            == 0 && a.4 == 0 && a.5 == 0 && a.6 == 0 && a.7 == 1) || (a.0 & 0xfe00) == 0xfc00,
    }
}

/// Exec twin of [`spec_is_private_ip`].
pub fn is_private_ip(ip: &IpAddress) -> (r: bool)
    ensures
        r == spec_is_private_ip(*ip),
{
    match ip {
        IpAddress::V4(a) => a.0 == 10 || (a.0 == 172 && 16 <= a.1 && a.1 <= 31) || (a.0 == 192
            && a.1 == 168) || a.0 == 127,
        IpAddress::V6(a) => (a.0 & 0xffc0) == 0xfe80 || (a.0 == 0 && a.1 == 0 && a.2 == 0 && a.3
            == 0 && a.4 == 0 && a.5 == 0 && a.6 == 0 && a.7 == 1) || (a.0 & 0xfe00) == 0xfc00,
    }
}

/// Whether an address is a loopback address.
pub open spec fn spec_is_loopback_ip(ip: IpAddress) -> bool {
    match ip {
        IpAddress::V4(a) => a.0 == 127,
        IpAddress::V6(a) => a.0 == 0 && a.1 == 0 && a.2 == 0 && a.3 == 0 && a.4 == 0 && a.5 == 0
            && a.6 == 0 && a.7 == 1,
    }
}

/// Exec twin of [`spec_is_loopback_ip`].
pub fn is_loopback_ip(ip: &IpAddress) -> (r: bool)
    ensures
        r == spec_is_loopback_ip(*ip),
{
    match ip {
        IpAddress::V4(a) => a.0 == 127,
        IpAddress::V6(a) => a.0 == 0 && a.1 == 0 && a.2 == 0 && a.3 == 0 && a.4 == 0 && a.5 == 0
            && a.6 == 0 && a.7 == 1,
    }
}

/// An address is usable for discovery unless it is unspecified (all
/// zero) or, for IPv4, the broadcast address.
pub open spec fn spec_ip_usable(ip: IpAddress) -> bool {
    match ip {
        IpAddress::V4(a) => !(a.0 == 0 && a.1 == 0 && a.2 == 0 && a.3 == 0) && !(a.0 == 255
            && a.1 == 255 && a.2 == 255 && a.3 == 255),
        IpAddress::V6(a) => !(a.0 == 0 && a.1 == 0 && a.2 == 0 && a.3 == 0 && a.4 == 0 && a.5
            == 0 && a.6 == 0 && a.7 == 0),
    }
}

/// Validate an address; see [`spec_ip_usable`].
pub fn validate_ip_address(ip: &IpAddress) -> (r: Result<(), DiscoveryError>)
    ensures
        match r {
            Result::Ok(_) => spec_ip_usable(*ip),
            Result::Err(e) => e is InvalidData && !spec_ip_usable(*ip),
        },
{
    match ip {
        IpAddress::V4(a) => {
            if a.0 == 0 && a.1 == 0 && a.2 == 0 && a.3 == 0 {
                return Result::Err(
                    DiscoveryError::invalid_service(
                        "IPv4 address cannot be unspecified (0.0.0.0)".to_owned(),
                    ),
                );
            }
            if a.0 == 255 && a.1 == 255 && a.2 == 255 && a.3 == 255 {
                return Result::Err(
                    DiscoveryError::invalid_service(
                        "IPv4 address cannot be broadcast (255.255.255.255)".to_owned(),
                    ),
                );
            }
        },
        IpAddress::V6(a) => {
            if a.0 == 0 && a.1 == 0 && a.2 == 0 && a.3 == 0 && a.4 == 0 && a.5 == 0 && a.6 == 0
                && a.7 == 0 {
                return Result::Err(
                    DiscoveryError::invalid_service(
                        "IPv6 address cannot be unspecified (::)".to_owned(),
                    ),
                );
            }
        },
    }
    Result::Ok(())
}

// ---------------------------------------------------------------------------
// Interface lists
// ---------------------------------------------------------------------------

/// The interfaces that are up and support multicast, in order.
pub fn get_multicast_interfaces(interfaces: Vec<NetworkInterface>) -> (r: Vec<NetworkInterface>)
    ensures
        forall|i: int|
            0 <= i < r@.len() ==> (#[trigger] r@[i]).is_up && r@[i].supports_multicast,
        r@.len() <= interfaces@.len(),
{
    let mut out: Vec<NetworkInterface> = Vec::new();
    let mut i: usize = 0;
    while i < interfaces.len()
        invariant
            0 <= i <= interfaces@.len(),
            out@.len() <= i,
            forall|j: int|
                0 <= j < out@.len() ==> (#[trigger] out@[j]).is_up
                    && out@[j].supports_multicast,
        decreases interfaces@.len() - i,
    {
        if interfaces[i].is_up && interfaces[i].supports_multicast {
            out.push(interfaces[i].clone());
        }
        i = i + 1;
    }
    out
}

/// The addresses of the named interface; fails when the list holds no
/// interface of that name.
pub fn get_interface_addresses(
    interfaces: &Vec<NetworkInterface>,
    interface_name: &str,
) -> (r: Result<Vec<IpAddress>, DiscoveryError>)
    ensures
        match r {
            Result::Ok(_) => exists|i: int|
                0 <= i < interfaces@.len() && (#[trigger] interfaces@[i]).name@
                    == interface_name@,
            Result::Err(e) => e is Other && forall|i: int|
                0 <= i < interfaces@.len() ==> (#[trigger] interfaces@[i]).name@
                    != interface_name@,
        },
{
    let mut i: usize = 0;
    while i < interfaces.len()
        invariant
            0 <= i <= interfaces@.len(),
            forall|j: int|
                0 <= j < i ==> (#[trigger] interfaces@[j]).name@ != interface_name@,
        decreases interfaces@.len() - i,
    {
        if str_eq(interfaces[i].name.as_str(), interface_name) {
            proof {
                assert(interfaces@[i as int].name@ == interface_name@);
            }
            return Result::Ok(interfaces[i].all_addresses());
        }
        i = i + 1;
    }
    Result::Err(DiscoveryError::other("Interface not found".to_owned()))
}

} // verus!
