//! Verified helpers for the character-level work the wire formats need:
//! prefix and suffix tests, substring search, splitting on a separator,
//! trimming, and decimal / hexadecimal printing.

use vstd::prelude::*;

verus! {

// ---------------------------------------------------------------------------
// Character classes
// ---------------------------------------------------------------------------

/// Whitespace as the wire formats use it: space, tab, and the line ends.
pub open spec fn is_space_char(c: char) -> bool {
    c == ' ' || c == '\t' || c == '\r' || c == '\n'
}

/// ASCII lower-casing of a single character; anything outside `A..Z` is kept.
pub open spec fn lower_char(c: char) -> char {
    if 65 <= c as u32 && c as u32 <= 90 {
        ((c as u8) + 32) as char
    } else {
        c
    }
}

/// Exec twin of [`lower_char`].
pub fn to_lower_char(c: char) -> (r: char)
    ensures
        r == lower_char(c),
{
    let u = c as u32;
    if 65 <= u && u <= 90 {
        ((c as u8) + 32) as char
    } else {
        c
    }
}

pub fn is_space(c: char) -> (r: bool)
    ensures
        r == is_space_char(c),
{
    c == ' ' || c == '\t' || c == '\r' || c == '\n'
}

// ---------------------------------------------------------------------------
// Prefixes, suffixes, substrings
// ---------------------------------------------------------------------------

pub open spec fn has_prefix(s: Seq<char>, p: Seq<char>) -> bool {
    p.len() <= s.len() && s.subrange(0, p.len() as int) == p
}

pub open spec fn has_suffix(s: Seq<char>, p: Seq<char>) -> bool {
    p.len() <= s.len() && s.subrange(s.len() - p.len(), s.len() as int) == p
}

/// `p` occurs, ASCII case-insensitively, at the start of `s`.
pub open spec fn ci_has_prefix(s: Seq<char>, p: Seq<char>) -> bool {
    p.len() <= s.len() && forall|i: int|
        0 <= i < p.len() ==> lower_char(s[i]) == lower_char(p[i])
}

pub open spec fn has_substring_at(s: Seq<char>, sub: Seq<char>, i: int) -> bool {
    0 <= i && i + sub.len() <= s.len() && s.subrange(i, i + sub.len() as int) == sub
}

pub open spec fn has_substring(s: Seq<char>, sub: Seq<char>) -> bool {
    exists|i: int| has_substring_at(s, sub, i)
}

pub fn str_eq(a: &str, b: &str) -> (r: bool)
    ensures
        r == (a@ == b@),
{
    let an = a.unicode_len();
    let bn = b.unicode_len();
    if an != bn {
        return false;
    }
    let mut i: usize = 0;
    while i < an
        invariant
            an == a@.len(),
            an == b@.len(),
            0 <= i <= an,
            forall|j: int| 0 <= j < i ==> a@[j] == b@[j],
        decreases an - i,
    {
        if a.get_char(i) != b.get_char(i) {
            return false;
        }
        i = i + 1;
    }
    proof {
        assert(a@ =~= b@);
    }
    true
}

pub fn starts_with(s: &str, p: &str) -> (r: bool)
    ensures
        r == has_prefix(s@, p@),
{
    let sn = s.unicode_len();
    let pn = p.unicode_len();
    if pn > sn {
        return false;
    }
    let mut i: usize = 0;
    while i < pn
        invariant
            sn == s@.len(),
            pn == p@.len(),
            pn <= sn,
            0 <= i <= pn,
            forall|j: int| 0 <= j < i ==> s@[j] == p@[j],
        decreases pn - i,
    {
        if s.get_char(i) != p.get_char(i) {
            proof {
                assert(s@.subrange(0, p@.len() as int)[i as int] == s@[i as int]);
            }
            return false;
        }
        i = i + 1;
    }
    proof {
        assert(s@.subrange(0, p@.len() as int) =~= p@);
    }
    true
}

pub fn ends_with(s: &str, p: &str) -> (r: bool)
    ensures
        r == has_suffix(s@, p@),
{
    let sn = s.unicode_len();
    let pn = p.unicode_len();
    if pn > sn {
        return false;
    }
    let off = sn - pn;
    let mut i: usize = 0;
    while i < pn
        invariant
            sn == s@.len(),
            pn == p@.len(),
            pn <= sn,
            off == sn - pn,
            0 <= i <= pn,
            forall|j: int| 0 <= j < i ==> s@[off + j] == p@[j],
        decreases pn - i,
    {
        if s.get_char(off + i) != p.get_char(i) {
            proof {
                assert(s@.subrange(s@.len() - p@.len(), s@.len() as int)[i as int]
                    == s@[off + i]);
            }
            return false;
        }
        i = i + 1;
    }
    proof {
        assert(s@.subrange(s@.len() - p@.len(), s@.len() as int) =~= p@);
    }
    true
}

/// `p` occurs, ASCII case-insensitively, at the start of `s`.
pub fn starts_with_ci(s: &str, p: &str) -> (r: bool)
    ensures
        r == ci_has_prefix(s@, p@),
{
    let sn = s.unicode_len();
    let pn = p.unicode_len();
    if pn > sn {
        return false;
    }
    let mut i: usize = 0;
    while i < pn
        invariant
            sn == s@.len(),
            pn == p@.len(),
            pn <= sn,
            0 <= i <= pn,
            forall|j: int| 0 <= j < i ==> lower_char(s@[j]) == lower_char(p@[j]),
        decreases pn - i,
    {
        if to_lower_char(s.get_char(i)) != to_lower_char(p.get_char(i)) {
            return false;
        }
        i = i + 1;
    }
    true
}

/// First index `>= from` holding `c`; `s@.len()` when there is none.
pub fn find_char_from(s: &str, c: char, from: usize) -> (r: usize)
    requires
        from <= s@.len(),
    ensures
        from <= r <= s@.len(),
        r < s@.len() ==> s@[r as int] == c,
        forall|j: int| from <= j < r ==> s@[j] != c,
{
    let n = s.unicode_len();
    let mut i: usize = from;
    while i < n
        invariant
            n == s@.len(),
            from <= i <= n,
            forall|j: int| from <= j < i ==> s@[j] != c,
        decreases n - i,
    {
        if s.get_char(i) == c {
            return i;
        }
        i = i + 1;
    }
    n
}

pub fn contains_char(s: &str, c: char) -> (r: bool)
    ensures
        r == (exists|j: int| 0 <= j < s@.len() && s@[j] == c),
{
    let n = s.unicode_len();
    let i = find_char_from(s, c, 0);
    i < n
}

/// Whether `sub` occurs anywhere inside `s`.
pub fn contains_substr(s: &str, sub: &str) -> (r: bool)
    ensures
        r == has_substring(s@, sub@),
{
    let sn = s.unicode_len();
    let subn = sub.unicode_len();
    if subn > sn {
        return false;
    }
    if subn == 0 {
        proof {
            assert(s@.subrange(0, 0) =~= sub@);
            assert(has_substring_at(s@, sub@, 0));
        }
        return true;
    }
    let mut i: usize = 0;
    while i <= sn - subn
        invariant
            sn == s@.len(),
            subn == sub@.len(),
            1 <= subn <= sn,
            0 <= i <= sn - subn + 1,
            forall|k: int| 0 <= k < i ==> !has_substring_at(s@, sub@, k),
        decreases sn - subn + 1 - i,
    {
        let piece = s.substring_char(i, i + subn);
        if str_eq(piece, sub) {
            proof {
                assert(has_substring_at(s@, sub@, i as int));
            }
            return true;
        }
        proof {
            assert(s@.subrange(i as int, i + subn as int) == piece@);
        }
        i = i + 1;
    }
    proof {
        assert forall|k: int| !has_substring_at(s@, sub@, k) by {
            if 0 <= k && k + sub@.len() <= s@.len() {
                assert(!has_substring_at(s@, sub@, k));
            }
        }
    }
    false
}

} // verus!

verus! {

// ---------------------------------------------------------------------------
// Splitting on a separator and joining back
// ---------------------------------------------------------------------------

/// Mirror of `str::split` on a single-character separator: the input is cut
/// at every occurrence of `sep`, and the pieces between the cuts are kept,
/// empty pieces included.
pub open spec fn spec_split(s: Seq<char>, sep: char) -> Seq<Seq<char>>
    decreases s.len(),
{
    if s.len() == 0 {
        seq![Seq::<char>::empty()]
    } else if s[0] == sep {
        seq![Seq::<char>::empty()] + spec_split(s.drop_first(), sep)
    } else {
        let rest = spec_split(s.drop_first(), sep);
        seq![seq![s[0]] + rest[0]] + rest.drop_first()
    }
}

/// The pieces glued back together with `sep` between them.
pub open spec fn spec_join(parts: Seq<Seq<char>>, sep: char) -> Seq<char>
    decreases parts.len(),
{
    if parts.len() == 0 {
        Seq::empty()
    } else if parts.len() == 1 {
        parts[0]
    } else {
        parts[0] + seq![sep] + spec_join(parts.drop_first(), sep)
    }
}

pub proof fn lemma_split_len(s: Seq<char>, sep: char)
    ensures
        spec_split(s, sep).len() >= 1,
    decreases s.len(),
{
    if s.len() == 0 {
    } else {
        lemma_split_len(s.drop_first(), sep);
    }
}

/// No piece of a split contains the separator.
pub proof fn lemma_split_parts_free(s: Seq<char>, sep: char)
    ensures
        forall|i: int|
            0 <= i < spec_split(s, sep).len() ==> !spec_split(s, sep)[i].contains(sep),
    decreases s.len(),
{
    if s.len() == 0 {
        assert forall|i: int|
            0 <= i < spec_split(s, sep).len() implies !spec_split(s, sep)[i].contains(
            sep,
        ) by {
            assert(spec_split(s, sep)[i].len() == 0);
        }
    } else if s[0] == sep {
        lemma_split_parts_free(s.drop_first(), sep);
        assert forall|i: int|
            0 <= i < spec_split(s, sep).len() implies !spec_split(s, sep)[i].contains(
            sep,
        ) by {
            if i > 0 {
                assert(spec_split(s, sep)[i] == spec_split(s.drop_first(), sep)[i - 1]);
            } else {
                assert(spec_split(s, sep)[0].len() == 0);
            }
        }
    } else {
        lemma_split_parts_free(s.drop_first(), sep);
        lemma_split_len(s.drop_first(), sep);
        let rest = spec_split(s.drop_first(), sep);
        assert forall|i: int|
            0 <= i < spec_split(s, sep).len() implies !spec_split(s, sep)[i].contains(
            sep,
        ) by {
            if i == 0 {
                let head = seq![s[0]] + rest[0];
                assert(!rest[0].contains(sep));
                assert forall|k: int| 0 <= k < head.len() implies head[k] != sep by {
                    if k > 0 {
                        assert(head[k] == rest[0][k - 1]);
                        assert(!rest[0].contains(sep));
                    }
                }
            } else {
                assert(spec_split(s, sep)[i] == rest[i]);
            }
        }
    }
}

/// A string without the separator splits into itself alone.
pub proof fn lemma_split_no_sep(s: Seq<char>, sep: char)
    requires
        !s.contains(sep),
    ensures
        spec_split(s, sep) =~~= seq![s],
    decreases s.len(),
{
    if s.len() == 0 {
    } else {
        assert(s[0] != sep);
        assert(!s.drop_first().contains(sep)) by {
            assert forall|k: int| 0 <= k < s.drop_first().len() implies s.drop_first()[k]
                != sep by {
                assert(s.drop_first()[k] == s[k + 1]);
            }
        }
        lemma_split_no_sep(s.drop_first(), sep);
        assert(seq![s[0]] + s.drop_first() =~= s);
    }
}

/// Splitting a string that starts with a separator-free piece, then the
/// separator, peels off exactly that piece.
pub proof fn lemma_split_at_sep(a: Seq<char>, b: Seq<char>, sep: char)
    requires
        !a.contains(sep),
    ensures
        spec_split(a + seq![sep] + b, sep) =~~= seq![a] + spec_split(b, sep),
    decreases a.len(),
{
    let s = a + seq![sep] + b;
    if a.len() == 0 {
        assert(s =~= seq![sep] + b);
        assert(s[0] == sep);
        assert(s.drop_first() =~= b);
    } else {
        assert(s[0] == a[0]);
        assert(a[0] != sep);
        assert(!a.drop_first().contains(sep)) by {
            assert forall|k: int| 0 <= k < a.drop_first().len() implies a.drop_first()[k]
                != sep by {
                assert(a.drop_first()[k] == a[k + 1]);
            }
        }
        lemma_split_at_sep(a.drop_first(), b, sep);
        lemma_split_len(b, sep);
        assert(s.drop_first() =~= a.drop_first() + seq![sep] + b);
        let rest = spec_split(s.drop_first(), sep);
        assert(rest =~~= seq![a.drop_first()] + spec_split(b, sep));
        assert(rest[0] == a.drop_first());
        assert(seq![s[0]] + rest[0] =~= a);
        assert(rest.drop_first() =~~= spec_split(b, sep));
    }
}

/// Joining the pieces of a split gives the string back.
pub proof fn lemma_join_split(s: Seq<char>, sep: char)
    ensures
        spec_join(spec_split(s, sep), sep) =~= s,
    decreases s.len(),
{
    if s.len() == 0 {
    } else if s[0] == sep {
        lemma_join_split(s.drop_first(), sep);
        lemma_split_len(s.drop_first(), sep);
        let parts = spec_split(s, sep);
        assert(parts.len() >= 2);
        assert(parts.drop_first() =~~= spec_split(s.drop_first(), sep));
        assert(spec_join(parts, sep) =~= parts[0] + seq![sep] + spec_join(
            parts.drop_first(),
            sep,
        ));
        assert(seq![sep] + s.drop_first() =~= s);
    } else {
        lemma_join_split(s.drop_first(), sep);
        lemma_split_len(s.drop_first(), sep);
        let rest = spec_split(s.drop_first(), sep);
        let parts = spec_split(s, sep);
        if rest.len() == 1 {
            assert(parts =~~= seq![seq![s[0]] + rest[0]]);
            assert(spec_join(parts, sep) == seq![s[0]] + rest[0]);
            assert(spec_join(rest, sep) == rest[0]);
            assert(seq![s[0]] + s.drop_first() =~= s);
        } else {
            assert(parts.len() >= 2);
            assert(parts[0] == seq![s[0]] + rest[0]);
            assert(parts.drop_first() =~~= rest.drop_first());
            assert(spec_join(parts, sep) =~= parts[0] + seq![sep] + spec_join(
                rest.drop_first(),
                sep,
            ));
            assert(spec_join(rest, sep) =~= rest[0] + seq![sep] + spec_join(
                rest.drop_first(),
                sep,
            ));
            assert(seq![s[0]] + spec_join(rest, sep) =~= spec_join(parts, sep));
            assert(seq![s[0]] + s.drop_first() =~= s);
        }
    }
}

/// Splitting a join of separator-free pieces gives the pieces back.
pub proof fn lemma_split_join(parts: Seq<Seq<char>>, sep: char)
    requires
        parts.len() >= 1,
        forall|i: int| 0 <= i < parts.len() ==> !parts[i].contains(sep),
    ensures
        spec_split(spec_join(parts, sep), sep) =~~= parts,
    decreases parts.len(),
{
    if parts.len() == 1 {
        lemma_split_no_sep(parts[0], sep);
    } else {
        assert(forall|i: int|
            0 <= i < parts.drop_first().len() ==> !parts.drop_first()[i].contains(sep));
        lemma_split_join(parts.drop_first(), sep);
        lemma_split_at_sep(parts[0], spec_join(parts.drop_first(), sep), sep);
    }
}

} // verus!

verus! {

// ---------------------------------------------------------------------------
// Trimming
// ---------------------------------------------------------------------------

/// The input with leading and trailing whitespace removed.
pub open spec fn spec_trim(s: Seq<char>) -> Seq<char>
    decreases s.len(),
{
    if s.len() == 0 {
        s
    } else if is_space_char(s[0]) {
        spec_trim(s.drop_first())
    } else if is_space_char(s[s.len() - 1]) {
        spec_trim(s.drop_last())
    } else {
        s
    }
}

proof fn lemma_trim_all_space(s: Seq<char>)
    requires
        forall|k: int| 0 <= k < s.len() ==> is_space_char(s[k]),
    ensures
        spec_trim(s) =~= Seq::<char>::empty(),
    decreases s.len(),
{
    if s.len() > 0 {
        assert(forall|k: int|
            0 <= k < s.drop_first().len() ==> is_space_char(#[trigger] s.drop_first()[k]));
        lemma_trim_all_space(s.drop_first());
    }
}

proof fn lemma_trim_range(s: Seq<char>, i: int, j: int)
    requires
        0 <= i <= j < s.len(),
        forall|k: int| 0 <= k < i ==> is_space_char(s[k]),
        forall|k: int| j < k < s.len() ==> is_space_char(s[k]),
        !is_space_char(s[i]),
        !is_space_char(s[j]),
    ensures
        spec_trim(s) =~= s.subrange(i, j + 1),
    decreases s.len(),
{
    if i > 0 {
        assert(is_space_char(s[0]));
        let t = s.drop_first();
        assert(forall|k: int| 0 <= k < i - 1 ==> is_space_char(#[trigger] t[k]));
        assert(forall|k: int| j - 1 < k < t.len() ==> is_space_char(#[trigger] t[k]));
        assert(t[i - 1] == s[i]);
        assert(t[j - 1] == s[j]);
        lemma_trim_range(t, i - 1, j - 1);
        assert(t.subrange(i - 1, j) =~= s.subrange(i, j + 1));
    } else if j < s.len() - 1 {
        assert(is_space_char(s[s.len() - 1]));
        let t = s.drop_last();
        assert(forall|k: int| j < k < t.len() ==> is_space_char(#[trigger] t[k]));
        lemma_trim_range(t, i, j);
        assert(t.subrange(i, j + 1) =~= s.subrange(i, j + 1));
    } else {
        assert(s.subrange(0, j + 1) =~= s);
    }
}

/// Exec twin of [`spec_trim`].
pub fn trim_str<'a>(s: &'a str) -> (r: &'a str)
    ensures
        r@ == spec_trim(s@),
{
    let n = s.unicode_len();
    let mut i: usize = 0;
    while i < n && is_space(s.get_char(i))
        invariant
            n == s@.len(),
            0 <= i <= n,
            forall|k: int| 0 <= k < i ==> is_space_char(s@[k]),
        decreases n - i,
    {
        i = i + 1;
    }
    if i == n {
        proof {
            lemma_trim_all_space(s@);
        }
        let r = s.substring_char(0, 0);
        proof {
            assert(r@ =~= Seq::<char>::empty());
        }
        return r;
    }
    let mut j: usize = n - 1;
    while j > i && is_space(s.get_char(j))
        invariant
            n == s@.len(),
            0 <= i <= j < n,
            forall|k: int| j < k < n ==> is_space_char(s@[k]),
        decreases j,
    {
        j = j - 1;
    }
    if is_space(s.get_char(j)) {
        // only possible when j == i, contradicting the first loop's exit
        proof {
            assert(!is_space_char(s@[i as int]));
        }
    }
    proof {
        lemma_trim_range(s@, i as int, j as int);
    }
    s.substring_char(i, j + 1)
}

// ---------------------------------------------------------------------------
// Decimal and hexadecimal printing
// ---------------------------------------------------------------------------

pub open spec fn dec_digit(d: nat) -> char {
    if d == 0 {
        '0'
    } else if d == 1 {
        '1'
    } else if d == 2 {
        '2'
    } else if d == 3 {
        '3'
    } else if d == 4 {
        '4'
    } else if d == 5 {
        '5'
    } else if d == 6 {
        '6'
    } else if d == 7 {
        '7'
    } else if d == 8 {
        '8'
    } else {
        '9'
    }
}

pub open spec fn hex_digit(d: nat) -> char {
    if d < 10 {
        dec_digit(d)
    } else if d == 10 {
        'a'
    } else if d == 11 {
        'b'
    } else if d == 12 {
        'c'
    } else if d == 13 {
        'd'
    } else if d == 14 {
        'e'
    } else {
        'f'
    }
}

/// The usual decimal rendering, most significant digit first, no leading
/// zeros (except for zero itself).
pub open spec fn spec_dec(n: nat) -> Seq<char>
    decreases n,
{
    if n < 10 {
        seq![dec_digit(n)]
    } else {
        spec_dec(n / 10) + seq![dec_digit(n % 10)]
    }
}

/// Lower-case hexadecimal rendering without leading zeros.
pub open spec fn spec_hex(n: nat) -> Seq<char>
    decreases n,
{
    if n < 16 {
        seq![hex_digit(n)]
    } else {
        spec_hex(n / 16) + seq![hex_digit(n % 16)]
    }
}

fn dec_digit_str(d: u64) -> (r: &'static str)
    requires
        d < 10,
    ensures
        r@ =~= seq![dec_digit(d as nat)],
{
    proof {
        reveal_strlit("0");
        reveal_strlit("1");
        reveal_strlit("2");
        reveal_strlit("3");
        reveal_strlit("4");
        reveal_strlit("5");
        reveal_strlit("6");
        reveal_strlit("7");
        reveal_strlit("8");
        reveal_strlit("9");
    }
    if d == 0 {
        "0"
    } else if d == 1 {
        "1"
    } else if d == 2 {
        "2"
    } else if d == 3 {
        "3"
    } else if d == 4 {
        "4"
    } else if d == 5 {
        "5"
    } else if d == 6 {
        "6"
    } else if d == 7 {
        "7"
    } else if d == 8 {
        "8"
    } else {
        "9"
    }
}

fn hex_digit_str(d: u64) -> (r: &'static str)
    requires
        d < 16,
    ensures
        r@ =~= seq![hex_digit(d as nat)],
{
    proof {
        reveal_strlit("a");
        reveal_strlit("b");
        reveal_strlit("c");
        reveal_strlit("d");
        reveal_strlit("e");
        reveal_strlit("f");
    }
    if d < 10 {
        dec_digit_str(d)
    } else if d == 10 {
        "a"
    } else if d == 11 {
        "b"
    } else if d == 12 {
        "c"
    } else if d == 13 {
        "d"
    } else if d == 14 {
        "e"
    } else {
        "f"
    }
}

/// Exec twin of [`spec_dec`].
pub fn u64_to_dec(n: u64) -> (r: String)
    ensures
        r@ == spec_dec(n as nat),
    decreases n,
{
    if n < 10 {
        let d = dec_digit_str(n);
        let r = d.to_owned();
        proof {
            assert(r@ =~= spec_dec(n as nat));
        }
        r
    } else {
        let mut r = u64_to_dec(n / 10);
        r.append(dec_digit_str(n % 10));
        proof {
            assert(r@ =~= spec_dec(n as nat));
        }
        r
    }
}

/// Exec twin of [`spec_hex`].
pub fn u64_to_hex(n: u64) -> (r: String)
    ensures
        r@ == spec_hex(n as nat),
    decreases n,
{
    if n < 16 {
        let d = hex_digit_str(n);
        let r = d.to_owned();
        proof {
            assert(r@ =~= spec_hex(n as nat));
        }
        r
    } else {
        let mut r = u64_to_hex(n / 16);
        r.append(hex_digit_str(n % 16));
        proof {
            assert(r@ =~= spec_hex(n as nat));
        }
        r
    }
}

} // verus!

verus! {

// ---------------------------------------------------------------------------
// Cutting at the first occurrence of a character
// ---------------------------------------------------------------------------

/// The text before the first occurrence of `c`; the whole text when `c`
/// does not occur.
pub open spec fn spec_before_char(s: Seq<char>, c: char) -> Seq<char>
    decreases s.len(),
{
    if s.len() == 0 {
        Seq::empty()
    } else if s[0] == c {
        Seq::empty()
    } else {
        seq![s[0]] + spec_before_char(s.drop_first(), c)
    }
}

/// The text after the first occurrence of `c`; empty when `c` does not
/// occur.
pub open spec fn spec_after_char(s: Seq<char>, c: char) -> Seq<char>
    decreases s.len(),
{
    if s.len() == 0 {
        Seq::empty()
    } else if s[0] == c {
        s.drop_first()
    } else {
        spec_after_char(s.drop_first(), c)
    }
}

pub proof fn lemma_before_after_at(s: Seq<char>, c: char, i: int)
    requires
        0 <= i < s.len(),
        s[i] == c,
        forall|j: int| 0 <= j < i ==> s[j] != c,
    ensures
        spec_before_char(s, c) =~= s.subrange(0, i),
        spec_after_char(s, c) =~= s.subrange(i + 1, s.len() as int),
    decreases i,
{
    if i == 0 {
        assert(s.drop_first() =~= s.subrange(1, s.len() as int));
    } else {
        let t = s.drop_first();
        assert(s[0] != c);
        assert(t[i - 1] == s[i]);
        assert(forall|j: int| 0 <= j < i - 1 ==> #[trigger] t[j] == s[j + 1]);
        lemma_before_after_at(t, c, i - 1);
        assert(seq![s[0]] + t.subrange(0, i - 1) =~= s.subrange(0, i));
        assert(t.subrange(i, t.len() as int) =~= s.subrange(i + 1, s.len() as int));
    }
}

pub proof fn lemma_before_after_none(s: Seq<char>, c: char)
    requires
        forall|j: int| 0 <= j < s.len() ==> s[j] != c,
    ensures
        spec_before_char(s, c) =~= s,
        spec_after_char(s, c) =~= Seq::<char>::empty(),
    decreases s.len(),
{
    if s.len() > 0 {
        let t = s.drop_first();
        assert(forall|j: int| 0 <= j < t.len() ==> #[trigger] t[j] == s[j + 1]);
        lemma_before_after_none(t, c);
        assert(seq![s[0]] + t =~= s);
    }
}

} // verus!
