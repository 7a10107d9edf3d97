//! Current-state reader: parses the textual resolver-configuration report.
//!
//! The report lists per-interface `nameserver[n] : <address>` entries, first
//! for primary (non-scoped) queries and then, after a marker line, for scoped
//! queries.  Only the primary segment is read: everything from the first
//! occurrence of the scoped-queries marker onward is excluded, so scoped
//! entries can neither duplicate nor shadow the primary ones.
//!
//! An entry line is, after leading whitespace, the word `nameserver`, a
//! decimal index of one or more digits in square brackets, optional
//! whitespace, a colon, optional whitespace, and the address: the longest
//! following run of non-whitespace characters.  Every other line contributes
//! nothing.  Whitespace here is ASCII whitespace.

use vstd::prelude::*;
use vstd::string::StrSliceExecFns;

verus! {

/// ASCII whitespace, as the entry grammar understands it.
pub open spec fn is_space(c: char) -> bool {
    c == ' ' || c == '\t' || c == '\r' || c == '\n' || c == '\u{b}' || c == '\u{c}'
}

/// A decimal digit.
pub open spec fn is_digit(c: char) -> bool {
    48 <= c as u32 && c as u32 <= 57
}

/// First position at or after `i` holding a non-whitespace character, or the
/// length of `s`.
pub open spec fn skip_spaces(s: Seq<char>, i: int) -> int
    decreases s.len() - i,
{
    if i < 0 || i >= s.len() {
        s.len() as int
    } else if !is_space(s[i]) {
        i
    } else {
        skip_spaces(s, i + 1)
    }
}

/// First position at or after `i` holding whitespace, or the length of `s`.
pub open spec fn token_end(s: Seq<char>, i: int) -> int
    decreases s.len() - i,
{
    if i < 0 || i >= s.len() {
        s.len() as int
    } else if is_space(s[i]) {
        i
    } else {
        token_end(s, i + 1)
    }
}

/// First position at or after `i` holding a non-digit character, or the
/// length of `s`.
pub open spec fn digits_end(s: Seq<char>, i: int) -> int
    decreases s.len() - i,
{
    if i < 0 || i >= s.len() {
        s.len() as int
    } else if !is_digit(s[i]) {
        i
    } else {
        digits_end(s, i + 1)
    }
}

/// First position at or after `i` holding a line break, or the length of `s`.
pub open spec fn line_break(s: Seq<char>, i: int) -> int
    decreases s.len() - i,
{
    if i < 0 || i >= s.len() {
        s.len() as int
    } else if s[i] == '\n' {
        i
    } else {
        line_break(s, i + 1)
    }
}

/// The marker that opens the scoped-queries segment of the report.
pub open spec fn scoped_marker() -> Seq<char> {
    "DNS configuration (for scoped queries)"@
}

/// The label that opens an entry line.
pub open spec fn nameserver_label() -> Seq<char> {
    "nameserver["@
}

/// Does the scoped-queries marker start at position `i`?
pub open spec fn marker_at(s: Seq<char>, i: int) -> bool {
    0 <= i && i + scoped_marker().len() <= s.len() && s.subrange(
        i,
        i + scoped_marker().len(),
    ) == scoped_marker()
}

/// Position of the first occurrence of the scoped-queries marker at or after
/// `i`, or the length of `s` when there is none.
pub open spec fn marker_cut(s: Seq<char>, i: int) -> int
    decreases s.len() - i,
{
    if i < 0 || i >= s.len() {
        s.len() as int
    } else if marker_at(s, i) {
        i
    } else {
        marker_cut(s, i + 1)
    }
}

/// The primary (non-scoped) segment of the report: everything before the
/// first occurrence of the scoped-queries marker.
pub open spec fn primary_section(s: Seq<char>) -> Seq<char> {
    s.take(marker_cut(s, 0))
}

/// The address an entry line yields, if the line matches the entry grammar:
/// the bracketed index is a run of one or more decimal digits.
pub open spec fn entry_address(l: Seq<char>) -> Option<Seq<char>> {
    let k = skip_spaces(l, 0);
    let n = nameserver_label().len() as int;
    if k + n <= l.len() && l.subrange(k, k + n) == nameserver_label() {
        let d = digits_end(l, k + n);
        if d > k + n && d < l.len() && l[d] == ']' {
            let a = skip_spaces(l, d + 1);
            if a < l.len() && l[a] == ':' {
                let b = skip_spaces(l, a + 1);
                if b < l.len() {
                    Some(l.subrange(b, token_end(l, b)))
                } else {
                    None
                }
            } else {
                None
            }
        } else {
            None
        }
    } else {
        None
    }
}

/// The addresses yielded by the lines of `s` from position `i` on, in line
/// order.
pub open spec fn addresses_from(s: Seq<char>, i: int) -> Seq<Seq<char>>
    decreases s.len() - i,
{
    if i < 0 || i >= s.len() {
        seq![]
    } else {
        let e = line_break(s, i);
        if e < i || e >= s.len() {
            // the final line runs to the end of the segment
            match entry_address(s.subrange(i, s.len() as int)) {
                Some(a) => seq![a],
                None => seq![],
            }
        } else {
            let rest = addresses_from(s, e + 1);
            match entry_address(s.subrange(i, e)) {
                Some(a) => seq![a] + rest,
                None => rest,
            }
        }
    }
}

/// What the whole report yields: the addresses of the entry lines of its
/// primary segment, in order.  The empty result denotes automatic (DHCP)
/// mode.
pub open spec fn parse_report_spec(s: Seq<char>) -> Seq<Seq<char>> {
    addresses_from(primary_section(s), 0)
}

/// Whitespace test, computed.
fn is_space_exec(c: char) -> (r: bool)
    ensures
        r == is_space(c),
{
    c == ' ' || c == '\t' || c == '\r' || c == '\n' || c == '\u{b}' || c == '\u{c}'
}

/// `skip_spaces`, computed.
fn skip_spaces_exec(s: &str, i: usize) -> (j: usize)
    requires
        i <= s@.len(),
    ensures
        j == skip_spaces(s@, i as int),
        i <= j <= s@.len(),
{
    let n = s.unicode_len();
    let mut j = i;
    while j < n && is_space_exec(s.get_char(j))
        invariant
            i <= j <= n,
            n == s@.len(),
            skip_spaces(s@, i as int) == skip_spaces(s@, j as int),
        decreases n - j,
    {
        j += 1;
    }
    j
}

/// `token_end`, computed.
fn token_end_exec(s: &str, i: usize) -> (j: usize)
    requires
        i <= s@.len(),
    ensures
        j == token_end(s@, i as int),
        i <= j <= s@.len(),
{
    let n = s.unicode_len();
    let mut j = i;
    while j < n && !is_space_exec(s.get_char(j))
        invariant
            i <= j <= n,
            n == s@.len(),
            token_end(s@, i as int) == token_end(s@, j as int),
        decreases n - j,
    {
        j += 1;
    }
    j
}

/// Digit test, computed.
fn is_digit_exec(c: char) -> (r: bool)
    ensures
        r == is_digit(c),
{
    48 <= c as u32 && c as u32 <= 57
}

/// `digits_end`, computed.
fn digits_end_exec(s: &str, i: usize) -> (j: usize)
    requires
        i <= s@.len(),
    ensures
        j == digits_end(s@, i as int),
        i <= j <= s@.len(),
{
    let n = s.unicode_len();
    let mut j = i;
    while j < n && is_digit_exec(s.get_char(j))
        invariant
            i <= j <= n,
            n == s@.len(),
            digits_end(s@, i as int) == digits_end(s@, j as int),
        decreases n - j,
    {
        j += 1;
    }
    j
}

/// `line_break`, computed.
fn line_break_exec(s: &str, i: usize) -> (j: usize)
    requires
        i <= s@.len(),
    ensures
        j == line_break(s@, i as int),
        i <= j <= s@.len(),
{
    let n = s.unicode_len();
    let mut j = i;
    while j < n && s.get_char(j) != '\n'
        invariant
            i <= j <= n,
            n == s@.len(),
            line_break(s@, i as int) == line_break(s@, j as int),
        decreases n - j,
    {
        j += 1;
    }
    j
}

/// Does `pat` occur in `s` starting at position `i`?
fn match_at(s: &str, pat: &str, i: usize) -> (b: bool)
    requires
        i <= s@.len(),
    ensures
        b == (i + pat@.len() <= s@.len() && s@.subrange(i as int, i + pat@.len()) == pat@),
{
    let n = s.unicode_len();
    let m = pat.unicode_len();
    if m > n - i {
        return false;
    }
    let mut t: usize = 0;
    while t < m
        invariant
            0 <= t <= m,
            i + m <= n,
            n == s@.len(),
            m == pat@.len(),
            forall|q: int| 0 <= q < t ==> s@[i + q] == pat@[q],
        decreases m - t,
    {
        if s.get_char(i + t) != pat.get_char(t) {
            proof {
                if s@.subrange(i as int, i + pat@.len()) == pat@ {
                    assert(s@.subrange(i as int, i + pat@.len())[t as int] == s@[i + t]);
                    assert(false);
                }
            }
            return false;
        }
        t += 1;
    }
    proof {
        assert(s@.subrange(i as int, i + pat@.len()) =~= pat@);
    }
    true
}

/// Position where the primary segment of the report ends, computed.
fn marker_cut_exec(s: &str) -> (c: usize)
    ensures
        c == marker_cut(s@, 0),
        c <= s@.len(),
{
    let n = s.unicode_len();
    let mut i: usize = 0;
    while i < n && !match_at(s, "DNS configuration (for scoped queries)", i)
        invariant
            0 <= i <= n,
            n == s@.len(),
            marker_cut(s@, 0) == marker_cut(s@, i as int),
        decreases n - i,
    {
        i += 1;
    }
    i
}

/// The address of one entry line, computed.
fn entry_address_exec(line: &str) -> (r: Option<String>)
    ensures
        r is Some <==> entry_address(line@) is Some,
        r is Some ==> entry_address(line@) == Some(r.unwrap()@),
{
    proof {
        reveal_strlit("nameserver[");
    }
    let n = line.unicode_len();
    let k = skip_spaces_exec(line, 0);
    if !match_at(line, "nameserver[", k) {
        return None;
    }
    let d = digits_end_exec(line, k + 11);
    if d == k + 11 {
        return None;
    }
    if d >= n {
        return None;
    }
    if line.get_char(d) != ']' {
        return None;
    }
    let a = skip_spaces_exec(line, d + 1);
    if a >= n {
        return None;
    }
    if line.get_char(a) != ':' {
        return None;
    }
    let b = skip_spaces_exec(line, a + 1);
    if b >= n {
        return None;
    }
    let e = token_end_exec(line, b);
    let addr = line.substring_char(b, e).to_owned();
    Some(addr)
}

/// The addresses of the entry lines of `s` from position `i` on, computed.
fn addresses_from_exec(s: &str, i: usize) -> (r: Vec<String>)
    requires
        i <= s@.len(),
    ensures
        r.deep_view() == addresses_from(s@, i as int),
    decreases s@.len() - i,
{
    let n = s.unicode_len();
    if i >= n {
        let out: Vec<String> = Vec::new();
        assert(out.deep_view() =~= addresses_from(s@, i as int));
        return out;
    }
    let e = line_break_exec(s, i);
    if e >= n {
        let line = s.substring_char(i, n);
        let mut out: Vec<String> = Vec::new();
        match entry_address_exec(line) {
            Some(a) => {
                out.push(a);
            },
            None => {},
        }
        assert(out.deep_view() =~= addresses_from(s@, i as int));
        out
    } else {
        let line = s.substring_char(i, e);
        let mut rest = addresses_from_exec(s, e + 1);
        match entry_address_exec(line) {
            Some(a) => {
                rest.insert(0, a);
                assert(rest.deep_view() =~= addresses_from(s@, i as int));
                rest
            },
            None => {
                assert(rest.deep_view() =~= addresses_from(s@, i as int));
                rest
            },
        }
    }
}

/// Parse a resolver-configuration report: the addresses configured for
/// primary (non-scoped) queries, in report order.  An empty result means no
/// manual resolver is configured, that is, automatic (DHCP) mode.
pub fn parse_dns_report(report: &str) -> (r: Vec<String>)
    ensures
        r.deep_view() == parse_report_spec(report@),
{
    let cut = marker_cut_exec(report);
    let section = report.substring_char(0, cut);
    proof {
        assert(section@ == primary_section(report@));
    }
    addresses_from_exec(section, 0)
}

} // verus!
