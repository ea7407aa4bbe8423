//! URL components: glob matchers, strict absolute URLs, and redirect locations.
use crate::rules::error::{ModelErrorKind, RuleModelError};
use crate::rules::matching::{strip_brackets, strip_brackets_end, strip_brackets_start, trim_brackets};
use crate::rules::transforms::{is_err, ErrId};
use crate::rules::value::{Value, ValueKind, ValueView};
use crate::text::{
    all_digits, append_str, char_is_control, char_is_hex, char_is_whitespace, chars_of, concat3,
    contains_char, contains_seq, decimal, decimal_text, digits_value, find_char, find_seq,
    first_index, is_alnum, is_alpha, is_ctrl, is_digit, is_hex, is_upper, is_ws, lit, lower, lower_chars, lower_seq,
    occurs_at, parse_unsigned, parse_unsigned_spec, push_char, rfind_char, seq_eq, slice_vec,
    split_char, split_on, str_eq, string_of, substring,
};
use vstd::prelude::*;

verus! {

// ---------------------------------------------------------------------------
// Text helpers
// ---------------------------------------------------------------------------

/// The first occurrence of `sep` in `s`.
#[verifier::opaque]
pub open spec fn first_occurrence(s: Seq<char>, sep: Seq<char>) -> Option<int> {
    if contains_seq(s, sep) {
        Some(choose|i: int| occurs_at(s, sep, i) && forall|j: int| 0 <= j < i ==> !occurs_at(s, sep, j))
    } else {
        None
    }
}

/// `str::split_once` with a text separator.
pub open spec fn split_text(s: Seq<char>, sep: Seq<char>) -> Option<(Seq<char>, Seq<char>)> {
    match first_occurrence(s, sep) {
        Some(i) => Some((s.take(i), s.skip(i + sep.len()))),
        None => None,
    }
}

fn split_text_once(s: &[char], sep: &str) -> (r: Option<(Vec<char>, Vec<char>)>)
    ensures
        match (r, split_text(s@, sep@)) {
            (Some((a, b)), Some((x, y))) => a@ == x && b@ == y,
            (None, None) => true,
            _ => false,
        },
{
    let n = chars_of(sep);
    proof {
        reveal(first_occurrence);
    }
    match find_seq(s, &n) {
        Some(i) => {
            proof {
                let k = choose|k: int| occurs_at(s@, n@, k) && forall|j: int| 0 <= j < k ==> !occurs_at(s@, n@, j);
                if k < i {
                } else if k > i {
                }
                assert(k == i);
            }
            assert(i + n@.len() <= s@.len());
            assert(s@.len() == s.len());
            assert(n@.len() == n.len());
            let a = slice_vec(s, 0, i);
            let b = slice_vec(s, i + n.len(), s.len());
            Some((a, b))
        },
        None => None,
    }
}

/// The position of the last `c` in `s`.
pub open spec fn last_index(s: Seq<char>, c: char) -> Option<int> {
    if exists|i: int| 0 <= i < s.len() && s[i] == c {
        Some(choose|i: int| 0 <= i < s.len() && s[i] == c && forall|j: int| i < j < s.len() ==> s[j] != c)
    } else {
        None
    }
}

fn last_char_index(s: &[char], c: char) -> (r: Option<usize>)
    ensures
        match r {
            Some(i) => last_index(s@, c) == Some(i as int) && i < s@.len(),
            None => last_index(s@, c) is None,
        },
{
    match rfind_char(s, c) {
        Some(i) => {
            proof {
                let k = choose|k: int| 0 <= k < s@.len() && s@[k] == c && forall|j: int| k < j < s@.len() ==> s@[j] != c;
                if k < i {
                } else if k > i {
                }
                assert(k == i);
            }
            Some(i)
        },
        None => {
            assert(!(exists|i: int| 0 <= i < s@.len() && s@[i] == c));
            None
        },
    }
}

// ---------------------------------------------------------------------------
// Schemes and ports
// ---------------------------------------------------------------------------

/// A URL scheme: an ASCII letter, then ASCII letters, digits, `+`, `-`, or `.`.
pub open spec fn scheme_ok(s: Seq<char>) -> bool {
    s.len() > 0 && is_alpha(s[0]) && forall|i: int| 1 <= i < s.len() ==> (is_alnum(#[trigger] s[i])
        || s[i] == '+' || s[i] == '-' || s[i] == '.')
}

/// Reports whether `input` is a valid URL scheme.
pub fn valid_scheme(input: &[char]) -> (r: bool)
    ensures
        r == scheme_ok(input@),
{
    if input.len() == 0 {
        return false;
    }
    let c0 = input[0];
    if !(('a' <= c0 && c0 <= 'z') || ('A' <= c0 && c0 <= 'Z')) {
        return false;
    }
    let mut i: usize = 1;
    while i < input.len()
        invariant
            1 <= i <= input@.len(),
            forall|j: int| 1 <= j < i ==> (is_alnum(#[trigger] input@[j]) || input@[j] == '+'
                || input@[j] == '-' || input@[j] == '.'),
        decreases input@.len() - i,
    {
        let c = input[i];
        let ok = ('a' <= c && c <= 'z') || ('A' <= c && c <= 'Z') || ('0' <= c && c <= '9') || c
            == '+' || c == '-' || c == '.';
        if !ok {
            return false;
        }
        i += 1;
    }
    true
}

/// A matcher port: digits and `*` when it holds a `*`, otherwise a port in `1..=65535`,
/// rendered in decimal.
pub open spec fn port_pattern_spec(s: Seq<char>) -> Result<Seq<char>, ErrId> {
    if s.len() == 0 {
        Err((ModelErrorKind::EmptyInput, "matcher port"))
    } else if s.contains('*') {
        if forall|i: int| 0 <= i < s.len() ==> (is_digit(#[trigger] s[i]) || s[i] == '*') {
            Ok(s)
        } else {
            Err((ModelErrorKind::InvalidInput, "matcher port pattern"))
        }
    } else {
        match parse_unsigned_spec(s, 65535) {
            None => Err((ModelErrorKind::InvalidInteger, "matcher port")),
            Some(p) => if p == 0 {
                Err((ModelErrorKind::ConstraintViolation, "matcher port"))
            } else {
                Ok(decimal(p))
            },
        }
    }
}

/// Parses the port part of a glob matcher.
pub fn parse_port_pattern(input: &[char]) -> (r: Result<String, RuleModelError>)
    ensures
        match (r, port_pattern_spec(input@)) {
            (Ok(a), Ok(b)) => a@ == b,
            (Err(e), Err(id)) => is_err(e, id),
            _ => false,
        },
{
    if input.len() == 0 {
        return Err(RuleModelError::EmptyInput {
            context: "matcher port",
            message: lit("matcher port is empty"),
        });
    }
    let text = string_of(input);
    if contains_char(input, '*') {
        let mut i: usize = 0;
        while i < input.len()
            invariant
                i <= input@.len(),
                input@.len() > 0,
                input@.contains('*'),
                forall|j: int| 0 <= j < i ==> (is_digit(#[trigger] input@[j]) || input@[j] == '*'),
            decreases input@.len() - i,
        {
            let c = input[i];
            if !(('0' <= c && c <= '9') || c == '*') {
                assert(!(is_digit(input@[i as int]) || input@[i as int] == '*'));
                return Err(RuleModelError::InvalidInput {
                    context: "matcher port pattern",
                    message: concat3("invalid matcher port pattern `", text.as_str(), "`"),
                });
            }
            i += 1;
        }
        return Ok(text);
    }
    match parse_unsigned(input, 65535) {
        None => Err(RuleModelError::InvalidInteger {
            context: "matcher port",
            input: string_of(input),
            message: concat3("invalid matcher port `", text.as_str(), "`"),
        }),
        Some(p) => if p == 0 {
            Err(RuleModelError::ConstraintViolation {
                context: "matcher port",
                message: lit("matcher port must be 1..65535"),
            })
        } else {
            Ok(decimal_text(p))
        },
    }
}

// ---------------------------------------------------------------------------
// Glob matchers
// ---------------------------------------------------------------------------

/// Structured components of a domain, glob, or path-prefix matcher.
#[derive(Clone, Debug, PartialEq, Eq)]
pub struct GlobMatcher {
    /// Optional lowercased scheme requirement.
    pub scheme: Option<String>,
    /// Normalized host pattern, including `*` or `**` label wildcards when present.
    pub host: String,
    /// Optional effective-port glob matched after scheme defaults are applied.
    pub port: Option<String>,
    /// Optional path prefix or glob; `*` stays within a segment and `**` crosses segments.
    pub path: Option<String>,
    /// Optional query glob matched against the query without the leading `?`.
    pub query: Option<String>,
}

/// A glob matcher as plain data: scheme, host, port, path, query.
pub type GlobView = (Option<Seq<char>>, Seq<char>, Option<Seq<char>>, Option<Seq<char>>, Option<Seq<char>>);

pub open spec fn opt_text(o: Option<String>) -> Option<Seq<char>> {
    match o {
        Some(s) => Some(s@),
        None => None,
    }
}

pub open spec fn glob_view(g: GlobMatcher) -> GlobView {
    (opt_text(g.scheme), g.host@, opt_text(g.port), opt_text(g.path), opt_text(g.query))
}

/// The host and optional port of a matcher authority; a bracketed host keeps its brackets.
pub open spec fn glob_authority_spec(s: Seq<char>) -> Result<(Seq<char>, Option<Seq<char>>), ErrId> {
    if s.len() > 0 && s[0] == '[' {
        match first_index(s, ']') {
            None => Err((ModelErrorKind::InvalidSyntax, "IPv6 matcher")),
            Some(end) => {
                let tail = s.skip(end + 1);
                if tail.len() == 0 {
                    Ok((s.take(end + 1), None))
                } else if tail[0] != ':' {
                    Err((ModelErrorKind::InvalidInput, "matcher authority"))
                } else {
                    match port_pattern_spec(tail.drop_first()) {
                        Ok(p) => Ok((s.take(end + 1), Some(p))),
                        Err(e) => Err(e),
                    }
                }
            },
        }
    } else if s.contains('[') || s.contains(']') {
        Err((ModelErrorKind::InvalidInput, "matcher authority"))
    } else {
        match last_index(s, ':') {
            None => Ok((s, None)),
            Some(c) => if s.take(c).contains(':') {
                Err((ModelErrorKind::InvalidSyntax, "IPv6 matcher"))
            } else {
                match port_pattern_spec(s.skip(c + 1)) {
                    Ok(p) => Ok((s.take(c), Some(p))),
                    Err(e) => Err(e),
                }
            },
        }
    }
}

fn parse_glob_authority(input: &[char]) -> (r: Result<(Vec<char>, Option<String>), RuleModelError>)
    ensures
        match (r, glob_authority_spec(input@)) {
            (Ok((h, p)), Ok((hh, pp))) => h@ == hh && opt_text(p) == pp,
            (Err(e), Err(id)) => is_err(e, id),
            _ => false,
        },
{
    let text = string_of(input);
    if input.len() > 0 && input[0] == '[' {
        let end = match find_char(input, ']') {
            Some(e) => e,
            None => {
                return Err(RuleModelError::InvalidSyntax {
                    context: "IPv6 matcher",
                    message: lit("IPv6 matcher is missing closing `]`"),
                });
            },
        };
        let host = slice_vec(input, 0, end + 1);
        let tail = slice_vec(input, end + 1, input.len());
        assert(tail@ == input@.skip(end + 1));
        if tail.len() == 0 {
            return Ok((host, None));
        }
        if tail[0] != ':' {
            return Err(RuleModelError::InvalidInput {
                context: "matcher authority",
                message: concat3("invalid matcher authority `", text.as_str(), "`"),
            });
        }
        let raw = slice_vec(&tail, 1, tail.len());
        assert(raw@ == tail@.drop_first());
        let port = parse_port_pattern(&raw)?;
        return Ok((host, Some(port)));
    }
    if contains_char(input, '[') || contains_char(input, ']') {
        return Err(RuleModelError::InvalidInput {
            context: "matcher authority",
            message: concat3("invalid matcher authority `", text.as_str(), "`"),
        });
    }
    match last_char_index(input, ':') {
        None => Ok((slice_vec(input, 0, input.len()), None)),
        Some(c) => {
            let host = slice_vec(input, 0, c);
            if contains_char(&host, ':') {
                return Err(RuleModelError::InvalidSyntax {
                    context: "IPv6 matcher",
                    message: lit("IPv6 matcher must use brackets"),
                });
            }
            let raw = slice_vec(input, c + 1, input.len());
            let port = parse_port_pattern(&raw)?;
            Ok((host, Some(port)))
        },
    }
}

/// The parts of a glob matcher after its scheme: host with optional port, optional path from the
/// first `/`, optional query after the first `?`.
#[verifier::opaque]
pub open spec fn glob_rest_spec(rest: Seq<char>) -> Result<
    (Seq<char>, Option<Seq<char>>, Option<Seq<char>>, Option<Seq<char>>),
    ErrId,
> {
    let (before, query) = match first_index(rest, '?') {
        Some(q) => (rest.take(q), Some(rest.skip(q + 1))),
        None => (rest, None),
    };
    let (host_port, path) = match first_index(before, '/') {
        Some(p) => (before.take(p), Some(before.skip(p))),
        None => (before, None),
    };
    if host_port.len() == 0 {
        Err((ModelErrorKind::EmptyInput, "glob matcher host"))
    } else {
        match glob_authority_spec(host_port) {
            Err(e) => Err(e),
            Ok((h, port)) => {
                let host = lower_seq(strip_brackets(h));
                if host.len() == 0 {
                    Err((ModelErrorKind::EmptyInput, "glob matcher host"))
                } else {
                    Ok((host, port, path, query))
                }
            },
        }
    }
}

/// A glob matcher with the given lowercased scheme and the parts of [`glob_rest_spec`].
pub open spec fn with_scheme(scheme: Option<Seq<char>>, rest: Seq<char>) -> Result<GlobView, ErrId> {
    match glob_rest_spec(rest) {
        Err(e) => Err(e),
        Ok((host, port, path, query)) => Ok((scheme, host, port, path, query)),
    }
}

/// A glob matcher: optional `scheme://` followed by the parts of [`glob_rest_spec`].
pub open spec fn glob_matcher_spec(s: Seq<char>) -> Result<GlobView, ErrId> {
    match split_text(s, "://"@) {
        Some((sc, r)) => if !scheme_ok(sc) {
            Err((ModelErrorKind::InvalidInput, "matcher scheme"))
        } else {
            with_scheme(Some(lower_seq(sc)), r)
        },
        None => with_scheme(None, s),
    }
}

fn glob_rest(rest: Vec<char>) -> (r: Result<
    (String, Option<String>, Option<String>, Option<String>),
    RuleModelError,
>)
    ensures
        match (r, glob_rest_spec(rest@)) {
            (Ok((h, p, a, q)), Ok((hh, pp, aa, qq))) => h@ == hh && opt_text(p) == pp && opt_text(a)
                == aa && opt_text(q) == qq,
            (Err(e), Err(id)) => is_err(e, id),
            _ => false,
        },
{
    proof {
        reveal(glob_rest_spec);
    }
    let (before, query) = match find_char(&rest, '?') {
        Some(q) => {
            assert(q < rest@.len());
            let b = slice_vec(&rest, 0, q);
            let a = substring(&rest, q + 1, rest.len());
            (b, Some(a))
        },
        None => (rest, None),
    };
    let (host_port, path) = match find_char(&before, '/') {
        Some(p) => {
            let h = slice_vec(&before, 0, p);
            let a = substring(&before, p, before.len());
            (h, Some(a))
        },
        None => (before, None),
    };
    if host_port.len() == 0 {
        return Err(RuleModelError::EmptyInput {
            context: "glob matcher host",
            message: lit("glob matcher host is empty"),
        });
    }
    let (h, port) = parse_glob_authority(&host_port)?;
    let host = lower_chars(&trim_brackets(&h));
    if host.len() == 0 {
        return Err(RuleModelError::EmptyInput {
            context: "glob matcher host",
            message: lit("glob matcher host is empty"),
        });
    }
    Ok((string_of(&host), port, path, query))
}

fn glob_with_scheme(scheme: Option<String>, rest: Vec<char>) -> (r: Result<GlobMatcher, RuleModelError>)
    ensures
        match (r, with_scheme(opt_text(scheme), rest@)) {
            (Ok(g), Ok(v)) => glob_view(g) == v,
            (Err(e), Err(id)) => is_err(e, id),
            _ => false,
        },
{
    match glob_rest(rest) {
        Ok((host, port, path, query)) => Ok(GlobMatcher { scheme, host, port, path, query }),
        Err(e) => Err(e),
    }
}

/// Parses a glob matcher.
pub fn parse_glob_matcher(input: &str) -> (r: Result<GlobMatcher, RuleModelError>)
    ensures
        match (r, glob_matcher_spec(input@)) {
            (Ok(g), Ok(v)) => glob_view(g) == v,
            (Err(e), Err(id)) => is_err(e, id),
            _ => false,
        },
{
    let s = chars_of(input);
    match split_text_once(&s, "://") {
        Some((sc, r)) => {
            if !valid_scheme(&sc) {
                let t = string_of(&sc);
                return Err(RuleModelError::InvalidInput {
                    context: "matcher scheme",
                    message: concat3("invalid matcher scheme `", t.as_str(), "`"),
                });
            }
            glob_with_scheme(Some(string_of(&lower_chars(&sc))), r)
        },
        None => glob_with_scheme(None, s),
    }
}

/// The pattern given to the backtracking engine: case-insensitive patterns are wrapped in an
/// inline `(?i:...)` group.
pub fn fancy_pattern(pattern: &str, case_insensitive: bool) -> (r: String)
    ensures
        r@ == if case_insensitive {
            "(?i:"@ + pattern@ + ")"@
        } else {
            pattern@
        },
{
    if case_insensitive {
        concat3("(?i:", pattern, ")")
    } else {
        lit(pattern)
    }
}


// ---------------------------------------------------------------------------
// IPv6 literals
// ---------------------------------------------------------------------------

/// One to four hexadecimal digits.
pub open spec fn h16(g: Seq<char>) -> bool {
    1 <= g.len() <= 4 && forall|i: int| 0 <= i < g.len() ==> is_hex(#[trigger] g[i])
}

/// A decimal octet: `0`, or one to three digits without a leading zero, at most 255.
pub open spec fn dec_octet(g: Seq<char>) -> bool {
    1 <= g.len() <= 3 && all_digits(g) && (g.len() == 1 || g[0] != '0') && digits_value(g) <= 255
}

/// A dotted-quad IPv4 address.
pub open spec fn ipv4_text(g: Seq<char>) -> bool {
    let p = split_char(g, '.');
    p.len() == 4 && forall|i: int| 0 <= i < 4 ==> dec_octet(#[trigger] p[i])
}

/// Every piece is a hexadecimal group.
pub open spec fn groups_ok(ps: Seq<Seq<char>>) -> bool {
    forall|i: int| 0 <= i < ps.len() ==> h16(#[trigger] ps[i])
}

/// The `:`-separated groups of a text; none for an empty text.
pub open spec fn groups_of(t: Seq<char>) -> Seq<Seq<char>> {
    if t.len() == 0 {
        seq![]
    } else {
        split_char(t, ':')
    }
}

/// Groups after `::`: hexadecimal groups, the last of which may be an IPv4 address taking two
/// slots, filling at most `max` slots.
pub open spec fn tail_ok(ps: Seq<Seq<char>>, max: int) -> bool {
    (groups_ok(ps) && ps.len() <= max) || (ps.len() >= 1 && groups_ok(ps.drop_last()) && ipv4_text(
        ps.last(),
    ) && ps.len() + 1 <= max)
}

/// The textual IPv6 address syntax accepted by `Ipv6Addr`'s parser: eight groups, six groups
/// and an IPv4 address, or groups around one `::` that stands for at least one group.
#[verifier::opaque]
pub open spec fn ipv6_text(s: Seq<char>) -> bool {
    match first_occurrence(s, "::"@) {
        None => {
            let p = split_char(s, ':');
            (p.len() == 8 && groups_ok(p)) || (p.len() == 7 && groups_ok(p.drop_last()) && ipv4_text(
                p.last(),
            ))
        },
        Some(i) => {
            let hp = groups_of(s.take(i));
            let tp = groups_of(s.skip(i + 2));
            groups_ok(hp) && hp.len() <= 7 && tail_ok(tp, 7 - hp.len())
        },
    }
}

fn is_h16(g: &[char]) -> (r: bool)
    ensures
        r == h16(g@),
{
    if g.len() < 1 || g.len() > 4 {
        return false;
    }
    let mut i: usize = 0;
    while i < g.len()
        invariant
            i <= g@.len(),
            forall|j: int| 0 <= j < i ==> is_hex(#[trigger] g@[j]),
        decreases g@.len() - i,
    {
        if !char_is_hex(g[i]) {
            return false;
        }
        i += 1;
    }
    true
}

fn is_dec_octet(g: &[char]) -> (r: bool)
    ensures
        r == dec_octet(g@),
{
    if g.len() < 1 || g.len() > 3 {
        return false;
    }
    let mut i: usize = 0;
    while i < g.len()
        invariant
            i <= g@.len(),
            forall|j: int| 0 <= j < i ==> is_digit(#[trigger] g@[j]),
        decreases g@.len() - i,
    {
        if !('0' <= g[i] && g[i] <= '9') {
            return false;
        }
        i += 1;
    }
    if g.len() > 1 && g[0] == '0' {
        return false;
    }
    assert(g@[0] != '+');
    match parse_unsigned(g, 255) {
        Some(_) => true,
        None => false,
    }
}

fn is_ipv4_text(g: &[char]) -> (r: bool)
    ensures
        r == ipv4_text(g@),
{
    let p = split_on(g, '.');
    let ghost ps = p@.map_values(|v: Vec<char>| v@);
    if p.len() != 4 {
        return false;
    }
    let mut i: usize = 0;
    while i < 4
        invariant
            i <= 4,
            p@.len() == 4,
            ps == p@.map_values(|v: Vec<char>| v@),
            ps == split_char(g@, '.'),
            forall|j: int| 0 <= j < i ==> dec_octet(#[trigger] ps[j]),
        decreases 4 - i,
    {
        assert(ps[i as int] == p@[i as int]@);
        if !is_dec_octet(&p[i]) {
            assert(!dec_octet(ps[i as int]));
            return false;
        }
        i += 1;
    }
    true
}

fn all_groups(p: &Vec<Vec<char>>, n: usize) -> (r: bool)
    requires
        n <= p@.len(),
    ensures
        r == groups_ok(p@.map_values(|v: Vec<char>| v@).take(n as int)),
{
    let ghost ps = p@.map_values(|v: Vec<char>| v@).take(n as int);
    let mut i: usize = 0;
    while i < n
        invariant
            i <= n <= p@.len(),
            ps == p@.map_values(|v: Vec<char>| v@).take(n as int),
            forall|j: int| 0 <= j < i ==> h16(#[trigger] ps[j]),
        decreases n - i,
    {
        assert(ps[i as int] == p@[i as int]@);
        if !is_h16(&p[i]) {
            return false;
        }
        i += 1;
    }
    true
}

fn groups_vec(t: &[char]) -> (r: Vec<Vec<char>>)
    ensures
        r@.map_values(|v: Vec<char>| v@) == groups_of(t@),
{
    if t.len() == 0 {
        let none: Vec<Vec<char>> = Vec::new();
        assert(none@.map_values(|v: Vec<char>| v@) =~= Seq::<Seq<char>>::empty());
        none
    } else {
        split_on(t, ':')
    }
}

fn tail_groups_ok(p: &Vec<Vec<char>>, max: usize) -> (r: bool)
    ensures
        r == tail_ok(p@.map_values(|v: Vec<char>| v@), max as int),
{
    let ghost ps = p@.map_values(|v: Vec<char>| v@);
    assert(ps.take(ps.len() as int) == ps);
    if all_groups(p, p.len()) && p.len() <= max {
        return true;
    }
    if p.len() >= 1 {
        assert(ps.take(ps.len() - 1) == ps.drop_last());
        assert(ps.last() == p@[p@.len() - 1]@);
        return all_groups(p, p.len() - 1) && is_ipv4_text(&p[p.len() - 1]) && p.len() < max;
    }
    false
}

/// Reports whether `s` is a textual IPv6 address.
pub fn is_ipv6_text(s: &[char]) -> (r: bool)
    ensures
        r == ipv6_text(s@),
{
    proof {
        reveal(ipv6_text);
        reveal(first_occurrence);
    }
    let dc = chars_of("::");
    match find_seq(s, &dc) {
        None => {
            let p = split_on(s, ':');
            let ghost ps = p@.map_values(|v: Vec<char>| v@);
            assert(ps.take(ps.len() as int) == ps);
            if p.len() == 8 {
                return all_groups(&p, 8);
            }
            if p.len() == 7 {
                assert(ps.take(6) == ps.drop_last());
                assert(ps.last() == p@[6]@);
                return all_groups(&p, 6) && is_ipv4_text(&p[6]);
            }
            false
        },
        Some(i) => {
            proof {
                let k = choose|k: int| occurs_at(s@, dc@, k) && forall|j: int| 0 <= j < k ==> !occurs_at(s@, dc@, j);
                if k < i {
                } else if k > i {
                }
                assert(k == i);
            }
            proof {
                reveal_strlit("::");
            }
            assert(s@.len() == s.len());
            let head = slice_vec(s, 0, i);
            let tail = slice_vec(s, i + 2, s.len());
            assert(tail@ == s@.skip(i + 2));
            let hp = groups_vec(&head);
            let tp = groups_vec(&tail);
            let ghost hps = hp@.map_values(|v: Vec<char>| v@);
            assert(hps.take(hps.len() as int) == hps);
            if !all_groups(&hp, hp.len()) || hp.len() > 7 {
                return false;
            }
            tail_groups_ok(&tp, 7 - hp.len())
        },
    }
}

// ---------------------------------------------------------------------------
// Strict absolute URLs
// ---------------------------------------------------------------------------

/// Normalized components of an absolute URL used by rule matching.
///
/// Parsing lowercases scheme and host, removes IPv6 brackets from the stored host, defaults an
/// absent path to `/`, and preserves whether a query exists.
#[derive(Clone, Debug, PartialEq, Eq)]
pub struct UrlParts {
    /// Lowercased scheme without `://`.
    pub scheme: String,
    /// Lowercased hostname or unbracketed IPv6 literal.
    pub host: String,
    /// Explicit authority port; scheme defaults are exposed by [`Self::effective_port`].
    pub port: Option<u16>,
    /// Origin-form pathname, always non-empty.
    pub path: String,
    /// Query text without `?`; an explicitly empty query remains `Some("")`.
    pub query: Option<String>,
}

/// A URL as plain data: scheme, host, port, path, query.
pub type UrlView = (Seq<char>, Seq<char>, Option<u16>, Seq<char>, Option<Seq<char>>);

pub open spec fn url_view(u: UrlParts) -> UrlView {
    (u.scheme@, u.host@, u.port, u.path@, opt_text(u.query))
}

/// An explicit URL port in `1..=65535`.
pub open spec fn absolute_port_spec(s: Seq<char>) -> Result<u16, ErrId> {
    if s.len() == 0 {
        Err((ModelErrorKind::EmptyInput, "URL port"))
    } else {
        match parse_unsigned_spec(s, 65535) {
            None => Err((ModelErrorKind::InvalidInteger, "URL port")),
            Some(p) => if p == 0 {
                Err((ModelErrorKind::ConstraintViolation, "URL port"))
            } else {
                Ok(p as u16)
            },
        }
    }
}

fn parse_absolute_port(input: &[char]) -> (r: Result<u16, RuleModelError>)
    ensures
        match (r, absolute_port_spec(input@)) {
            (Ok(a), Ok(b)) => a == b,
            (Err(e), Err(id)) => is_err(e, id),
            _ => false,
        },
{
    if input.len() == 0 {
        return Err(RuleModelError::EmptyInput { context: "URL port", message: lit("URL port is empty") });
    }
    match parse_unsigned(input, 65535) {
        None => {
            let t = string_of(input);
            Err(RuleModelError::InvalidInteger {
                context: "URL port",
                input: string_of(input),
                message: concat3("invalid URL port `", t.as_str(), "`"),
            })
        },
        Some(p) => if p == 0 {
            Err(RuleModelError::ConstraintViolation {
                context: "URL port",
                message: lit("URL port must be 1..65535"),
            })
        } else {
            Ok(p as u16)
        },
    }
}

/// The host and explicit port of a URL authority; a bracketed host must hold an IPv6 address
/// and keeps its brackets.
pub open spec fn absolute_authority_spec(a: Seq<char>) -> Result<(Seq<char>, Option<u16>), ErrId> {
    if a.len() > 0 && a[0] == '[' {
        match first_index(a, ']') {
            None => Err((ModelErrorKind::InvalidSyntax, "URL IPv6 authority")),
            Some(end) => if !ipv6_text(a.subrange(1, end)) {
                Err((ModelErrorKind::InvalidInput, "URL IPv6 authority"))
            } else {
                let tail = a.skip(end + 1);
                if tail.len() == 0 {
                    Ok((a.take(end + 1), None))
                } else if tail[0] != ':' {
                    Err((ModelErrorKind::InvalidInput, "URL authority"))
                } else {
                    match absolute_port_spec(tail.drop_first()) {
                        Ok(p) => Ok((a.take(end + 1), Some(p))),
                        Err(e) => Err(e),
                    }
                }
            },
        }
    } else if a.contains('[') || a.contains(']') {
        Err((ModelErrorKind::InvalidInput, "URL authority"))
    } else {
        match last_index(a, ':') {
            None => Ok((a, None)),
            Some(c) => if a.take(c).contains(':') {
                Err((ModelErrorKind::InvalidSyntax, "URL IPv6 authority"))
            } else if c == 0 {
                Err((ModelErrorKind::EmptyInput, "URL host"))
            } else {
                match absolute_port_spec(a.skip(c + 1)) {
                    Ok(p) => Ok((a.take(c), Some(p))),
                    Err(e) => Err(e),
                }
            },
        }
    }
}

fn parse_absolute_authority(a: &[char]) -> (r: Result<(Vec<char>, Option<u16>), RuleModelError>)
    ensures
        match (r, absolute_authority_spec(a@)) {
            (Ok((h, p)), Ok((hh, pp))) => h@ == hh && p == pp,
            (Err(e), Err(id)) => is_err(e, id),
            _ => false,
        },
{
    let text = string_of(a);
    if a.len() > 0 && a[0] == '[' {
        let end = match find_char(a, ']') {
            Some(e) => e,
            None => {
                return Err(RuleModelError::InvalidSyntax {
                    context: "URL IPv6 authority",
                    message: lit("IPv6 URL host is missing closing `]`"),
                });
            },
        };
        let inner = slice_vec(a, 1, end);
        if !is_ipv6_text(&inner) {
            let h = string_of(&inner);
            return Err(RuleModelError::InvalidInput {
                context: "URL IPv6 authority",
                message: concat3("invalid IPv6 URL host `", h.as_str(), "`"),
            });
        }
        let tail = slice_vec(a, end + 1, a.len());
        assert(tail@ == a@.skip(end + 1));
        let host = slice_vec(a, 0, end + 1);
        if tail.len() == 0 {
            return Ok((host, None));
        }
        if tail[0] != ':' {
            return Err(RuleModelError::InvalidInput {
                context: "URL authority",
                message: concat3("invalid URL authority `", text.as_str(), "`"),
            });
        }
        let raw = slice_vec(&tail, 1, tail.len());
        assert(raw@ == tail@.drop_first());
        let port = parse_absolute_port(&raw)?;
        return Ok((host, Some(port)));
    }
    if contains_char(a, '[') || contains_char(a, ']') {
        return Err(RuleModelError::InvalidInput {
            context: "URL authority",
            message: concat3("invalid URL authority `", text.as_str(), "`"),
        });
    }
    match last_char_index(a, ':') {
        None => Ok((slice_vec(a, 0, a.len()), None)),
        Some(c) => {
            let host = slice_vec(a, 0, c);
            if contains_char(&host, ':') {
                return Err(RuleModelError::InvalidSyntax {
                    context: "URL IPv6 authority",
                    message: lit("IPv6 URL hosts must use brackets"),
                });
            }
            if c == 0 {
                return Err(RuleModelError::EmptyInput { context: "URL host", message: lit("url host is empty") });
            }
            let raw = slice_vec(a, c + 1, a.len());
            let port = parse_absolute_port(&raw)?;
            Ok((host, Some(port)))
        },
    }
}

/// The first `/` or `?` in a text.
pub open spec fn first_path_start(s: Seq<char>) -> Option<int> {
    if exists|i: int| 0 <= i < s.len() && (s[i] == '/' || s[i] == '?') {
        Some(choose|i: int| 0 <= i < s.len() && (s[i] == '/' || s[i] == '?') && forall|j: int| 0 <= j < i ==> !(s[j] == '/' || s[j] == '?'))
    } else {
        None
    }
}

fn find_path_start(s: &[char]) -> (r: Option<usize>)
    ensures
        match r {
            Some(i) => first_path_start(s@) == Some(i as int) && i < s@.len(),
            None => first_path_start(s@) is None,
        },
{
    let mut i: usize = 0;
    while i < s.len()
        invariant
            i <= s@.len(),
            forall|j: int| 0 <= j < i ==> !(s@[j] == '/' || s@[j] == '?'),
        decreases s@.len() - i,
    {
        if s[i] == '/' || s[i] == '?' {
            proof {
                let k = choose|k: int| 0 <= k < s@.len() && (s@[k] == '/' || s@[k] == '?') && forall|j: int| 0 <= j < k ==> !(s@[j] == '/' || s@[j] == '?');
                if k < i {
                } else if k > i {
                }
            }
            return Some(i);
        }
        i += 1;
    }
    None
}

/// Whitespace or a control character.
pub open spec fn ws_or_ctrl(c: char) -> bool {
    is_ws(c) || is_ctrl(c)
}

/// Some character of `s` is whitespace or a control character.
pub open spec fn has_ws_or_ctrl(s: Seq<char>) -> bool {
    exists|i: int| 0 <= i < s.len() && #[trigger] ws_or_ctrl(s[i])
}

/// The components of a URL after `scheme://`, given the lowercased scheme.
#[verifier::opaque]
pub open spec fn url_rest_spec(scheme: Seq<char>, rest: Seq<char>) -> Result<UrlView, ErrId> {
    let (authority, pq) = match first_path_start(rest) {
        Some(i) => (rest.take(i), rest.skip(i)),
        None => (rest, "/"@),
    };
    if authority.len() == 0 {
        Err((ModelErrorKind::EmptyInput, "URL host"))
    } else if authority.contains('@') {
        Err((ModelErrorKind::InvalidInput, "URL authority"))
    } else {
        match absolute_authority_spec(authority) {
            Err(e) => Err(e),
            Ok((h, port)) => {
                let host = lower_seq(strip_brackets(h));
                if host.len() == 0 {
                    Err((ModelErrorKind::EmptyInput, "URL host"))
                } else if has_ws_or_ctrl(host) {
                    Err((ModelErrorKind::InvalidInput, "URL host"))
                } else {
                    match first_index(pq, '?') {
                        Some(q) => Ok(
                            (
                                scheme,
                                host,
                                port,
                                if q == 0 {
                                    "/"@
                                } else {
                                    pq.take(q)
                                },
                                Some(pq.skip(q + 1)),
                            ),
                        ),
                        None => Ok((scheme, host, port, pq, None)),
                    }
                }
            },
        }
    }
}

/// A strict absolute URL: a valid scheme, `://`, no fragment, no user information, a non-empty
/// host with an optional port, and an optional path and query.
pub open spec fn url_spec(s: Seq<char>) -> Result<UrlView, ErrId> {
    match split_text(s, "://"@) {
        None => Err((ModelErrorKind::InvalidSyntax, "URL")),
        Some((sc, rest)) => if !scheme_ok(sc) {
            Err((ModelErrorKind::InvalidInput, "URL scheme"))
        } else if s.contains('#') {
            Err((ModelErrorKind::InvalidInput, "URL fragment"))
        } else {
            url_rest_spec(lower_seq(sc), rest)
        },
    }
}

proof fn lemma_path_start_minimal(s: Seq<char>, k: int)
    requires
        0 <= k < s.len(),
        s[k] == '/' || s[k] == '?',
    ensures
        exists|i: int|
            0 <= i < s.len() && (s[i] == '/' || s[i] == '?') && forall|j: int| 0 <= j < i ==> !(s[j] == '/' || s[j] == '?'),
    decreases k,
{
    if exists|j: int| 0 <= j < k && (s[j] == '/' || s[j] == '?') {
        let j = choose|j: int| 0 <= j < k && (s[j] == '/' || s[j] == '?');
        lemma_path_start_minimal(s, j);
    } else {
        assert(forall|j: int| 0 <= j < k ==> !(s[j] == '/' || s[j] == '?'));
    }
}

proof fn lemma_first_path_start(s: Seq<char>)
    ensures
        first_path_start(s) matches Some(i) ==> 0 <= i < s.len() && (s[i] == '/' || s[i] == '?'),
{
    if exists|i: int| 0 <= i < s.len() && (s[i] == '/' || s[i] == '?') {
        let k = choose|i: int| 0 <= i < s.len() && (s[i] == '/' || s[i] == '?');
        lemma_path_start_minimal(s, k);
    }
}

proof fn lemma_char_minimal(s: Seq<char>, c: char, k: int)
    requires
        0 <= k < s.len(),
        s[k] == c,
    ensures
        exists|i: int| 0 <= i < s.len() && s[i] == c && forall|j: int| 0 <= j < i ==> s[j] != c,
    decreases k,
{
    if exists|j: int| 0 <= j < k && s[j] == c {
        let j = choose|j: int| 0 <= j < k && s[j] == c;
        lemma_char_minimal(s, c, j);
    } else {
        assert(forall|j: int| 0 <= j < k ==> s[j] != c);
    }
}

pub proof fn lemma_first_index_bounds(s: Seq<char>, c: char)
    ensures
        first_index(s, c) matches Some(i) ==> 0 <= i < s.len() && s[i] == c && forall|j: int| 0 <= j < i ==> s[j] != c,
        first_index(s, c) is None ==> forall|j: int| 0 <= j < s.len() ==> s[j] != c,
{
    if exists|i: int| 0 <= i < s.len() && s[i] == c {
        let k = choose|i: int| 0 <= i < s.len() && s[i] == c;
        lemma_char_minimal(s, c, k);
    }
}

proof fn lemma_lower_idempotent(s: Seq<char>)
    ensures
        lower_seq(lower_seq(s)) == lower_seq(s),
        lower_seq(s).len() == s.len(),
{
    assert forall|i: int| 0 <= i < s.len() implies #[trigger] lower(lower(s[i])) == lower(s[i]) by {
        let c = s[i];
        if is_upper(c) {
            assert((c as u32) + 32 >= 'a' as u32 && (c as u32) + 32 <= 'z' as u32);
        }
    }
    assert(lower_seq(lower_seq(s)) =~= lower_seq(s));
}

proof fn lemma_strip_start_clean(s: Seq<char>)
    ensures
        strip_brackets_start(s).len() > 0 ==> strip_brackets_start(s)[0] != '[' && strip_brackets_start(s)[0] != ']',
    decreases s.len(),
{
    if s.len() > 0 && (s[0] == '[' || s[0] == ']') {
        lemma_strip_start_clean(s.drop_first());
    }
}

proof fn lemma_strip_end_prefix(s: Seq<char>)
    ensures
        strip_brackets_end(s).len() <= s.len(),
        strip_brackets_end(s) == s.take(strip_brackets_end(s).len() as int),
        strip_brackets_end(s).len() > 0 ==> strip_brackets_end(s).last() != '[' && strip_brackets_end(s).last() != ']',
    decreases s.len(),
{
    if s.len() > 0 && (s.last() == '[' || s.last() == ']') {
        lemma_strip_end_prefix(s.drop_last());
        assert(s.drop_last().take(strip_brackets_end(s).len() as int) =~= s.take(strip_brackets_end(s).len() as int));
    } else {
        assert(s.take(s.len() as int) =~= s);
    }
}

proof fn lemma_host_clean(h: Seq<char>)
    ensures
        ({
            let host = lower_seq(strip_brackets(h));
            &&& lower_seq(host) == host
            &&& host.len() > 0 ==> host[0] != '[' && host.last() != ']'
        }),
{
    let stripped = strip_brackets(h);
    lemma_strip_start_clean(h);
    lemma_strip_end_prefix(strip_brackets_start(h));
    lemma_lower_idempotent(stripped);
    let host = lower_seq(stripped);
    if host.len() > 0 {
        assert(stripped[0] == strip_brackets_start(h)[0]);
        assert(host[0] == lower(stripped[0]));
        assert(host.last() == lower(stripped.last()));
    }
}

proof fn lemma_port_nonzero(a: Seq<char>)
    ensures
        absolute_authority_spec(a) matches Ok((_, p)) ==> p != Some(0u16),
{
}

proof fn lemma_path_clean(pq: Seq<char>)
    requires
        pq.len() > 0,
        pq[0] == '/' || pq[0] == '?',
    ensures
        ({
            let path = match first_index(pq, '?') {
                Some(q) => if q == 0 {
                    "/"@
                } else {
                    pq.take(q)
                },
                None => pq,
            };
            path.len() > 0 && path[0] == '/' && !path.contains('?')
        }),
{
    reveal_strlit("/");
    lemma_first_index_bounds(pq, '?');
    match first_index(pq, '?') {
        Some(q) => {
            if q > 0 {
                assert(pq.take(q)[0] == pq[0]);
                assert forall|j: int| 0 <= j < pq.take(q).len() implies pq.take(q)[j] != '?' by {
                    assert(pq.take(q)[j] == pq[j]);
                }
            }
        },
        None => {},
    }
}

#[verifier::rlimit(40)]
#[verifier::spinoff_prover]
proof fn lemma_rest_normalized(scheme: Seq<char>, rest: Seq<char>)
    requires
        url_rest_spec(scheme, rest) is Ok,
    ensures
        ({
            let v = url_rest_spec(scheme, rest)->Ok_0;
            &&& v.0 == scheme
            &&& v.1.len() > 0 && lower_seq(v.1) == v.1
            &&& v.1[0] != '[' && v.1.last() != ']'
            &&& !has_ws_or_ctrl(v.1)
            &&& v.3.len() > 0 && v.3[0] == '/' && !v.3.contains('?')
            &&& v.2 != Some(0u16)
        }),
{
    reveal(url_rest_spec);
    reveal_strlit("/");
    lemma_first_path_start(rest);
    let (authority, pq) = match first_path_start(rest) {
        Some(i) => (rest.take(i), rest.skip(i)),
        None => (rest, "/"@),
    };
    if first_path_start(rest) is Some {
        let i = first_path_start(rest)->Some_0;
        assert(pq[0] == rest[i]);
    }
    lemma_port_nonzero(authority);
    let (h, port) = absolute_authority_spec(authority)->Ok_0;
    lemma_host_clean(h);
    lemma_path_clean(pq);
}

/// A parsed URL is normalized: its scheme and host are non-empty and lowercase, the host
/// carries no brackets at either end and no whitespace or control character, the path starts
/// with `/` and holds no `?`, an explicit port is never 0, and the parsed text had no fragment.
pub proof fn law_parsed_url_is_normalized(s: Seq<char>)
    requires
        url_spec(s) is Ok,
    ensures
        ({
            let v = url_spec(s)->Ok_0;
            &&& v.0.len() > 0 && lower_seq(v.0) == v.0
            &&& v.1.len() > 0 && lower_seq(v.1) == v.1
            &&& v.1[0] != '[' && v.1.last() != ']'
            &&& !has_ws_or_ctrl(v.1)
            &&& v.3.len() > 0 && v.3[0] == '/' && !v.3.contains('?')
            &&& v.2 != Some(0u16)
            &&& !s.contains('#')
        }),
{
    let (sc, rest) = split_text(s, "://"@)->Some_0;
    lemma_lower_idempotent(sc);
    lemma_rest_normalized(lower_seq(sc), rest);
}

fn any_ws_or_ctrl(s: &[char]) -> (r: bool)
    ensures
        r == has_ws_or_ctrl(s@),
{
    let mut i: usize = 0;
    while i < s.len()
        invariant
            i <= s@.len(),
            forall|j: int| 0 <= j < i ==> !ws_or_ctrl(#[trigger] s@[j]),
        decreases s@.len() - i,
    {
        if char_is_whitespace(s[i]) || char_is_control(s[i]) {
            assert(ws_or_ctrl(s@[i as int]));
            return true;
        }
        i += 1;
    }
    false
}

fn url_rest(scheme: String, rest: Vec<char>) -> (r: Result<UrlParts, RuleModelError>)
    ensures
        match (r, url_rest_spec(scheme@, rest@)) {
            (Ok(u), Ok(v)) => url_view(u) == v,
            (Err(e), Err(id)) => is_err(e, id),
            _ => false,
        },
{
    proof {
        reveal(url_rest_spec);
    }
    let (authority, pq) = match find_path_start(&rest) {
        Some(i) => (slice_vec(&rest, 0, i), slice_vec(&rest, i, rest.len())),
        None => (rest, chars_of("/")),
    };
    if authority.len() == 0 {
        return Err(RuleModelError::EmptyInput { context: "URL host", message: lit("url host is empty") });
    }
    if contains_char(&authority, '@') {
        return Err(RuleModelError::InvalidInput {
            context: "URL authority",
            message: lit("URL user information is not supported"),
        });
    }
    let (h, port) = parse_absolute_authority(&authority)?;
    let host = lower_chars(&trim_brackets(&h));
    if host.len() == 0 {
        return Err(RuleModelError::EmptyInput { context: "URL host", message: lit("url host is empty") });
    }
    if any_ws_or_ctrl(&host) {
        return Err(RuleModelError::InvalidInput {
            context: "URL host",
            message: lit("URL host must not contain whitespace or control characters"),
        });
    }
    assert(pq@.len() == pq.len());
    let (path, query) = match find_char(&pq, '?') {
        Some(q) => {
            let p = if q == 0 {
                lit("/")
            } else {
                substring(&pq, 0, q)
            };
            (p, Some(substring(&pq, q + 1, pq.len())))
        },
        None => (string_of(&pq), None),
    };
    Ok(UrlParts { scheme, host: string_of(&host), port, path, query })
}

impl UrlParts {
    /// Parses a strict absolute URL and rejects missing schemes, hosts, or invalid ports.
    pub fn parse(input: &str) -> (r: Result<UrlParts, RuleModelError>)
        ensures
            match (r, url_spec(input@)) {
                (Ok(u), Ok(v)) => url_view(u) == v,
                (Err(e), Err(id)) => is_err(e, id),
                _ => false,
            },
    {
        let s = chars_of(input);
        let (sc, rest) = match split_text_once(&s, "://") {
            Some(p) => p,
            None => {
                return Err(RuleModelError::InvalidSyntax {
                    context: "URL",
                    message: concat3("url must include scheme: ", input, ""),
                });
            },
        };
        if !valid_scheme(&sc) {
            let t = string_of(&sc);
            return Err(RuleModelError::InvalidInput {
                context: "URL scheme",
                message: concat3("invalid URL scheme `", t.as_str(), "`"),
            });
        }
        if contains_char(&s, '#') {
            return Err(RuleModelError::InvalidInput {
                context: "URL fragment",
                message: lit("absolute request URLs must not include a fragment"),
            });
        }
        url_rest(string_of(&lower_chars(&sc)), rest)
    }

    /// The explicit port, or the default of `http`/`ws` (80) and `https`/`wss` (443).
    pub open spec fn effective_port_spec(self) -> Option<u16> {
        match self.port {
            Some(p) => Some(p),
            None => if self.scheme@ == "http"@ || self.scheme@ == "ws"@ {
                Some(80)
            } else if self.scheme@ == "https"@ || self.scheme@ == "wss"@ {
                Some(443)
            } else {
                None
            },
        }
    }

    /// Returns the explicit port or the standard HTTP(S)/WebSocket scheme default.
    pub fn effective_port(&self) -> (r: Option<u16>)
        ensures
            r == self.effective_port_spec(),
    {
        if let Some(p) = self.port {
            return Some(p);
        }
        let s = chars_of(self.scheme.as_str());
        if seq_eq(&s, &chars_of("http")) || seq_eq(&s, &chars_of("ws")) {
            Some(80)
        } else if seq_eq(&s, &chars_of("https")) || seq_eq(&s, &chars_of("wss")) {
            Some(443)
        } else {
            None
        }
    }

    /// The request target: the path, plus `?` and the query when the query is non-empty.
    pub open spec fn origin_form_spec(self) -> Seq<char> {
        match self.query {
            Some(q) => if q@.len() > 0 {
                self.path@ + "?"@ + q@
            } else {
                self.path@
            },
            None => self.path@,
        }
    }

    /// Reconstructs the path plus a non-empty query for an HTTP request target.
    pub fn origin_form(&self) -> (r: String)
        ensures
            r@ == self.origin_form_spec(),
    {
        match &self.query {
            Some(q) => if q.as_str().is_empty() == false {
                concat3(self.path.as_str(), "?", q.as_str())
            } else {
                self.path.clone()
            },
            None => self.path.clone(),
        }
    }
}

/// Whether an exact-URL matcher admits a URL: same scheme, host, effective port, and path, and
/// the same query when the matcher names one.
pub open spec fn exact_match_spec(expected: Seq<char>, url: UrlParts) -> bool {
    match url_spec(expected) {
        Err(_) => false,
        Ok(v) => v.0 == url.scheme@ && v.1 == url.host@ && effective_port_of(v) == url.effective_port_spec()
            && v.3 == url.path@ && (v.4 is None || v.4 == opt_text(url.query)),
    }
}

/// The effective port of a URL given as plain data.
pub open spec fn effective_port_of(v: UrlView) -> Option<u16> {
    match v.2 {
        Some(p) => Some(p),
        None => if v.0 == "http"@ || v.0 == "ws"@ {
            Some(80)
        } else if v.0 == "https"@ || v.0 == "wss"@ {
            Some(443)
        } else {
            None
        },
    }
}

/// The effective port of a URL: an explicit port always; otherwise 80 for `http` and `ws` and
/// 443 for `https` and `wss`, whether the URL is parsed or given as plain data.
pub proof fn law_effective_port_defaults(u: UrlParts, v: UrlView)
    ensures
        u.port matches Some(p) ==> u.effective_port_spec() == Some(p),
        u.port is None && (u.scheme@ == seq!['h', 't', 't', 'p'] || u.scheme@ == seq!['w', 's'])
            ==> u.effective_port_spec() == Some(80u16),
        u.port is None && (u.scheme@ == seq!['h', 't', 't', 'p', 's'] || u.scheme@ == seq!['w', 's', 's'])
            ==> u.effective_port_spec() == Some(443u16),
        v.2 matches Some(p) ==> effective_port_of(v) == Some(p),
        v.2 is None && (v.0 == seq!['h', 't', 't', 'p'] || v.0 == seq!['w', 's']) ==> effective_port_of(v) == Some(80u16),
        v.2 is None && (v.0 == seq!['h', 't', 't', 'p', 's'] || v.0 == seq!['w', 's', 's'])
            ==> effective_port_of(v) == Some(443u16),
        effective_port_of(url_view(u)) == u.effective_port_spec(),
{
    reveal_strlit("http");
    reveal_strlit("ws");
    reveal_strlit("https");
    reveal_strlit("wss");
    assert("http"@ =~= seq!['h', 't', 't', 'p']);
    assert("ws"@ =~= seq!['w', 's']);
    assert("https"@ =~= seq!['h', 't', 't', 'p', 's']);
    assert("wss"@ =~= seq!['w', 's', 's']);
}

fn opt_str_eq(a: &Option<String>, b: &Option<String>) -> (r: bool)
    ensures
        r == (opt_text(*a) == opt_text(*b)),
{
    match (a, b) {
        (Some(x), Some(y)) => str_eq(x.as_str(), y.as_str()),
        (None, None) => true,
        _ => false,
    }
}

/// Reports whether the exact-URL matcher `expected` admits `url`.
pub fn exact_url_matches(expected: &str, url: &UrlParts) -> (r: bool)
    ensures
        r == exact_match_spec(expected@, *url),
{
    let e = match UrlParts::parse(expected) {
        Ok(e) => e,
        Err(_) => {
            return false;
        },
    };
    str_eq(e.scheme.as_str(), url.scheme.as_str()) && str_eq(e.host.as_str(), url.host.as_str())
        && e.effective_port() == url.effective_port() && str_eq(e.path.as_str(), url.path.as_str())
        && (e.query.is_none() || opt_str_eq(&e.query, &url.query))
}


// ---------------------------------------------------------------------------
// Redirect locations and remote-map targets
// ---------------------------------------------------------------------------

/// Every `%` from position `i` on starts a `%XX` escape with two hexadecimal digits.
pub open spec fn percent_ok_from(s: Seq<char>, i: int) -> bool
    decreases s.len() - i,
{
    if i < 0 || i >= s.len() {
        true
    } else if s[i] != '%' {
        percent_ok_from(s, i + 1)
    } else {
        i + 2 < s.len() && is_hex(s[i + 1]) && is_hex(s[i + 2]) && percent_ok_from(s, i + 3)
    }
}

/// Checks that every `%` starts a two-digit hexadecimal escape.
pub fn validate_percent_encoding(value: &[char]) -> (r: Result<(), RuleModelError>)
    ensures
        match r {
            Ok(()) => percent_ok_from(value@, 0),
            Err(e) => !percent_ok_from(value@, 0) && is_err(
                e,
                (ModelErrorKind::InvalidInput, "redirect location"),
            ),
        },
{
    let mut i: usize = 0;
    let n = value.len();
    while i < n
        invariant
            n == value@.len(),
            percent_ok_from(value@, 0) == percent_ok_from(value@, i as int),
        decreases n - i,
    {
        if value[i] != '%' {
            i += 1;
            continue;
        }
        if n - i <= 2 || !char_is_hex(value[i + 1]) || !char_is_hex(value[i + 2]) {
            return Err(RuleModelError::InvalidInput {
                context: "redirect location",
                message: lit("redirect location contains an invalid percent escape"),
            });
        }
        i += 3;
    }
    Ok(())
}

/// Characters a redirect location must not hold: ASCII controls, space, DEL, and backslash.
pub open spec fn bad_location_char(c: char) -> bool {
    c <= ' ' || c == '\u{7f}' || c == '\\'
}

/// The first path segment of a relative reference: the text before the first `/` or `?`.
pub open spec fn first_segment(s: Seq<char>) -> Seq<char> {
    match first_path_start(s) {
        Some(i) => s.take(i),
        None => s,
    }
}

/// Whether a redirect `Location` value is acceptable: non-empty, no controls, spaces, DEL, or
/// backslashes, valid percent escapes, and, ignoring any fragment, either empty, an absolute
/// `http`/`https` URL, a scheme-relative `//authority...` reference, or a relative reference whose
/// first segment holds no `:`.
pub open spec fn redirect_spec(v: Seq<char>) -> Result<(), ErrId> {
    if v.len() == 0 {
        Err((ModelErrorKind::EmptyInput, "redirect location"))
    } else if exists|i: int| 0 <= i < v.len() && #[trigger] bad_location_char(v[i]) {
        Err((ModelErrorKind::InvalidInput, "redirect location"))
    } else if !percent_ok_from(v, 0) {
        Err((ModelErrorKind::InvalidInput, "redirect location"))
    } else {
        let reference = match first_index(v, '#') {
            Some(h) => v.take(h),
            None => v,
        };
        reference_spec(reference)
    }
}

/// What the part of a redirect location before any fragment must be: empty, an absolute
/// `http`/`https` URL, a scheme-relative `//authority...` reference, or a relative reference
/// whose first segment holds no `:`.
pub open spec fn reference_spec(reference: Seq<char>) -> Result<(), ErrId> {
    if reference.len() == 0 {
        Ok(())
    } else {
        match first_index(reference, ':') {
            Some(c) if scheme_ok(reference.take(c)) => {
                let l = lower_seq(reference.take(c));
                if l != "http"@ && l != "https"@ {
                    Err((ModelErrorKind::UnsupportedInput, "redirect location scheme"))
                } else {
                    match url_spec(reference) {
                        Ok(_) => Ok(()),
                        Err(e) => Err(e),
                    }
                }
            },
            _ => if reference.len() >= 2 && reference[0] == '/' && reference[1] == '/' {
                match url_spec("http://"@ + reference.skip(2)) {
                    Ok(_) => Ok(()),
                    Err(e) => Err(e),
                }
            } else if first_segment(reference).contains(':') {
                Err((ModelErrorKind::InvalidInput, "redirect location"))
            } else {
                Ok(())
            },
        }
    }
}

/// Checks the part of a redirect location before any fragment.
fn validate_reference(reference: &Vec<char>) -> (r: Result<(), RuleModelError>)
    ensures
        match (r, reference_spec(reference@)) {
            (Ok(()), Ok(())) => true,
            (Err(e), Err(id)) => is_err(e, id),
            _ => false,
        },
{
    if reference.len() == 0 {
        return Ok(());
    }
    if let Some(c) = find_char(reference, ':') {
        let scheme = slice_vec(reference, 0, c);
        if valid_scheme(&scheme) {
            let l = lower_chars(&scheme);
            if !seq_eq(&l, &chars_of("http")) && !seq_eq(&l, &chars_of("https")) {
                return Err(RuleModelError::UnsupportedInput {
                    context: "redirect location scheme",
                    message: lit("absolute redirect locations must use http or https"),
                });
            }
            let r = string_of(reference);
            return match UrlParts::parse(r.as_str()) {
                Ok(_) => Ok(()),
                Err(e) => Err(e),
            };
        }
    }
    if reference.len() >= 2 && reference[0] == '/' && reference[1] == '/' {
        let authority = substring(reference, 2, reference.len());
        let target = crate::text::concat("http://", authority.as_str());
        assert(reference@.skip(2) =~= reference@.subrange(2, reference@.len() as int));
        return match UrlParts::parse(target.as_str()) {
            Ok(_) => Ok(()),
            Err(e) => Err(e),
        };
    }
    let segment = match find_path_start(reference) {
        Some(p) => slice_vec(reference, 0, p),
        None => reference.clone(),
    };
    if contains_char(&segment, ':') {
        return Err(RuleModelError::InvalidInput {
            context: "redirect location",
            message: lit("a relative redirect's first path segment must not contain `:`"),
        });
    }
    Ok(())
}

/// Validates one HTTP `Location` URI-reference without normalizing its text.
pub fn validate_redirect_location(value: &str) -> (r: Result<(), RuleModelError>)
    ensures
        match (r, redirect_spec(value@)) {
            (Ok(()), Ok(())) => true,
            (Err(e), Err(id)) => is_err(e, id),
            _ => false,
        },
{
    let v = chars_of(value);
    if v.len() == 0 {
        return Err(RuleModelError::EmptyInput {
            context: "redirect location",
            message: lit("redirect location must not be empty"),
        });
    }
    let mut i: usize = 0;
    while i < v.len()
        invariant
            v@ == value@,
            v@.len() > 0,
            i <= v@.len(),
            forall|j: int| 0 <= j < i ==> !bad_location_char(#[trigger] v@[j]),
        decreases v@.len() - i,
    {
        let c = v[i];
        if c <= ' ' || c == '\u{7f}' || c == '\\' {
            assert(bad_location_char(v@[i as int]));
            return Err(RuleModelError::InvalidInput {
                context: "redirect location",
                message: lit("redirect location must not contain whitespace, controls, or backslashes"),
            });
        }
        i += 1;
    }
    validate_percent_encoding(&v)?;
    let reference = match find_char(&v, '#') {
        Some(h) => slice_vec(&v, 0, h),
        None => v,
    };
    validate_reference(&reference)
}

/// Whether a `map.remote` target is acceptable: literal inline targets (without `$`) must be
/// strict `http` or `https` URLs; other values are checked when the request runs.
pub open spec fn map_remote_spec(v: ValueView) -> Result<(), ErrId> {
    if v.0 != ValueKind::Inline || v.1.contains('$') {
        Ok(())
    } else {
        match url_spec(v.1) {
            Err(e) => Err(e),
            Ok(u) => if u.0 != "http"@ && u.0 != "https"@ {
                Err((ModelErrorKind::InvalidInput, "map.remote target"))
            } else {
                Ok(())
            },
        }
    }
}

/// Validates a literal `map.remote` target.
pub fn validate_map_remote_target(value: &Value) -> (r: Result<(), RuleModelError>)
    ensures
        match (r, map_remote_spec(value@)) {
            (Ok(()), Ok(())) => true,
            (Err(e), Err(id)) => is_err(e, id),
            _ => false,
        },
{
    let target = match value {
        Value::Inline(t) => t,
        _ => {
            return Ok(());
        },
    };
    if contains_char(&chars_of(target.as_str()), '$') {
        return Ok(());
    }
    let parsed = UrlParts::parse(target.as_str())?;
    let s = chars_of(parsed.scheme.as_str());
    if !seq_eq(&s, &chars_of("http")) && !seq_eq(&s, &chars_of("https")) {
        return Err(RuleModelError::InvalidInput {
            context: "map.remote target",
            message: concat3("map.remote target must use http or https; got `", target.as_str(), "`"),
        });
    }
    Ok(())
}

} // verus!


