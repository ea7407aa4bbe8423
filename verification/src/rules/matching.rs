//! Request metadata and the literal parts of matching: glob detection, host suffixes, path
//! prefixes, header lookup, case-insensitive containment, and deterministic sampling.
use crate::text::{
    chars_of, ci_eq, ci_eq_str, contains_char, ends_with, has_prefix, has_suffix, lit, seq_eq,
    slice_vec, starts_with, str_eq,
};
use vstd::prelude::*;
use vstd::utf8::encode_utf8;

verus! {

/// Immutable request snapshot used for matching.
#[derive(Clone, Debug, PartialEq, Eq)]
pub struct RequestMeta {
    /// HTTP method; method conditions compare it case-insensitively.
    pub method: String,
    /// Absolute raw URL used by URL matchers.
    pub url: String,
    /// Request fields in wire order; duplicate names are preserved.
    pub headers: Vec<(String, String)>,
    /// Request body bytes.
    pub body: Vec<u8>,
    /// Optional peer address or IP exposed to client-IP conditions.
    pub client_ip: Option<String>,
    /// Optional target address or IP exposed to server-IP conditions.
    pub server_ip: Option<String>,
}

/// Immutable upstream-response snapshot for response-phase conditions.
#[derive(Clone, Debug, PartialEq, Eq)]
pub struct ResponseMeta {
    /// HTTP response status code.
    pub status: u16,
    /// Response fields in wire order; duplicate names are preserved.
    pub headers: Vec<(String, String)>,
}

/// Compact source provenance for a matched action.
#[derive(Clone, Debug, PartialEq, Eq)]
pub struct MatchedRule {
    /// Caller-supplied rules group.
    pub group: String,
    /// One-based line number within the group.
    pub line: usize,
    /// Comment-free source retained for diagnostics and trace explanations.
    pub raw: String,
}

/// Observable shape of a rule snapshot's candidate index.
#[derive(Clone, Debug, PartialEq, Eq)]
pub struct RuleSetStats {
    /// Total parsed rules, including disabled rules.
    pub rules: usize,
    /// Rules retained for inspection but excluded from resolution.
    pub disabled: usize,
    /// Distinct exact-host buckets in the domain index.
    pub domain_exact_entries: usize,
    /// Distinct suffix-host buckets in the domain index.
    pub domain_suffix_entries: usize,
    /// Rules reachable through an exact-host or suffix-host bucket.
    pub indexed_rules: usize,
    /// Rules evaluated from the global bucket because they cannot use a host bucket.
    pub global_rules: usize,
    /// Required literals compiled into the regex prefilter.
    pub prefilter_literals: usize,
    /// Regex rules guarded by at least one required-literal prefilter entry.
    pub prefilter_rules: usize,
    /// Distinct glob programs compiled for the snapshot.
    pub compiled_globs: usize,
    /// Distinct lowercased body literals compiled for the snapshot.
    pub compiled_body_literals: usize,
}

// ---------------------------------------------------------------------------
// Glob syntax
// ---------------------------------------------------------------------------

/// A pattern uses glob syntax when it holds `*` or `\`.
pub open spec fn glob_active(p: Seq<char>) -> bool {
    p.contains('*') || p.contains('\\')
}

/// Reports whether a pattern uses glob syntax.
pub fn glob_syntax_is_active(pattern: &str) -> (r: bool)
    ensures
        r == glob_active(pattern@),
{
    let p = chars_of(pattern);
    contains_char(&p, '*') || contains_char(&p, '\\')
}

/// Drops leading and trailing square brackets.
pub open spec fn strip_brackets(s: Seq<char>) -> Seq<char> {
    strip_brackets_end(strip_brackets_start(s))
}

pub open spec fn strip_brackets_start(s: Seq<char>) -> Seq<char>
    decreases s.len(),
{
    if s.len() > 0 && (s[0] == '[' || s[0] == ']') {
        strip_brackets_start(s.drop_first())
    } else {
        s
    }
}

pub open spec fn strip_brackets_end(s: Seq<char>) -> Seq<char>
    decreases s.len(),
{
    if s.len() > 0 && (s.last() == '[' || s.last() == ']') {
        strip_brackets_end(s.drop_last())
    } else {
        s
    }
}

/// Drops leading and trailing square brackets (`trim_matches(['[', ']'])`).
pub fn trim_brackets(s: &[char]) -> (r: Vec<char>)
    ensures
        r@ == strip_brackets(s@),
{
    let mut a: usize = 0;
    assert(s@.skip(0) == s@);
    while a < s.len() && (s[a] == '[' || s[a] == ']')
        invariant
            a <= s@.len(),
            strip_brackets_start(s@) == strip_brackets_start(s@.skip(a as int)),
        decreases s@.len() - a,
    {
        assert(s@.skip(a as int).drop_first() == s@.skip(a + 1));
        a += 1;
    }
    let u = slice_vec(s, a, s.len());
    assert(u@ == s@.skip(a as int));
    let mut b: usize = u.len();
    assert(u@.take(u@.len() as int) == u@);
    while b > 0 && (u[b - 1] == '[' || u[b - 1] == ']')
        invariant
            b <= u@.len(),
            strip_brackets_end(u@) == strip_brackets_end(u@.take(b as int)),
        decreases b,
    {
        assert(u@.take(b as int).drop_last() == u@.take(b - 1));
        b -= 1;
    }
    let v = slice_vec(&u, 0, b);
    assert(v@ == u@.take(b as int));
    v
}

/// A host pattern needs a compiled glob when it uses glob syntax other than the whole-host
/// wildcards `*`/`**` and the `*.`/`**.` suffix forms.
pub open spec fn host_uses_regex(p: Seq<char>) -> bool {
    let q = strip_brackets(p);
    glob_active(q) && q != "*"@ && q != "**"@ && !has_prefix(q, "*."@) && !has_prefix(q, "**."@)
}

/// Reports whether a host pattern must be compiled as a glob.
pub fn host_pattern_uses_regex(pattern: &str) -> (r: bool)
    ensures
        r == host_uses_regex(pattern@),
{
    let q = trim_brackets(&chars_of(pattern));
    let active = contains_char(&q, '*') || contains_char(&q, '\\');
    active && !seq_eq(&q, &chars_of("*")) && !seq_eq(&q, &chars_of("**")) && !starts_with(
        &q,
        &chars_of("*."),
    ) && !starts_with(&q, &chars_of("**."))
}

/// The label prefix of `host` when it ends with `.` followed by `base`.
pub open spec fn dotted_prefix(host: Seq<char>, base: Seq<char>) -> Option<Seq<char>> {
    if has_suffix(host, base) && host.len() > base.len() && host[host.len() - base.len() - 1]
        == '.' {
        Some(host.take(host.len() - base.len() - 1))
    } else {
        None
    }
}

/// Returns the label prefix of `host` when it ends with `.{base}`.
pub fn dotted_suffix_prefix(host: &str, base: &str) -> (r: Option<String>)
    ensures
        match (r, dotted_prefix(host@, base@)) {
            (Some(a), Some(b)) => a@ == b,
            (None, None) => true,
            _ => false,
        },
{
    let h = chars_of(host);
    let b = chars_of(base);
    if !ends_with(&h, &b) || h.len() <= b.len() {
        return None;
    }
    let cut = h.len() - b.len() - 1;
    if h[cut] != '.' {
        return None;
    }
    let p = slice_vec(&h, 0, cut);
    Some(crate::text::string_of(&p))
}

/// A path-prefix pattern admits `path` when it is `/`, equals the path, or is a prefix that ends
/// with `/` or stops at a `/` of the path.
pub open spec fn path_prefix(pattern: Seq<char>, path: Seq<char>) -> bool {
    pattern == "/"@ || path == pattern || (has_prefix(path, pattern) && (has_suffix(pattern, "/"@) || (
    path.len() > pattern.len() && path[pattern.len() as int] == '/')))
}

/// What a path prefix admits: every path that starts with it when it ends with `/`; a longer
/// path that starts with it only where the path continues with `/`; the prefix itself; and, for
/// `/`, every path. A path that does not start with the prefix is refused (unless the prefix is
/// `/`), and so is one that continues past a prefix not ending in `/` with anything but `/`.
pub proof fn law_path_prefix(pattern: Seq<char>, path: Seq<char>)
    ensures
        has_prefix(path, pattern) && pattern.len() > 0 && pattern.last() == '/' ==> path_prefix(pattern, path),
        has_prefix(path, pattern) && path.len() > pattern.len() && path[pattern.len() as int] == '/'
            ==> path_prefix(pattern, path),
        path_prefix(pattern, pattern),
        path_prefix(seq!['/'], path),
        !has_prefix(path, pattern) && pattern != seq!['/'] ==> !path_prefix(pattern, path),
        has_prefix(path, pattern) && path.len() > pattern.len() && path[pattern.len() as int] != '/'
            && (pattern.len() == 0 || pattern.last() != '/') ==> !path_prefix(pattern, path),
{
    reveal_strlit("/");
    assert("/"@ =~= seq!['/']);
    if pattern.len() > 0 {
        assert(has_suffix(pattern, "/"@) <==> pattern.last() == '/') by {
            if pattern.last() == '/' {
                assert(pattern.skip(pattern.len() - 1) =~= seq!['/']);
            }
            if has_suffix(pattern, "/"@) {
                assert(pattern.skip(pattern.len() - 1)[0] == pattern.last());
            }
        }
    }
    assert(pattern.take(pattern.len() as int) =~= pattern);
    if path == pattern {
    } else if has_prefix(path, pattern) {
        assert(path.take(pattern.len() as int) == pattern);
        if path.len() == pattern.len() {
            assert(path =~= pattern);
        }
    }
    if pattern == seq!['/'] {
    }
    if has_prefix(path, pattern) && path.len() > pattern.len() && pattern == seq!['/'] {
        assert(path[0] == '/') by {
            assert(path.take(1)[0] == path[0]);
        }
    }
}

/// Reports whether a path-prefix pattern admits `path`.
pub fn path_prefix_matches(pattern: &str, path: &str) -> (r: bool)
    ensures
        r == path_prefix(pattern@, path@),
{
    let p = chars_of(pattern);
    let s = chars_of(path);
    if seq_eq(&p, &chars_of("/")) {
        return true;
    }
    if seq_eq(&s, &p) {
        return true;
    }
    starts_with(&s, &p) && (ends_with(&p, &chars_of("/")) || (s.len() > p.len() && s[p.len()]
        == '/'))
}

// ---------------------------------------------------------------------------
// Headers and text
// ---------------------------------------------------------------------------

/// The value of the first header whose name equals `name`, ignoring ASCII case.
pub open spec fn header_value(headers: Seq<(String, String)>, name: Seq<char>) -> Option<Seq<char>>
    decreases headers.len(),
{
    if headers.len() == 0 {
        None
    } else if ci_eq(headers[0].0@, name) {
        Some(headers[0].1@)
    } else {
        header_value(headers.drop_first(), name)
    }
}

/// Returns the value of the first header named `name`, ignoring ASCII case.
pub fn header<'a>(headers: &'a [(String, String)], name: &str) -> (r: Option<&'a str>)
    ensures
        match r {
            Some(v) => header_value(headers@, name@) == Some(v@),
            None => header_value(headers@, name@) is None,
        },
{
    let mut i: usize = 0;
    assert(headers@.skip(0) == headers@);
    while i < headers.len()
        invariant
            i <= headers@.len(),
            header_value(headers@, name@) == header_value(headers@.skip(i as int), name@),
        decreases headers@.len() - i,
    {
        assert(headers@.skip(i as int)[0] == headers@[i as int]);
        assert(headers@.skip(i as int).drop_first() == headers@.skip(i + 1));
        if ci_eq_str(headers[i].0.as_str(), name) {
            return Some(headers[i].1.as_str());
        }
        i += 1;
    }
    None
}

/// ASCII lowercase of one byte.
pub open spec fn lower_byte(b: u8) -> u8 {
    if 65 <= b && b <= 90 {
        (b + 32) as u8
    } else {
        b
    }
}

/// Byte `needle` occurs at `i` in `hay`, ignoring ASCII case.
pub open spec fn ci_bytes_at(hay: Seq<u8>, needle: Seq<u8>, i: int) -> bool {
    0 <= i && i + needle.len() <= hay.len() && forall|k: int| 0 <= k < needle.len() ==> lower_byte(
        #[trigger] hay[i + k],
    ) == lower_byte(needle[k])
}

/// `needle` is empty or occurs in `hay` ignoring ASCII case, compared byte by byte.
pub open spec fn contains_ci(hay: Seq<u8>, needle: Seq<u8>) -> bool {
    needle.len() == 0 || exists|i: int| #[trigger] ci_bytes_at(hay, needle, i)
}

fn lower_u8(b: u8) -> (r: u8)
    ensures
        r == lower_byte(b),
{
    if 65 <= b && b <= 90 {
        b + 32
    } else {
        b
    }
}

/// Reports whether `needle` occurs in `haystack` ignoring ASCII case.
pub fn contains_ascii_case_insensitive(haystack: &str, needle: &str) -> (r: bool)
    ensures
        r == contains_ci(encode_utf8(haystack@), encode_utf8(needle@)),
{
    let h = haystack.as_bytes();
    let n = needle.as_bytes();
    assert(h@ == encode_utf8(haystack@));
    assert(n@ == encode_utf8(needle@));
    if n.len() == 0 {
        return true;
    }
    if n.len() > h.len() {
        assert forall|i: int| !ci_bytes_at(h@, n@, i) by {}
        return false;
    }
    let mut i: usize = 0;
    let last = h.len() - n.len();
    while i <= last
        invariant
            h@ == encode_utf8(haystack@),
            n@ == encode_utf8(needle@),
            last == h.len() - n.len(),
            n.len() > 0,
            n.len() <= h.len(),
            n@.len() > 0,
            n@.len() <= h@.len(),
            i <= h@.len() - n@.len() + 1,
            forall|j: int| 0 <= j < i ==> !ci_bytes_at(h@, n@, j),
        decreases h@.len() - i,
    {
        let mut k: usize = 0;
        let mut same = true;
        while k < n.len()
            invariant
                k <= n.len(),
                i + n.len() <= h.len(),
                same == forall|m: int| 0 <= m < k ==> lower_byte(#[trigger] h@[i + m]) == lower_byte(
                    n@[m],
                ),
            decreases n@.len() - k,
        {
            if lower_u8(h[i + k]) != lower_u8(n[k]) {
                same = false;
            }
            k += 1;
        }
        if same {
            assert(ci_bytes_at(h@, n@, i as int));
            return true;
        }
        i += 1;
    }
    assert forall|j: int| !ci_bytes_at(h@, n@, j) by {
        if 0 <= j && j + n@.len() <= h@.len() {
            assert(j < i);
        }
    }
    false
}

// ---------------------------------------------------------------------------
// Deterministic sampling
// ---------------------------------------------------------------------------

/// 64-bit FNV-1a over `bytes`, starting from `h`.
pub open spec fn fnv_from(h: u64, bytes: Seq<u8>) -> u64
    decreases bytes.len(),
{
    if bytes.len() == 0 {
        h
    } else {
        (fnv_from(h, bytes.drop_last()) ^ (bytes.last() as u64)).wrapping_mul(1099511628211u64)
    }
}

/// The sampling hash of a request: FNV-1a over the URL and method bytes, mixed with the rule's
/// line.
pub open spec fn sample_hash(url: Seq<u8>, method: Seq<u8>, line: u64) -> u64 {
    fnv_from(14695981039346656037u64, url + method) ^ line
}

/// Whether a request is sampled at `permille` thousandths for the rule at `line`.
pub open spec fn sampled(url: Seq<u8>, method: Seq<u8>, line: u64, permille: u16) -> bool {
    if permille >= 1000 {
        true
    } else if permille == 0 {
        false
    } else {
        (sample_hash(url, method, line) % 1000) < permille as u64
    }
}

/// Deterministically samples a request for the rule at `line` in thousandths.
pub fn chance(req: &RequestMeta, line: usize, permille: u16) -> (r: bool)
    ensures
        r == sampled(encode_utf8(req.url@), encode_utf8(req.method@), line as u64, permille),
{
    if permille >= 1000 {
        return true;
    }
    if permille == 0 {
        return false;
    }
    let url = req.url.as_str().as_bytes();
    let method = req.method.as_str().as_bytes();
    let ghost all = url@ + method@;
    let mut hash: u64 = 14695981039346656037;
    let mut i: usize = 0;
    assert(all.take(0) =~= Seq::<u8>::empty());
    while i < url.len()
        invariant
            i <= url@.len(),
            all == url@ + method@,
            hash == fnv_from(14695981039346656037u64, all.take(i as int)),
        decreases url@.len() - i,
    {
        assert(all.take(i + 1).drop_last() == all.take(i as int));
        assert(all.take(i + 1).last() == url@[i as int]);
        hash = (hash ^ (url[i] as u64)).wrapping_mul(1099511628211);
        i += 1;
    }
    let mut j: usize = 0;
    while j < method.len()
        invariant
            j <= method@.len(),
            all == url@ + method@,
            hash == fnv_from(14695981039346656037u64, all.take(url@.len() + j)),
        decreases method@.len() - j,
    {
        assert(all.take(url@.len() + j + 1).drop_last() == all.take(url@.len() + j));
        assert(all.take(url@.len() + j + 1).last() == method@[j as int]);
        hash = (hash ^ (method[j] as u64)).wrapping_mul(1099511628211);
        j += 1;
    }
    assert(all.take((url@.len() + method@.len()) as int) == all);
    hash = hash ^ (line as u64);
    (hash % 1000) < (permille as u64)
}

} // verus!
