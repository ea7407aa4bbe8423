//! Host-keyed rule indexing: which index bucket a matcher belongs to, the suffixes a request
//! host is looked up under, and order-preserving de-duplication of candidate rule ids.
use crate::rules::matching::{strip_brackets, trim_brackets};
use crate::rules::regex_matcher::Matcher;
use crate::rules::url::{glob_view, url_spec, GlobMatcher, UrlParts};
use crate::text::{
    chars_of, char_is_alnum, contains_char, has_prefix, is_alnum, lower_chars, lower_seq, seq_eq,
    slice_vec, starts_with_str, string_of, substring,
};
use std::collections::HashSet;
use vstd::prelude::*;

verus! {

broadcast use vstd::std_specs::hash::group_hash_axioms;

/// The index bucket of a rule matcher: an exact host, a domain suffix, or the global list.
#[derive(Debug)]
pub enum MatcherIndexKey {
    Exact(String),
    Suffix(String),
    Global,
}

/// An index bucket as plain data.
pub enum IndexKeyView {
    Exact(Seq<char>),
    Suffix(Seq<char>),
    Global,
}

impl View for MatcherIndexKey {
    type V = IndexKeyView;

    open spec fn view(&self) -> IndexKeyView {
        match self {
            MatcherIndexKey::Exact(h) => IndexKeyView::Exact(h@),
            MatcherIndexKey::Suffix(h) => IndexKeyView::Suffix(h@),
            MatcherIndexKey::Global => IndexKeyView::Global,
        }
    }
}

/// Characters a plain domain may hold: ASCII alphanumerics, `-`, `.`, `:`, and `_`.
pub open spec fn domain_char(c: char) -> bool {
    is_alnum(c) || c == '-' || c == '.' || c == ':' || c == '_'
}

/// A non-empty host made of plain domain characters only.
pub open spec fn plain_domain(host: Seq<char>) -> bool {
    host.len() > 0 && forall|i: int| 0 <= i < host.len() ==> #[trigger] domain_char(host[i])
}

/// Reports whether `host` is a non-empty run of plain domain characters.
pub fn is_plain_domain(host: &str) -> (r: bool)
    ensures
        r == plain_domain(host@),
{
    let h = chars_of(host);
    if h.len() == 0 {
        return false;
    }
    let mut i: usize = 0;
    while i < h.len()
        invariant
            h@ == host@,
            i <= h@.len(),
            forall|j: int| 0 <= j < i ==> #[trigger] domain_char(h@[j]),
        decreases h@.len() - i,
    {
        let c = h[i];
        if !(char_is_alnum(c) || c == '-' || c == '.' || c == ':' || c == '_') {
            assert(!domain_char(h@[i as int]));
            return false;
        }
        i += 1;
    }
    true
}

/// The wildcard base of a host pattern: what follows a leading `**.`, `*.`, or `.`.
pub open spec fn wildcard_base(host: Seq<char>) -> Option<Seq<char>> {
    if has_prefix(host, "**."@) {
        Some(host.skip(3))
    } else if has_prefix(host, "*."@) {
        Some(host.skip(2))
    } else if has_prefix(host, "."@) {
        Some(host.skip(1))
    } else {
        None
    }
}

/// The index bucket of a glob host pattern (after dropping brackets and lowercasing): the
/// global list for an empty, `*`, or `?`-bearing host; a suffix bucket for a wildcard over a
/// plain domain; an exact bucket for a plain domain; the global list otherwise.
pub open spec fn glob_key_spec(pattern: Seq<char>) -> IndexKeyView {
    let host = lower_seq(strip_brackets(pattern));
    if host.len() == 0 || host == "*"@ || host.contains('?') {
        IndexKeyView::Global
    } else {
        match wildcard_base(host) {
            Some(base) => if plain_domain(base) {
                IndexKeyView::Suffix(base)
            } else {
                IndexKeyView::Global
            },
            None => if host.contains('*') {
                IndexKeyView::Global
            } else if plain_domain(host) {
                IndexKeyView::Exact(host)
            } else {
                IndexKeyView::Global
            },
        }
    }
}

/// The index bucket of a glob matcher, chosen by its host pattern.
pub fn glob_index_key(glob: &GlobMatcher) -> (r: MatcherIndexKey)
    ensures
        r@ == glob_key_spec(glob.host@),
{
    let host = lower_chars(&trim_brackets(&chars_of(glob.host.as_str())));
    proof {
        reveal_strlit("**.");
        reveal_strlit("*.");
        reveal_strlit(".");
    }
    if host.len() == 0 || seq_eq(&host, &chars_of("*")) || contains_char(&host, '?') {
        return MatcherIndexKey::Global;
    }
    let base = if starts_with_str(&host, "**.") {
        Some(slice_vec(&host, 3, host.len()))
    } else if starts_with_str(&host, "*.") {
        Some(slice_vec(&host, 2, host.len()))
    } else if starts_with_str(&host, ".") {
        Some(slice_vec(&host, 1, host.len()))
    } else {
        None
    };
    match base {
        Some(b) => {
            let text = string_of(&b);
            if is_plain_domain(text.as_str()) {
                MatcherIndexKey::Suffix(text)
            } else {
                MatcherIndexKey::Global
            }
        },
        None => {
            if contains_char(&host, '*') {
                return MatcherIndexKey::Global;
            }
            let text = string_of(&host);
            if is_plain_domain(text.as_str()) {
                MatcherIndexKey::Exact(text)
            } else {
                MatcherIndexKey::Global
            }
        },
    }
}

/// The index bucket of an exact-URL matcher: the exact bucket of its lowercased, unbracketed
/// host when the URL parses, the global list otherwise.
pub open spec fn exact_url_key_spec(expected: Seq<char>) -> IndexKeyView {
    match url_spec(expected) {
        Ok(u) => IndexKeyView::Exact(lower_seq(strip_brackets(u.1))),
        Err(_) => IndexKeyView::Global,
    }
}

/// The index bucket of an exact-URL matcher.
pub fn exact_url_index_key(expected: &str) -> (r: MatcherIndexKey)
    ensures
        r@ == exact_url_key_spec(expected@),
{
    match UrlParts::parse(expected) {
        Ok(url) => {
            let host = lower_chars(&trim_brackets(&chars_of(url.host.as_str())));
            MatcherIndexKey::Exact(string_of(&host))
        },
        Err(_) => MatcherIndexKey::Global,
    }
}

/// Start positions, below `n`, of the text after each `.` that is not the last character.
pub open spec fn label_starts(h: Seq<char>, n: int) -> Seq<int>
    decreases n,
{
    if n <= 0 {
        Seq::empty()
    } else if h[n - 1] == '.' && n < h.len() {
        label_starts(h, n - 1).push(n)
    } else {
        label_starts(h, n - 1)
    }
}

/// The suffixes a host is looked up under: the whole host, then the text after each dot that
/// is followed by more text, from the longest to the shortest.
pub open spec fn host_suffix_list(h: Seq<char>) -> Seq<Seq<char>> {
    seq![h] + label_starts(h, h.len() as int).map_values(|s: int| h.skip(s))
}

/// The texts of a list of strings.
pub open spec fn texts(v: Seq<String>) -> Seq<Seq<char>> {
    v.map_values(|s: String| s@)
}

/// Returns `host` and each of its dot-separated suffixes, longest first.
pub fn host_suffixes(host: &str) -> (r: Vec<String>)
    ensures
        texts(r@) == host_suffix_list(host@),
{
    let h = chars_of(host);
    let mut out: Vec<String> = Vec::new();
    out.push(string_of(&h));
    let mut i: usize = 0;
    while i < h.len()
        invariant
            h@ == host@,
            i <= h@.len(),
            texts(out@) == seq![h@] + label_starts(h@, i as int).map_values(|s: int| h@.skip(s)),
        decreases h@.len() - i,
    {
        let ghost before = out@;
        if h[i] == '.' && i + 1 < h.len() {
            let s = substring(&h, i + 1, h.len());
            out.push(s);
            assert(h@.skip(i + 1) =~= h@.subrange(i + 1, h@.len() as int));
            assert(texts(out@) =~= texts(before).push(s@));
            assert(label_starts(h@, i + 1) == label_starts(h@, i as int).push(i + 1));
            assert(label_starts(h@, i + 1).map_values(|s: int| h@.skip(s)) =~= label_starts(
                h@,
                i as int,
            ).map_values(|s: int| h@.skip(s)).push(h@.skip(i + 1)));
        }
        i += 1;
    }
    out
}

/// The values of `vs` that a seen-set (starting as `seen`) had not yet held, in order.
pub open spec fn fresh_values(seen: Set<usize>, vs: Seq<usize>) -> Seq<usize>
    decreases vs.len(),
{
    if vs.len() == 0 {
        Seq::empty()
    } else {
        let before = fresh_values(seen, vs.drop_last());
        if seen.union(vs.drop_last().to_set()).contains(vs.last()) {
            before
        } else {
            before.push(vs.last())
        }
    }
}

/// Appends each value of `values` not yet in `seen` to `out`, recording it in `seen`.
pub fn extend_unique(out: &mut Vec<usize>, seen: &mut HashSet<usize>, values: &[usize])
    ensures
        final(out)@ == old(out)@ + fresh_values(old(seen)@, values@),
        final(seen)@ == old(seen)@.union(values@.to_set()),
{
    let ghost seen0 = seen@;
    let ghost out0 = out@;
    let mut i: usize = 0;
    while i < values.len()
        invariant
            i <= values@.len(),
            out@ == out0 + fresh_values(seen0, values@.take(i as int)),
            seen@ == seen0.union(values@.take(i as int).to_set()),
        decreases values@.len() - i,
    {
        let v = values[i];
        let ghost prefix = values@.take(i as int);
        assert(values@.take(i + 1).drop_last() =~= prefix);
        assert(values@.take(i + 1).last() == v);
        if seen.insert(v) {
            out.push(v);
        }
        assert(values@.take(i + 1).to_set() == prefix.to_set().insert(v)) by {
            assert(values@.take(i + 1) =~= prefix.push(v));
            prefix.lemma_push_to_set_commute(v);
        }
        assert(seen@ =~= seen0.union(values@.take(i + 1).to_set()));
        i += 1;
    }
    assert(values@.take(values@.len() as int) =~= values@);
}

/// The first lookup suffix is the host itself; each later one is the host from a position just
/// after one of its dots, never empty.
pub proof fn law_host_suffixes_follow_dots(h: Seq<char>)
    ensures
        host_suffix_list(h)[0] == h,
        host_suffix_list(h).len() == label_starts(h, h.len() as int).len() + 1,
        forall|k: int|
            1 <= k < host_suffix_list(h).len() ==> #[trigger] host_suffix_list(h)[k] == h.skip(
                label_starts(h, h.len() as int)[k - 1],
            ),
        forall|k: int|
            0 <= k < label_starts(h, h.len() as int).len() ==> 1 <= #[trigger] label_starts(
                h,
                h.len() as int,
            )[k] < h.len() && h[label_starts(h, h.len() as int)[k] - 1] == '.',
{
    lemma_label_starts(h, h.len() as int);
    let ls = label_starts(h, h.len() as int);
    let tail = ls.map_values(|s: int| h.skip(s));
    assert(host_suffix_list(h) == seq![h] + tail);
    assert forall|k: int| 1 <= k < host_suffix_list(h).len() implies #[trigger] host_suffix_list(h)[k]
        == h.skip(ls[k - 1]) by {
        assert(host_suffix_list(h)[k] == tail[k - 1]);
    }
}

proof fn lemma_label_starts(h: Seq<char>, n: int)
    requires
        0 <= n <= h.len(),
    ensures
        forall|k: int|
            0 <= k < label_starts(h, n).len() ==> 1 <= #[trigger] label_starts(h, n)[k] < h.len()
                && h[label_starts(h, n)[k] - 1] == '.',
    decreases n,
{
    if n > 0 {
        lemma_label_starts(h, n - 1);
        let prev = label_starts(h, n - 1);
        if h[n - 1] == '.' && n < h.len() {
            assert(label_starts(h, n) == prev.push(n));
            assert forall|k: int| 0 <= k < label_starts(h, n).len() implies 1 <= #[trigger] label_starts(
                h,
                n,
            )[k] < h.len() && h[label_starts(h, n)[k] - 1] == '.' by {
                if k < prev.len() {
                    assert(label_starts(h, n)[k] == prev[k]);
                }
            }
        }
    }
}

/// The values `fresh_values` yields are distinct, new to the seen-set, and drawn from `vs`.
proof fn lemma_fresh_values(seen: Set<usize>, vs: Seq<usize>)
    ensures
        forall|i: int, j: int|
            0 <= i < j < fresh_values(seen, vs).len() ==> #[trigger] fresh_values(seen, vs)[i]
                != #[trigger] fresh_values(seen, vs)[j],
        forall|i: int|
            0 <= i < fresh_values(seen, vs).len() ==> !seen.contains(
                #[trigger] fresh_values(seen, vs)[i],
            ) && vs.contains(fresh_values(seen, vs)[i]),
    decreases vs.len(),
{
    if vs.len() > 0 {
        let rest = vs.drop_last();
        lemma_fresh_values(seen, rest);
        let before = fresh_values(seen, rest);
        let v = vs.last();
        assert forall|i: int| 0 <= i < before.len() implies vs.contains(#[trigger] before[i]) by {
            let w = before[i];
            assert(rest.contains(w));
            let k = choose|k: int| 0 <= k < rest.len() && rest[k] == w;
            assert(vs[k] == w);
        }
        if !seen.union(rest.to_set()).contains(v) {
            assert forall|i: int| 0 <= i < before.len() implies before[i] != v by {
                assert(rest.contains(before[i]));
                assert(rest.to_set().contains(before[i]));
            }
            assert(vs[vs.len() - 1] == v);
        }
    }
}

/// Extending a duplicate-free list whose items are all recorded as seen keeps it duplicate-free.
pub proof fn law_extend_unique_keeps_distinct(out: Seq<usize>, seen: Set<usize>, values: Seq<usize>)
    requires
        forall|i: int, j: int| 0 <= i < j < out.len() ==> out[i] != out[j],
        forall|i: int| 0 <= i < out.len() ==> seen.contains(#[trigger] out[i]),
    ensures
        forall|i: int, j: int|
            0 <= i < j < (out + fresh_values(seen, values)).len() ==> #[trigger] (out + fresh_values(
                seen,
                values,
            ))[i] != #[trigger] (out + fresh_values(seen, values))[j],
{
    lemma_fresh_values(seen, values);
    let f = fresh_values(seen, values);
    let all = out + f;
    assert forall|i: int, j: int| 0 <= i < j < all.len() implies #[trigger] all[i] != #[trigger] all[j] by {
        if j < out.len() {
        } else if i < out.len() {
            assert(all[j] == f[j - out.len()]);
            assert(seen.contains(out[i]));
        } else {
            assert(all[i] == f[i - out.len()]);
            assert(all[j] == f[j - out.len()]);
        }
    }
}

/// The index bucket of a rule matcher: exact URLs and globs by their host, every other matcher
/// in the global list.
pub open spec fn matcher_key_spec(m: Matcher) -> IndexKeyView {
    match m {
        Matcher::ExactUrl(u) => exact_url_key_spec(u@),
        Matcher::Glob(g) => glob_key_spec(g.host@),
        _ => IndexKeyView::Global,
    }
}

/// The index bucket of a rule matcher.
pub fn matcher_index_key(matcher: &Matcher) -> (r: MatcherIndexKey)
    ensures
        r@ == matcher_key_spec(*matcher),
{
    match matcher {
        Matcher::ExactUrl(expected) => exact_url_index_key(expected.as_str()),
        Matcher::Glob(glob) => glob_index_key(glob),
        _ => MatcherIndexKey::Global,
    }
}

} // verus!
