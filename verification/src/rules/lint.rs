//! Shadow-lint results: rules that can never win one of their single-action families.
use crate::rules::action::Action;
use crate::rules::compiled::{host_match_spec, key_id, CompiledGlobSet};
use crate::rules::evaluate::{bind_matcher_resources, bound_matcher, lemma_matcher_result_view, matcher_result};
use crate::rules::family::{action_family, effective_actions, survivors, ResolutionPolicy};
use crate::rules::index::texts;
use crate::rules::matching::{dotted_prefix, dotted_suffix_prefix, glob_active, glob_syntax_is_active, strip_brackets};
use crate::rules::regex_matcher::Matcher;
use crate::rules::snapshot::Rule;
use crate::rules::url::{opt_text, url_spec, url_view, GlobMatcher, UrlParts};
use crate::text::{
    chars_of, has_prefix, lower_seq, seq_eq, slice_vec, starts_with, str_eq, string_of, utf8_byte_len,
    utf8_len,
};
use vstd::prelude::*;

verus! {

/// A rule that can never win one or more of its single-action families because an earlier,
/// unconditional, broader rule always claims them first.
///
/// Within one snapshot rules resolve in group order, then line order, with `@important` rules
/// moved ahead; single-action families keep the first matching action. A later, more specific
/// rule is therefore silently ignored when a broader earlier rule covers every URL it matches.
#[derive(Clone, Debug, PartialEq, Eq)]
pub struct LintFinding {
    /// Group of the rule that never takes effect.
    pub group: String,
    /// One-based source line of the shadowed rule.
    pub line: usize,
    /// Comment-free source of the shadowed rule.
    pub raw: String,
    /// Group of the earlier rule that wins first.
    pub shadowed_by_group: String,
    /// One-based source line of the earlier rule.
    pub shadowed_by_line: usize,
    /// Comment-free source of the earlier rule.
    pub shadowed_by_raw: String,
    /// Single-action families the later rule can never win.
    pub families: Vec<String>,
}

/// Bounded conservative shadow-lint result.
#[derive(Clone, Debug, PartialEq, Eq)]
pub struct LintReport {
    /// Findings retained in deterministic rule/family order.
    pub findings: Vec<LintFinding>,
    /// False when the comparison, finding, or report-byte budget was reached.
    pub complete: bool,
    /// Pairwise rule comparisons performed.
    pub comparisons: usize,
    /// Matcher-source bytes charged for the comparisons performed.
    pub comparison_bytes: usize,
}

/// Total UTF-8 byte length of a list of texts.
pub open spec fn total_bytes(v: Seq<Seq<char>>) -> nat
    decreases v.len(),
{
    if v.len() == 0 {
        0
    } else {
        total_bytes(v.drop_last()) + utf8_len(v.last())
    }
}

/// The bytes a finding is charged against the report budget: its four texts and its family
/// names, the four texts' sum saturating at `usize::MAX`.
pub open spec fn finding_bytes(f: LintFinding) -> nat {
    let texts_total = utf8_len(f.group@) + utf8_len(f.raw@) + utf8_len(f.shadowed_by_group@)
        + utf8_len(f.shadowed_by_raw@) + total_bytes(texts(f.families@));
    if texts_total > usize::MAX {
        usize::MAX as nat
    } else {
        texts_total
    }
}

/// `v` capped at `usize::MAX`.
pub open spec fn cap(v: nat) -> nat {
    if v > usize::MAX {
        usize::MAX as nat
    } else {
        v
    }
}

/// The report-budget size of a finding.
pub fn lint_finding_bytes(finding: &LintFinding) -> (r: usize)
    ensures
        r == finding_bytes(*finding),
{
    let mut families: usize = 0;
    let mut i: usize = 0;
    while i < finding.families.len()
        invariant
            i <= finding.families@.len(),
            families == cap(total_bytes(texts(finding.families@.take(i as int)))),
        decreases finding.families@.len() - i,
    {
        proof {
            assert(texts(finding.families@.take(i + 1)).drop_last() =~= texts(
                finding.families@.take(i as int),
            ));
        }
        families = families.saturating_add(utf8_byte_len(finding.families[i].as_str()));
        i += 1;
    }
    assert(finding.families@.take(i as int) =~= finding.families@);
    utf8_byte_len(finding.group.as_str()).saturating_add(utf8_byte_len(finding.raw.as_str())).saturating_add(
        utf8_byte_len(finding.shadowed_by_group.as_str()),
    ).saturating_add(utf8_byte_len(finding.shadowed_by_raw.as_str())).saturating_add(families)
}

/// A prefix of a list of texts has no more bytes than the whole list.
pub proof fn lemma_total_bytes_prefix(v: Seq<Seq<char>>, k: int)
    requires
        0 <= k <= v.len(),
    ensures
        total_bytes(v.take(k)) <= total_bytes(v),
    decreases v.len() - k,
{
    if k < v.len() {
        lemma_total_bytes_prefix(v.drop_last(), k);
        assert(v.drop_last().take(k) =~= v.take(k));
    } else {
        assert(v.take(k) =~= v);
    }
}

/// `a + b`, saturating at `usize::MAX`.
pub open spec fn sat_add(a: nat, b: nat) -> nat {
    if a + b > usize::MAX {
        usize::MAX as nat
    } else {
        a + b
    }
}

/// UTF-8 length of an optional text, zero when absent.
pub open spec fn opt_len(o: Option<Seq<char>>) -> nat {
    match o {
        Some(t) => utf8_len(t),
        None => 0,
    }
}

/// The matcher-source bytes charged for comparing a matcher: its glob parts, saturating; two
/// for a port; the regex pattern; a negation's inner matcher.
pub open spec fn matcher_bytes(m: Matcher) -> nat
    decreases m,
{
    match m {
        Matcher::ExactUrl(u) => utf8_len(u@),
        Matcher::Glob(g) => sat_add(
            sat_add(
                sat_add(sat_add(opt_len(opt_text(g.scheme)), utf8_len(g.host@)), opt_len(opt_text(g.port))),
                opt_len(opt_text(g.path)),
            ),
            opt_len(opt_text(g.query)),
        ),
        Matcher::Port(_) => 2,
        Matcher::Regex(r) => utf8_len(r.pattern_spec()),
        Matcher::Not(inner) => matcher_bytes(*inner),
    }
}

fn opt_bytes(o: &Option<String>) -> (r: usize)
    ensures
        r == opt_len(opt_text(*o)),
{
    match o {
        Some(t) => utf8_byte_len(t.as_str()),
        None => 0,
    }
}

/// The matcher-source bytes charged for comparing a matcher.
pub fn matcher_source_bytes(matcher: &Matcher) -> (r: usize)
    ensures
        r == matcher_bytes(*matcher),
    decreases matcher,
{
    match matcher {
        Matcher::ExactUrl(url) => utf8_byte_len(url.as_str()),
        Matcher::Glob(glob) => opt_bytes(&glob.scheme).saturating_add(utf8_byte_len(glob.host.as_str())).saturating_add(
            opt_bytes(&glob.port),
        ).saturating_add(opt_bytes(&glob.path)).saturating_add(opt_bytes(&glob.query)),
        Matcher::Port(_) => 2,
        Matcher::Regex(regex) => utf8_byte_len(regex.pattern()),
        Matcher::Not(inner) => matcher_source_bytes(inner),
    }
}

// ---------------------------------------------------------------------------
// Single-action families of a rule
// ---------------------------------------------------------------------------

/// The names of the single-action families among `acts`, each once, in order of first
/// occurrence.
pub open spec fn family_names(acts: Seq<Action>) -> Seq<Seq<char>>
    decreases acts.len(),
{
    if acts.len() == 0 {
        seq![]
    } else {
        let before = family_names(acts.drop_last());
        let f = action_family(acts.last());
        if f.policy() != ResolutionPolicy::Stackable && !before.contains(f.name()) {
            before.push(f.name())
        } else {
            before
        }
    }
}

/// The actions of a rule that take effect after `skip` is applied.
pub open spec fn effective_of(actions: Seq<Action>) -> Seq<Action> {
    survivors(actions, actions.len() as int).0.map_values(|k: int| actions[k])
}

/// The single-action families a rule's effective actions belong to.
pub open spec fn rule_families(rule: Rule) -> Seq<Seq<char>> {
    family_names(effective_of(rule.actions@))
}

/// Whether a list of names holds `name`.
pub(crate) fn holds_name(names: &Vec<String>, name: &str) -> (r: bool)
    ensures
        r == texts(names@).contains(name@),
{
    let mut i: usize = 0;
    while i < names.len()
        invariant
            i <= names@.len(),
            forall|j: int| 0 <= j < i ==> names@[j]@ != name@,
        decreases names@.len() - i,
    {
        if str_eq(names[i].as_str(), name) {
            assert(texts(names@)[i as int] == name@);
            return true;
        }
        i += 1;
    }
    proof {
        if texts(names@).contains(name@) {
            let j = choose|j: int| 0 <= j < texts(names@).len() && texts(names@)[j] == name@;
            assert(names@[j]@ == name@);
        }
    }
    false
}

/// The single-action families of a rule's effective actions, each once.
pub fn single_families(rule: &Rule) -> (r: Vec<String>)
    ensures
        texts(r@) == rule_families(*rule),
{
    let acts = effective_actions(rule.actions.as_slice());
    let ghost eff = effective_of(rule.actions@);
    assert forall|k: int| 0 <= k < acts@.len() implies *acts@[k] == eff[k] by {}
    let mut families: Vec<String> = Vec::new();
    let mut i: usize = 0;
    assert(eff.take(0) =~= Seq::<Action>::empty());
    assert(texts(families@) =~= Seq::<Seq<char>>::empty());
    while i < acts.len()
        invariant
            i <= acts@.len(),
            acts@.len() == eff.len(),
            forall|k: int| 0 <= k < acts@.len() ==> *acts@[k] == eff[k],
            texts(families@) == family_names(eff.take(i as int)),
        decreases acts@.len() - i,
    {
        assert(eff.take(i + 1).drop_last() =~= eff.take(i as int));
        assert(eff.take(i + 1).last() == *acts@[i as int]);
        if acts[i].is_single() {
            let name = acts[i].family().as_str();
            if !holds_name(&families, name) {
                let ghost before = texts(families@);
                families.push(string_of(&chars_of(name)));
                assert(texts(families@) =~= before.push(name@));
            }
        }
        i += 1;
    }
    assert(eff.take(i as int) =~= eff);
    families
}

// ---------------------------------------------------------------------------
// Matcher coverage
// ---------------------------------------------------------------------------

/// Whether host pattern `a` provably covers every host that pattern `b` covers: equal
/// patterns, an `a` of `*` or `**`, a literal `b` that `a` matches, or `a` of `**.base` over a
/// `b` of `**.`/`*.` and a literal base at or under `base`.
pub open spec fn host_subsumes(keys: Seq<(char, Seq<char>)>, a: Seq<char>, b: Seq<char>) -> bool {
    if a == b || a == "*"@ || a == "**"@ {
        true
    } else if !glob_active(b) {
        host_match_spec(keys, a, b, key_id(keys, ('.', lower_seq(strip_brackets(a)))))
    } else if has_prefix(a, "**."@) && (has_prefix(b, "**."@) || has_prefix(b, "*."@)) {
        let base = a.skip(3);
        let later = if has_prefix(b, "**."@) {
            b.skip(3)
        } else {
            b.skip(2)
        };
        !glob_active(later) && (later == base || dotted_prefix(later, base) is Some)
    } else {
        false
    }
}

/// Reports whether host pattern `a` covers every host that pattern `b` covers.
pub fn host_pattern_subsumes(a: &str, b: &str, globs: &CompiledGlobSet) -> (r: bool)
    ensures
        r == host_subsumes(globs.keys(), a@, b@),
{
    proof {
        reveal_strlit("*");
        reveal_strlit("**");
        reveal_strlit("**.");
        reveal_strlit("*.");
    }
    let ac = chars_of(a);
    let bc = chars_of(b);
    if seq_eq(&ac, &bc) || seq_eq(&ac, &chars_of("*")) || seq_eq(&ac, &chars_of("**")) {
        return true;
    }
    if !glob_syntax_is_active(b) {
        return globs.host_matches(a, b);
    }
    if starts_with(&ac, &chars_of("**.")) && (starts_with(&bc, &chars_of("**.")) || starts_with(&bc, &chars_of("*."))) {
        let base = string_of(&slice_vec(&ac, 3, ac.len()));
        assert(base@ =~= a@.skip(3));
        let later = if starts_with(&bc, &chars_of("**.")) {
            let t = string_of(&slice_vec(&bc, 3, bc.len()));
            assert(t@ =~= b@.skip(3));
            t
        } else {
            let t = string_of(&slice_vec(&bc, 2, bc.len()));
            assert(t@ =~= b@.skip(2));
            t
        };
        return !glob_syntax_is_active(later.as_str()) && (str_eq(later.as_str(), base.as_str())
            || dotted_suffix_prefix(later.as_str(), base.as_str()).is_some());
    }
    false
}

/// Whether glob matcher `a` provably covers every URL that glob matcher `b` covers: each of
/// its scheme, port, path and query is absent or equal to `b`'s, and its host covers `b`'s.
pub open spec fn glob_subsumes_spec(keys: Seq<(char, Seq<char>)>, a: GlobMatcher, b: GlobMatcher) -> bool {
    &&& (a.scheme is None || opt_text(a.scheme) == opt_text(b.scheme))
    &&& host_subsumes(keys, a.host@, b.host@)
    &&& (a.port is None || opt_text(a.port) == opt_text(b.port))
    &&& (a.path is None || opt_text(a.path) == opt_text(b.path))
    &&& (a.query is None || opt_text(a.query) == opt_text(b.query))
}

fn opt_str_eq(a: &Option<String>, b: &Option<String>) -> (r: bool)
    ensures
        r == (opt_text(*a) == opt_text(*b)),
{
    match (a, b) {
        (Some(x), Some(y)) => str_eq(x.as_str(), y.as_str()),
        (None, None) => true,
        _ => false,
    }
}

/// Reports whether glob matcher `a` covers every URL that glob matcher `b` covers.
pub fn glob_subsumes(a: &GlobMatcher, b: &GlobMatcher, globs: &CompiledGlobSet) -> (r: bool)
    ensures
        r == glob_subsumes_spec(globs.keys(), *a, *b),
{
    let scheme_ok = a.scheme.is_none() || opt_str_eq(&a.scheme, &b.scheme);
    let host_ok = host_pattern_subsumes(a.host.as_str(), b.host.as_str(), globs);
    let port_ok = a.port.is_none() || opt_str_eq(&a.port, &b.port);
    let path_ok = a.path.is_none() || opt_str_eq(&a.path, &b.path);
    let query_ok = a.query.is_none() || opt_str_eq(&a.query, &b.query);
    scheme_ok && host_ok && port_ok && path_ok && query_ok
}

/// Whether matcher `a` provably admits every URL that matcher `b` admits: glob over glob by
/// component coverage, glob over an exact URL by matching that URL, exact URL over the same
/// exact URL; nothing else is claimed.
pub open spec fn matcher_subsumes_spec(keys: Seq<(char, Seq<char>)>, a: Matcher, b: Matcher) -> bool {
    match (a, b) {
        (Matcher::Glob(x), Matcher::Glob(y)) => glob_subsumes_spec(keys, x, y),
        (Matcher::Glob(_), Matcher::ExactUrl(u)) => match url_spec(u@) {
            Ok(v) => exists|p: UrlParts| url_view(p) == v && #[trigger] matcher_result(
                keys,
                a,
                p,
                u@,
                bound_matcher(keys, a),
            ) is Some,
            Err(_) => false,
        },
        (Matcher::ExactUrl(x), Matcher::ExactUrl(y)) => x@ == y@,
        _ => false,
    }
}

/// Reports whether matcher `a` provably matches every URL that `b` matches.
pub fn matcher_subsumes(a: &Matcher, b: &Matcher, globs: &CompiledGlobSet) -> (r: bool)
    ensures
        r == matcher_subsumes_spec(globs.keys(), *a, *b),
{
    match (a, b) {
        (Matcher::Glob(x), Matcher::Glob(y)) => glob_subsumes(x, y, globs),
        (Matcher::Glob(_), Matcher::ExactUrl(url)) => {
            let resources = bind_matcher_resources(a, globs);
            match UrlParts::parse(url.as_str()) {
                Ok(parts) => {
                    let found = a.matches_compiled(&parts, url.as_str(), globs, &resources).is_some();
                    proof {
                        if !found {
                            assert forall|p: UrlParts| url_view(p) == url_view(parts) implies !(
                                #[trigger] matcher_result(globs.keys(), *a, p, url@, bound_matcher(globs.keys(), *a))
                                    is Some) by {
                                lemma_matcher_result_view(
                                    globs.keys(),
                                    *a,
                                    p,
                                    parts,
                                    url@,
                                    bound_matcher(globs.keys(), *a),
                                );
                            }
                        }
                    }
                    found
                },
                Err(_) => false,
            }
        },
        (Matcher::ExactUrl(x), Matcher::ExactUrl(y)) => str_eq(x.as_str(), y.as_str()),
        _ => false,
    }
}

} // verus!
