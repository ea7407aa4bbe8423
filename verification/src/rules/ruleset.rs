//! An immutable rule snapshot: its rules with the index and compiled resources built for them,
//! and the shadow lint that reports rules an earlier, broader rule always preempts.
use crate::rules::compiled::CompiledGlobSet;
use crate::rules::condition_eval::CompiledBodyContainsSet;
use crate::rules::index::texts;
use crate::rules::language::{
    MAX_RULE_LINT_COMPARISONS, MAX_RULE_LINT_COMPARISON_BYTES, MAX_RULE_LINT_FINDINGS,
    MAX_RULE_LINT_REPORT_BYTES,
};
use crate::rules::lint::{
    cap, finding_bytes, holds_name, lint_finding_bytes, matcher_bytes, matcher_source_bytes, matcher_subsumes,
    matcher_subsumes_spec, rule_families, sat_add, single_families, total_bytes, LintFinding,
    LintReport,
};
use crate::rules::matching::RuleSetStats;
use crate::text::{clone_strings, str_eq, utf8_len, views};
use crate::rules::rule_index::{
    count_disabled, index_buildable, total, RuleIndex,
};
use crate::rules::snapshot::{rules_globs_compile, Rule};
use vstd::prelude::*;

verus! {

/// An immutable, validated rules snapshot with its candidate index.
#[derive(Debug)]
pub struct RuleSet {
    version: u64,
    rules: Vec<Rule>,
    index: RuleIndex,
    socket_ips: Vec<(String, String)>,
}

impl RuleSet {
    #[verifier::type_invariant]
    closed spec fn inv(&self) -> bool {
        self.index.built_for(self.rules@, self.socket_ips@)
    }

    /// The snapshot's rules, in group order and then source-line order.
    pub closed spec fn rule_list(&self) -> Seq<Rule> {
        self.rules@
    }

    /// The publication identifier of the snapshot.
    pub closed spec fn version_spec(&self) -> u64 {
        self.version
    }

    /// The socket-address readings the snapshot's IP patterns were normalized with.
    pub closed spec fn socket_table(&self) -> Seq<(String, String)> {
        self.socket_ips@
    }

    /// The snapshot's index.
    pub closed spec fn index_spec(&self) -> RuleIndex {
        self.index
    }

    /// Builds a snapshot over parsed rules: indexes them and compiles their glob programs and
    /// body literals. `socket_ips` gives the IP of each IP pattern that reads as a socket
    /// address. `None` where a glob program does not compile or the body-literal automaton
    /// cannot be built.
    pub fn from_rules(version: u64, rules: Vec<Rule>, socket_ips: Vec<(String, String)>) -> (r: Option<Self>)
        ensures
            r is Some <==> index_buildable(rules@, socket_ips@),
            r matches Some(set) ==> set.rule_list() == rules@ && set.version_spec() == version
                && set.socket_table() == socket_ips@,
    {
        if !rules_globs_compile(&rules, &socket_ips) {
            return None;
        }
        if CompiledBodyContainsSet::for_rules(&rules).is_none() {
            return None;
        }
        let index = RuleIndex::build(&rules, &socket_ips);
        Some(RuleSet { version, rules, index, socket_ips })
    }

    /// The publication identifier of the snapshot.
    pub fn version(&self) -> (r: u64)
        ensures
            r == self.version_spec(),
    {
        self.version
    }

    /// The snapshot's rules.
    pub fn rules(&self) -> (r: &Vec<Rule>)
        ensures
            r@ == self.rule_list(),
    {
        &self.rules
    }

    /// Counts describing the snapshot's candidate index.
    pub fn stats(&self) -> (r: RuleSetStats)
        ensures
            r.rules == self.rule_list().len(),
            r.disabled == count_disabled(self.rule_list()),
            r.domain_exact_entries == self.index_spec().exact_groups().len(),
            r.domain_suffix_entries == self.index_spec().suffix_groups().len(),
            r.indexed_rules == total(self.index_spec().exact_groups()) + total(
                self.index_spec().suffix_groups(),
            ),
            r.global_rules == self.index_spec().global_list().len(),
            r.prefilter_literals == self.index_spec().literal_groups().len(),
            r.prefilter_rules == self.index_spec().prefilter_ids().len(),
            r.compiled_globs == self.index_spec().globs().keys().len(),
            r.compiled_body_literals == self.index_spec().body_literals().literal_texts().len(),
            self.index_spec().built_for(self.rule_list(), self.socket_table()),
    {
        proof {
            use_type_invariant(self);
        }
        self.index.stats(&self.rules)
    }
}

// ---------------------------------------------------------------------------
// Shadow lint
// ---------------------------------------------------------------------------

/// A finding as plain data: the shadowed rule's group, line and source, the earlier rule's
/// group, line and source, and the families the later rule can never win.
pub type FindingView = (Seq<char>, usize, Seq<char>, Seq<char>, usize, Seq<char>, Seq<Seq<char>>);

/// The plain data of a finding.
pub open spec fn finding_view(f: LintFinding) -> FindingView {
    (f.group@, f.line, f.raw@, f.shadowed_by_group@, f.shadowed_by_line, f.shadowed_by_raw@, texts(f.families@))
}

/// The report bytes a finding is charged: its four texts and its family names, capped at
/// `usize::MAX`.
pub open spec fn view_bytes(f: FindingView) -> nat {
    cap(utf8_len(f.0) + utf8_len(f.2) + utf8_len(f.3) + utf8_len(f.5) + total_bytes(f.6))
}

/// The progress of a lint pass: findings so far, the report bytes they were charged, the
/// comparisons made and the matcher bytes they were charged, and whether no budget ran out.
pub struct LintStateView {
    pub findings: Seq<FindingView>,
    pub report_bytes: nat,
    pub comparisons: nat,
    pub comparison_bytes: nat,
    pub complete: bool,
}

/// The enabled rules that are (or are not) `@important`, in order.
pub open spec fn enabled_with(rules: Seq<Rule>, important: bool) -> Seq<usize>
    decreases rules.len(),
{
    if rules.len() == 0 {
        seq![]
    } else {
        let before = enabled_with(rules.drop_last(), important);
        if !rules.last().disabled && rules.last().important == important {
            before.push((rules.len() - 1) as usize)
        } else {
            before
        }
    }
}

/// The order rules resolve in: enabled `@important` rules first, then the other enabled
/// rules, each in snapshot order.
pub open spec fn lint_order(rules: Seq<Rule>) -> Seq<usize> {
    enabled_with(rules, true) + enabled_with(rules, false)
}

/// The lint state with the budget marked as run out.
pub open spec fn exhausted(st: LintStateView) -> LintStateView {
    LintStateView { complete: false, ..st }
}

/// Comparing the rule at order position `p` with earlier positions from `q` on, with the
/// later rule's still-unclaimed families `remaining`: each comparison is charged against the
/// comparison and matcher-byte budgets; an earlier condition-free rule whose matcher covers
/// the later one's and that shares unclaimed families yields a finding for those families,
/// charged against the finding and report-byte budgets. The flag says whether a budget ran
/// out, which ends the whole pass.
pub open spec fn lint_inner(
    rules: Seq<Rule>,
    keys: Seq<(char, Seq<char>)>,
    order: Seq<usize>,
    p: int,
    q: int,
    remaining: Seq<Seq<char>>,
    st: LintStateView,
) -> (LintStateView, bool)
    decreases p - q,
{
    if q >= p {
        (st, false)
    } else {
        let later = rules[order[p] as int];
        let earlier = rules[order[q] as int];
        let size = sat_add(matcher_bytes(later.matcher), matcher_bytes(earlier.matcher));
        if st.comparisons >= MAX_RULE_LINT_COMPARISONS || st.comparison_bytes + size > MAX_RULE_LINT_COMPARISON_BYTES {
            (exhausted(st), true)
        } else {
            let st1 = LintStateView {
                comparisons: st.comparisons + 1,
                comparison_bytes: st.comparison_bytes + size,
                ..st
            };
            let shared = rule_families(earlier).filter(|f: Seq<char>| remaining.contains(f));
            if earlier.conditions@.len() > 0 || shared.len() == 0 || !matcher_subsumes_spec(
                keys,
                earlier.matcher,
                later.matcher,
            ) {
                lint_inner(rules, keys, order, p, q + 1, remaining, st1)
            } else {
                let rest = remaining.filter(|f: Seq<char>| !shared.contains(f));
                let f: FindingView = (
                    later.group@,
                    later.line,
                    later.raw@,
                    earlier.group@,
                    earlier.line,
                    earlier.raw@,
                    shared,
                );
                if st1.findings.len() >= MAX_RULE_LINT_FINDINGS || st1.report_bytes + view_bytes(f)
                    > MAX_RULE_LINT_REPORT_BYTES {
                    (exhausted(st1), true)
                } else {
                    let st2 = LintStateView {
                        findings: st1.findings.push(f),
                        report_bytes: st1.report_bytes + view_bytes(f),
                        ..st1
                    };
                    if rest.len() == 0 {
                        (st2, false)
                    } else {
                        lint_inner(rules, keys, order, p, q + 1, rest, st2)
                    }
                }
            }
        }
    }
}

/// The lint pass from order position `p` on: each rule with single-action families is
/// compared with the rules before it until a budget runs out.
pub open spec fn lint_outer(
    rules: Seq<Rule>,
    keys: Seq<(char, Seq<char>)>,
    order: Seq<usize>,
    p: int,
    st: LintStateView,
) -> LintStateView
    decreases order.len() - p,
{
    if p >= order.len() {
        st
    } else if rule_families(rules[order[p] as int]).len() == 0 {
        lint_outer(rules, keys, order, p + 1, st)
    } else {
        let (s2, stop) = lint_inner(rules, keys, order, p, 0, rule_families(rules[order[p] as int]), st);
        if stop {
            s2
        } else {
            lint_outer(rules, keys, order, p + 1, s2)
        }
    }
}

/// The lint report of `rules` against compiled globs `keys`.
pub open spec fn lint_spec(rules: Seq<Rule>, keys: Seq<(char, Seq<char>)>) -> LintStateView {
    lint_outer(
        rules,
        keys,
        lint_order(rules),
        0,
        LintStateView { findings: seq![], report_bytes: 0, comparisons: 0, comparison_bytes: 0, complete: true },
    )
}

/// The findings of a report as plain data.
pub open spec fn findings_view(fs: Seq<LintFinding>) -> Seq<FindingView> {
    fs.map_values(|f: LintFinding| finding_view(f))
}

/// The running state of a lint pass.
struct LintState {
    findings: Vec<LintFinding>,
    report_bytes: usize,
    comparisons: usize,
    comparison_bytes: usize,
    complete: bool,
}

impl LintState {
    spec fn view(&self) -> LintStateView {
        LintStateView {
            findings: findings_view(self.findings@),
            report_bytes: self.report_bytes as nat,
            comparisons: self.comparisons as nat,
            comparison_bytes: self.comparison_bytes as nat,
            complete: self.complete,
        }
    }

    spec fn within_budget(&self) -> bool {
        &&& self.comparisons <= MAX_RULE_LINT_COMPARISONS
        &&& self.comparison_bytes <= MAX_RULE_LINT_COMPARISON_BYTES
        &&& self.findings@.len() <= MAX_RULE_LINT_FINDINGS
        &&& self.report_bytes <= MAX_RULE_LINT_REPORT_BYTES
    }
}

/// What the lint pass needs to know of each rule in resolution order: its position, its
/// single-action families, and its matcher bytes.
spec fn ordered_facts(
    rules: Seq<Rule>,
    order: Seq<usize>,
    fams: Seq<Vec<String>>,
    bytes: Seq<usize>,
) -> bool {
    &&& fams.len() == order.len()
    &&& bytes.len() == order.len()
    &&& forall|i: int| 0 <= i < order.len() ==> #[trigger] order[i] < rules.len()
    &&& forall|i: int|
        0 <= i < order.len() ==> #[trigger] texts(fams[i]@) == rule_families(rules[order[i] as int])
    &&& forall|i: int| 0 <= i < order.len() ==> #[trigger] bytes[i] == matcher_bytes(rules[order[i] as int].matcher)
}

/// The enabled rules that are (or are not) `@important`, in order.
fn enabled_positions(rules: &Vec<Rule>, important: bool) -> (r: Vec<usize>)
    ensures
        r@ == enabled_with(rules@, important),
{
    let mut out: Vec<usize> = Vec::new();
    let mut i: usize = 0;
    assert(rules@.take(0) =~= Seq::<Rule>::empty());
    while i < rules.len()
        invariant
            i <= rules@.len(),
            out@ == enabled_with(rules@.take(i as int), important),
        decreases rules@.len() - i,
    {
        assert(rules@.take(i + 1).drop_last() =~= rules@.take(i as int));
        if !rules[i].disabled && rules[i].important == important {
            out.push(i);
        }
        i += 1;
    }
    assert(rules@.take(i as int) =~= rules@);
    out
}

proof fn lemma_enabled_bounds(rules: Seq<Rule>, important: bool)
    ensures
        enabled_with(rules, important).len() <= rules.len(),
        forall|k: int|
            0 <= k < enabled_with(rules, important).len() ==> #[trigger] enabled_with(rules, important)[k]
                < rules.len(),
    decreases rules.len(),
{
    if rules.len() > 0 {
        lemma_enabled_bounds(rules.drop_last(), important);
    }
}

/// The texts of `src` that `keep` lists, in order.
fn keep_listed(src: &Vec<String>, keep: &Vec<String>) -> (r: Vec<String>)
    ensures
        texts(r@) == texts(src@).filter(|f: Seq<char>| texts(keep@).contains(f)),
{
    let mut out: Vec<String> = Vec::new();
    let mut i: usize = 0;
    assert(texts(src@).take(0) =~= Seq::<Seq<char>>::empty());
    assert(texts(out@) =~= Seq::<Seq<char>>::empty());
    while i < src.len()
        invariant
            i <= src@.len(),
            texts(out@) == texts(src@).take(i as int).filter(|f: Seq<char>| texts(keep@).contains(f)),
        decreases src@.len() - i,
    {
        proof {
            reveal(Seq::filter);
        }
        assert(texts(src@).take(i + 1).drop_last() =~= texts(src@).take(i as int));
        assert(texts(src@).take(i + 1).last() == src@[i as int]@);
        if holds_name(keep, src[i].as_str()) {
            let ghost before = texts(out@);
            out.push(src[i].clone());
            assert(texts(out@) =~= before.push(src@[i as int]@));
        }
        i += 1;
    }
    assert(texts(src@).take(i as int) =~= texts(src@));
    out
}

/// The texts of `src` that `drop` does not list, in order.
fn drop_listed(src: &Vec<String>, drop: &Vec<String>) -> (r: Vec<String>)
    ensures
        texts(r@) == texts(src@).filter(|f: Seq<char>| !texts(drop@).contains(f)),
{
    let mut out: Vec<String> = Vec::new();
    let mut i: usize = 0;
    assert(texts(src@).take(0) =~= Seq::<Seq<char>>::empty());
    assert(texts(out@) =~= Seq::<Seq<char>>::empty());
    while i < src.len()
        invariant
            i <= src@.len(),
            texts(out@) == texts(src@).take(i as int).filter(|f: Seq<char>| !texts(drop@).contains(f)),
        decreases src@.len() - i,
    {
        proof {
            reveal(Seq::filter);
        }
        assert(texts(src@).take(i + 1).drop_last() =~= texts(src@).take(i as int));
        assert(texts(src@).take(i + 1).last() == src@[i as int]@);
        if !holds_name(drop, src[i].as_str()) {
            let ghost before = texts(out@);
            out.push(src[i].clone());
            assert(texts(out@) =~= before.push(src@[i as int]@));
        }
        i += 1;
    }
    assert(texts(src@).take(i as int) =~= texts(src@));
    out
}

/// Compares the rule at resolution position `pos` with the rules before it, stopping when a
/// budget runs out (the result is then `true`) or when no family of the later rule is left.
#[verifier::rlimit(40)]
fn compare_later(
    rules: &Vec<Rule>,
    globs: &CompiledGlobSet,
    order: &Vec<usize>,
    fams: &Vec<Vec<String>>,
    bytes: &Vec<usize>,
    pos: usize,
    st: &mut LintState,
) -> (stop: bool)
    requires
        pos < order@.len(),
        ordered_facts(rules@, order@, fams@, bytes@),
        old(st).within_budget(),
    ensures
        final(st).within_budget(),
        (final(st)@, stop) == lint_inner(
            rules@,
            globs.keys(),
            order@,
            pos as int,
            0,
            rule_families(rules@[order@[pos as int] as int]),
            old(st)@,
        ),
{
    let ghost keys = globs.keys();
    let ghost start = st@;
    let later = &rules[order[pos]];
    let mut remaining = clone_strings(&fams[pos]);
    assert(texts(remaining@) =~= views(remaining@));
    assert(texts(fams@[pos as int]@) =~= views(fams@[pos as int]@));
    let mut stop = false;
    let mut done = false;
    let mut q: usize = 0;
    while q < pos && !stop && !done
        invariant
            pos < order@.len(),
            q <= pos,
            ordered_facts(rules@, order@, fams@, bytes@),
            *later == rules@[order@[pos as int] as int],
            st.within_budget(),
            keys == globs.keys(),
            lint_inner(rules@, keys, order@, pos as int, 0, rule_families(*later), start) == if stop || done {
                (st@, stop)
            } else {
                lint_inner(rules@, keys, order@, pos as int, q as int, texts(remaining@), st@)
            },
        decreases pos - q,
    {
        let earlier = &rules[order[q]];
        let size = bytes[pos].saturating_add(bytes[q]);
        let over = match st.comparison_bytes.checked_add(size) {
            Some(total) => total > MAX_RULE_LINT_COMPARISON_BYTES,
            None => true,
        };
        if st.comparisons == MAX_RULE_LINT_COMPARISONS || over {
            st.complete = false;
            stop = true;
        } else {
            st.comparisons = st.comparisons + 1;
            st.comparison_bytes = st.comparison_bytes + size;
            if earlier.conditions.len() == 0 {
                let shared = keep_listed(&fams[q], &remaining);
                if shared.len() > 0 && matcher_subsumes(&earlier.matcher, &later.matcher, globs) {
                    let rest = drop_listed(&remaining, &shared);
                    let finding = LintFinding {
                        group: later.group.clone(),
                        line: later.line,
                        raw: later.raw.clone(),
                        shadowed_by_group: earlier.group.clone(),
                        shadowed_by_line: earlier.line,
                        shadowed_by_raw: earlier.raw.clone(),
                        families: shared,
                    };
                    let size = lint_finding_bytes(&finding);
                    assert(finding_bytes(finding) == view_bytes(finding_view(finding)));
                    let full = match st.report_bytes.checked_add(size) {
                        Some(total) => total > MAX_RULE_LINT_REPORT_BYTES,
                        None => true,
                    };
                    if st.findings.len() == MAX_RULE_LINT_FINDINGS || full {
                        st.complete = false;
                        stop = true;
                    } else {
                        let ghost before = st.findings@;
                        st.report_bytes = st.report_bytes + size;
                        st.findings.push(finding);
                        assert(findings_view(st.findings@) =~= findings_view(before).push(finding_view(finding)));
                        remaining = rest;
                        if remaining.len() == 0 {
                            done = true;
                        }
                    }
                }
            }
        }
        q += 1;
    }
    stop
}

impl RuleSet {
    /// Reports the rules an earlier, unconditional, broader rule always preempts in one of
    /// their single-action families, within fixed comparison, finding and byte budgets.
    pub fn lint_report(&self) -> (r: LintReport)
        ensures
            findings_view(r.findings@) == lint_spec(self.rule_list(), self.index_spec().globs().keys()).findings,
            r.comparisons == lint_spec(self.rule_list(), self.index_spec().globs().keys()).comparisons,
            r.comparison_bytes == lint_spec(self.rule_list(), self.index_spec().globs().keys()).comparison_bytes,
            r.complete == lint_spec(self.rule_list(), self.index_spec().globs().keys()).complete,
            r.findings@.len() <= MAX_RULE_LINT_FINDINGS,
            r.comparisons <= MAX_RULE_LINT_COMPARISONS,
            r.comparison_bytes <= MAX_RULE_LINT_COMPARISON_BYTES,
    {
        let rules = &self.rules;
        let globs = self.index.glob_set();
        let ghost keys = globs.keys();
        let mut order = enabled_positions(rules, true);
        let rest = enabled_positions(rules, false);
        proof {
            lemma_enabled_bounds(rules@, true);
            lemma_enabled_bounds(rules@, false);
        }
        let ghost first = order@;
        let mut k: usize = 0;
        while k < rest.len()
            invariant
                k <= rest@.len(),
                rest@ == enabled_with(rules@, false),
                order@ == first + rest@.take(k as int),
            decreases rest@.len() - k,
        {
            order.push(rest[k]);
            assert(rest@.take(k + 1) =~= rest@.take(k as int).push(rest@[k as int]));
            k += 1;
        }
        assert(rest@.take(k as int) =~= rest@);
        assert(order@ =~= lint_order(rules@));
        let mut fams: Vec<Vec<String>> = Vec::new();
        let mut bytes: Vec<usize> = Vec::new();
        let mut i: usize = 0;
        while i < order.len()
            invariant
                i <= order@.len(),
                order@ == lint_order(rules@),
                forall|j: int| 0 <= j < order@.len() ==> #[trigger] order@[j] < rules@.len(),
                fams@.len() == i,
                bytes@.len() == i,
                forall|j: int|
                    0 <= j < i ==> #[trigger] texts(fams@[j]@) == rule_families(rules@[order@[j] as int]),
                forall|j: int| 0 <= j < i ==> #[trigger] bytes@[j] == matcher_bytes(rules@[order@[j] as int].matcher),
            decreases order@.len() - i,
        {
            fams.push(single_families(&rules[order[i]]));
            bytes.push(matcher_source_bytes(&rules[order[i]].matcher));
            i += 1;
        }
        let mut st = LintState {
            findings: Vec::new(),
            report_bytes: 0,
            comparisons: 0,
            comparison_bytes: 0,
            complete: true,
        };
        assert(findings_view(st.findings@) =~= Seq::<FindingView>::empty());
        let ghost init = st@;
        let mut stop = false;
        let mut pos: usize = 0;
        while pos < order.len() && !stop
            invariant
                pos <= order@.len(),
                order@ == lint_order(rules@),
                ordered_facts(rules@, order@, fams@, bytes@),
                st.within_budget(),
                keys == globs.keys(),
                lint_outer(rules@, keys, order@, 0, init) == if stop {
                    st@
                } else {
                    lint_outer(rules@, keys, order@, pos as int, st@)
                },
            decreases order@.len() - pos,
        {
            if fams[pos].len() > 0 {
                assert(texts(fams@[pos as int]@).len() == fams@[pos as int]@.len());
                stop = compare_later(rules, globs, &order, &fams, &bytes, pos, &mut st);
            } else {
                assert(texts(fams@[pos as int]@).len() == 0);
            }
            pos += 1;
        }
        LintReport {
            findings: st.findings,
            complete: st.complete,
            comparisons: st.comparisons,
            comparison_bytes: st.comparison_bytes,
        }
    }

    /// The findings of the shadow lint.
    pub fn lint(&self) -> (r: Vec<LintFinding>)
        ensures
            findings_view(r@) == lint_spec(self.rule_list(), self.index_spec().globs().keys()).findings,
    {
        self.lint_report().findings
    }
}

} // verus!
