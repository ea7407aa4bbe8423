//! The candidate index of a rule snapshot: host buckets, the global list, and a literal
//! prefilter for regex rules that require a fixed text.
use crate::rules::compiled::CompiledGlobSet;
use crate::rules::condition_eval::{CompiledBodyContainsSet, CompiledConditionResources};
use crate::rules::evaluate::{bind_matcher_resources, CompiledMatcherResources};
use crate::rules::index::{extend_unique, fresh_values, matcher_index_key, matcher_key_spec, IndexKeyView, MatcherIndexKey};
use crate::rules::matching::RuleSetStats;
use crate::rules::regex_matcher::{Matcher, RegexMatcher};
use crate::rules::evaluate::bound_matcher;
use crate::rules::snapshot::{bind_condition_resources, binds, lemma_rule_literals_known, rules_keys, rules_literals, Rule};
use crate::rules::evaluate::{add_keys, keys_compile};
use crate::rules::condition_eval::{automaton_builds, dedup, lowered};
use crate::text::{str_eq, views};
use aho_corasick::AhoCorasick;
use regex_syntax::hir::{Hir, HirKind};
use std::collections::HashSet;
use vstd::prelude::*;
use vstd::utf8::{decode_utf8, encode_utf8, valid_utf8};

verus! {

// ---------------------------------------------------------------------------
// Required literals of regex patterns
// ---------------------------------------------------------------------------

#[verifier::external_type_specification]
#[verifier::external_body]
pub struct ExHir(Hir);

/// The shape of a parsed regex that the literal search reads: literals, captures,
/// concatenations, repetitions with their minimum count, and every other kind of node.
#[derive(Debug)]
pub enum HirShape {
    /// A literal matching exactly these bytes.
    Literal(Vec<u8>),
    /// A capturing group around a sub-expression.
    Capture(Box<HirShape>),
    /// Sub-expressions matched one after the other.
    Concat(Vec<HirShape>),
    /// A sub-expression repeated at least `min` times.
    Repetition { min: u32, sub: Box<HirShape> },
    /// The empty expression, a class, a look-around assertion, or an alternation.
    Other,
}

/// The shape of the syntax tree that `regex_syntax::parse` gives for `pattern`, where it parses.
pub uninterp spec fn regex_shape(pattern: Seq<char>) -> Option<HirShape>;

/// `regex_syntax::parse`, its tree taken as a [`HirShape`]; `None` where the pattern does not
/// parse.
#[verifier::external_body]
fn parse_shape(pattern: &str) -> (r: Option<HirShape>)
    ensures
        r == regex_shape(pattern@),
{
    match regex_syntax::parse(pattern) {
        Ok(hir) => Some(shape_of(&hir)),
        Err(_) => None,
    }
}

/// The shape of a syntax tree node, reading `Hir::kind` one variant per arm and moving its
/// fields into the library's type.
#[verifier::external_body]
fn shape_of(hir: &Hir) -> HirShape {
    match hir.kind() {
        HirKind::Literal(literal) => HirShape::Literal(literal.0.to_vec()),
        HirKind::Capture(capture) => HirShape::Capture(Box::new(shape_of(&capture.sub))),
        HirKind::Concat(parts) => HirShape::Concat(parts.iter().map(shape_of).collect()),
        HirKind::Repetition(rep) => HirShape::Repetition { min: rep.min, sub: Box::new(shape_of(&rep.sub)) },
        HirKind::Empty | HirKind::Class(_) | HirKind::Look(_) | HirKind::Alternation(_) => HirShape::Other,
    }
}

/// `String::from_utf8`: the text whose UTF-8 encoding is `bytes`, where they are valid UTF-8.
#[verifier::external_body]
fn utf8_string(bytes: Vec<u8>) -> (r: Option<String>)
    ensures
        r is Some <==> valid_utf8(bytes@),
        r matches Some(s) ==> encode_utf8(s@) == bytes@,
{
    String::from_utf8(bytes).ok()
}

/// The longest byte string that every match of `h` must contain, as far as literals, captures,
/// concatenations and repetitions of at least one show it; among equally long candidates of a
/// concatenation the last one counts.
pub open spec fn longest_required(h: HirShape) -> Option<Seq<u8>>
    decreases h,
{
    match h {
        HirShape::Literal(b) => Some(b@),
        HirShape::Capture(sub) => longest_required(*sub),
        HirShape::Concat(parts) => longest_among(parts@),
        HirShape::Repetition { min, sub } => if min > 0 {
            longest_required(*sub)
        } else {
            None
        },
        HirShape::Other => None,
    }
}

/// The longest required literal among `parts`, the last of equally long ones winning.
pub open spec fn longest_among(parts: Seq<HirShape>) -> Option<Seq<u8>>
    decreases parts,
{
    if parts.len() == 0 {
        None
    } else {
        let before = longest_among(parts.drop_last());
        match longest_required(parts.last()) {
            None => before,
            Some(v) => match before {
                None => Some(v),
                Some(p) => if v.len() >= p.len() {
                    Some(v)
                } else {
                    Some(p)
                },
            },
        }
    }
}

proof fn lemma_part_decreases(h: HirShape, parts: Vec<HirShape>, i: int)
    requires
        h == HirShape::Concat(parts),
        0 <= i < parts@.len(),
    ensures
        decreases_to!(h => parts@[i]),
{
    match h {
        HirShape::Concat(v) => {
            assert(v == parts);
            assert(decreases_to!(h => v@[i]));
        },
        _ => {},
    }
}

/// Computes [`longest_required`] of a shape.
fn longest_required_of(h: &HirShape) -> (r: Option<Vec<u8>>)
    ensures
        match r {
            Some(v) => longest_required(*h) == Some(v@),
            None => longest_required(*h) is None,
        },
    decreases h,
{
    match h {
        HirShape::Literal(b) => Some(b.clone()),
        HirShape::Capture(sub) => longest_required_of(sub),
        HirShape::Concat(parts) => {
            let mut best: Option<Vec<u8>> = None;
            let mut i: usize = 0;
            assert(parts@.take(0) =~= Seq::<HirShape>::empty());
            while i < parts.len()
                invariant
                    i <= parts@.len(),
                    *h == HirShape::Concat(*parts),
                    match best {
                        Some(v) => longest_among(parts@.take(i as int)) == Some(v@),
                        None => longest_among(parts@.take(i as int)) is None,
                    },
                decreases parts@.len() - i,
            {
                proof {
                    lemma_part_decreases(*h, *parts, i as int);
                    assert(parts@.take(i + 1).drop_last() =~= parts@.take(i as int));
                    assert(parts@.take(i + 1).last() == parts@[i as int]);
                }
                match longest_required_of(&parts[i]) {
                    None => {},
                    Some(v) => {
                        let replace = match &best {
                            None => true,
                            Some(p) => v.len() >= p.len(),
                        };
                        if replace {
                            best = Some(v);
                        }
                    },
                }
                i += 1;
            }
            assert(parts@.take(i as int) =~= parts@);
            best
        },
        HirShape::Repetition { min, sub } => if *min > 0 {
            longest_required_of(sub)
        } else {
            None
        },
        HirShape::Other => None,
    }
}

/// The literal a regex rule requires for prefiltering: for a case-sensitive pattern that
/// parses, its longest required literal when that is valid UTF-8 of at least three bytes.
pub open spec fn required_literal_spec(pattern: Seq<char>, case_insensitive: bool) -> Option<Seq<u8>> {
    if case_insensitive {
        None
    } else {
        match regex_shape(pattern) {
            None => None,
            Some(h) => match longest_required(h) {
                None => None,
                Some(b) => if valid_utf8(b) && b.len() >= 3 {
                    Some(b)
                } else {
                    None
                },
            },
        }
    }
}

/// The literal text every match of a regex matcher contains, used to prefilter regex rules.
pub fn required_regex_literal(regex: &RegexMatcher) -> (r: Option<String>)
    ensures
        match required_literal_spec(regex.pattern_spec(), regex.case_spec()) {
            Some(b) => r matches Some(s) && encode_utf8(s@) == b,
            None => r is None,
        },
{
    if regex.case_insensitive() {
        return None;
    }
    let shape = match parse_shape(regex.pattern()) {
        Some(h) => h,
        None => {
            return None;
        },
    };
    let bytes = match longest_required_of(&shape) {
        Some(b) => b,
        None => {
            return None;
        },
    };
    let n = bytes.len();
    let literal = match utf8_string(bytes) {
        Some(s) => s,
        None => {
            return None;
        },
    };
    if n >= 3 {
        Some(literal)
    } else {
        None
    }
}

// ---------------------------------------------------------------------------
// Index buckets
// ---------------------------------------------------------------------------

/// Where the index files a rule: under the literal its regex requires, under an exact host,
/// under a domain suffix, or in the global list.
pub enum BucketView {
    Prefilter(Seq<char>),
    Exact(Seq<char>),
    Suffix(Seq<char>),
    Global,
}

/// The index bucket of a rule with matcher `m`.
pub open spec fn rule_bucket(m: Matcher) -> BucketView {
    match m {
        Matcher::Regex(rm) => match required_literal_spec(rm.pattern_spec(), rm.case_spec()) {
            Some(b) => BucketView::Prefilter(decode_utf8(b)),
            None => BucketView::Global,
        },
        _ => match matcher_key_spec(m) {
            IndexKeyView::Exact(h) => BucketView::Exact(h),
            IndexKeyView::Suffix(h) => BucketView::Suffix(h),
            IndexKeyView::Global => BucketView::Global,
        },
    }
}

/// The exact-host key of each rule, where it has one.
pub open spec fn exact_keys(rules: Seq<Rule>) -> Seq<Option<Seq<char>>> {
    rules.map_values(|r: Rule| match rule_bucket(r.matcher) {
        BucketView::Exact(h) => Some(h),
        _ => None,
    })
}

/// The domain-suffix key of each rule, where it has one.
pub open spec fn suffix_keys(rules: Seq<Rule>) -> Seq<Option<Seq<char>>> {
    rules.map_values(|r: Rule| match rule_bucket(r.matcher) {
        BucketView::Suffix(h) => Some(h),
        _ => None,
    })
}

/// The prefilter literal of each rule, where it has one.
pub open spec fn literal_keys(rules: Seq<Rule>) -> Seq<Option<Seq<char>>> {
    rules.map_values(|r: Rule| match rule_bucket(r.matcher) {
        BucketView::Prefilter(l) => Some(l),
        _ => None,
    })
}

/// The positions of the rules in the global list, in order.
pub open spec fn global_ids(rules: Seq<Rule>) -> Seq<usize>
    decreases rules.len(),
{
    if rules.len() == 0 {
        seq![]
    } else {
        let before = global_ids(rules.drop_last());
        if rule_bucket(rules.last().matcher) is Global {
            before.push((rules.len() - 1) as usize)
        } else {
            before
        }
    }
}

/// Position of the group keyed `k`.
pub open spec fn group_pos(g: Seq<(Seq<char>, Seq<usize>)>, k: Seq<char>) -> Option<int>
    decreases g.len(),
{
    if g.len() == 0 {
        None
    } else if g[0].0 == k {
        Some(0)
    } else {
        match group_pos(g.drop_first(), k) {
            Some(i) => Some(i + 1),
            None => None,
        }
    }
}

/// `g` with `i` added to the group keyed `k`, a new group at the end where there is none.
pub open spec fn add_to_group(g: Seq<(Seq<char>, Seq<usize>)>, k: Seq<char>, i: usize) -> Seq<(Seq<char>, Seq<usize>)> {
    match group_pos(g, k) {
        Some(j) => g.update(j, (k, g[j].1.push(i))),
        None => g.push((k, seq![i])),
    }
}

/// Positions grouped by key, groups in the order their keys first occur, positions in order.
pub open spec fn grouped(keys: Seq<Option<Seq<char>>>) -> Seq<(Seq<char>, Seq<usize>)>
    decreases keys.len(),
{
    if keys.len() == 0 {
        seq![]
    } else {
        let g = grouped(keys.drop_last());
        match keys.last() {
            Some(k) => add_to_group(g, k, (keys.len() - 1) as usize),
            None => g,
        }
    }
}

/// All positions of the groups, group after group.
pub open spec fn flatten(g: Seq<(Seq<char>, Seq<usize>)>) -> Seq<usize>
    decreases g.len(),
{
    if g.len() == 0 {
        seq![]
    } else {
        flatten(g.drop_last()) + g.last().1
    }
}

/// A list of keyed groups as plain data.
pub open spec fn groups_view(v: Seq<(String, Vec<usize>)>) -> Seq<(Seq<char>, Seq<usize>)> {
    v.map_values(|e: (String, Vec<usize>)| (e.0@, e.1@))
}

proof fn lemma_group_pos(g: Seq<(Seq<char>, Seq<usize>)>, k: Seq<char>, i: int)
    requires
        0 <= i <= g.len(),
        forall|j: int| 0 <= j < i ==> g[j].0 != k,
    ensures
        i < g.len() && g[i].0 == k ==> group_pos(g, k) == Some(i),
        i == g.len() ==> group_pos(g, k) is None,
    decreases i,
{
    if i > 0 {
        lemma_group_pos(g.drop_first(), k, i - 1);
    } else if g.len() > 0 && g[0].0 != k {
        lemma_group_pos_none_from(g, k);
    }
}

proof fn lemma_group_pos_none_from(g: Seq<(Seq<char>, Seq<usize>)>, k: Seq<char>)
    requires
        g.len() == 0 || true,
    ensures
        (forall|j: int| 0 <= j < g.len() ==> g[j].0 != k) ==> group_pos(g, k) is None,
    decreases g.len(),
{
    if g.len() > 0 {
        lemma_group_pos_none_from(g.drop_first(), k);
        if forall|j: int| 0 <= j < g.len() ==> g[j].0 != k {
            assert forall|j: int| 0 <= j < g.drop_first().len() implies g.drop_first()[j].0 != k by {
                assert(g[j + 1].0 != k);
            }
        }
    }
}

/// Adds position `i` to the group keyed `key`.
fn add_to_group_exec(groups: &mut Vec<(String, Vec<usize>)>, key: String, i: usize)
    ensures
        groups_view(final(groups)@) == add_to_group(groups_view(old(groups)@), key@, i),
{
    let ghost g = groups_view(groups@);
    let mut j: usize = 0;
    while j < groups.len()
        invariant
            j <= groups@.len(),
            g == groups_view(groups@),
            g == groups_view(old(groups)@),
            forall|q: int| 0 <= q < j ==> g[q].0 != key@,
        decreases groups@.len() - j,
    {
        if str_eq(groups[j].0.as_str(), key.as_str()) {
            assert(g[j as int] == (groups@[j as int].0@, groups@[j as int].1@));
            assert(g[j as int].0 == key@);
            proof {
                lemma_group_pos(g, key@, j as int);
            }
            let ghost old_ids = groups@[j as int].1@;
            assert(g[j as int].1 == old_ids);
            let mut entry = (String::new(), Vec::new());
            std::mem::swap(&mut entry, &mut groups[j]);
            assert(entry.1@ == old_ids);
            entry.1.push(i);
            let ghost ids = entry.1@;
            assert(ids == old_ids.push(i));
            groups.set(j, entry);
            assert(groups_view(groups@) =~= g.update(j as int, (key@, ids)));
            return;
        }
        j += 1;
    }
    proof {
        lemma_group_pos(g, key@, j as int);
    }
    let mut ids = Vec::new();
    ids.push(i);
    let ghost k = key@;
    groups.push((key, ids));
    assert(groups_view(groups@) =~= g.push((k, seq![i])));
}

// ---------------------------------------------------------------------------
// The literal prefilter
// ---------------------------------------------------------------------------

/// Whether `aho_corasick` builds its default automaton over the given patterns.
pub uninterp spec fn prefilter_builds(literals: Seq<Seq<char>>) -> bool;

/// `AhoCorasick::new` over `literals`; `None` where the crate refuses them.
#[verifier::external_body]
fn build_prefilter(literals: &Vec<String>) -> (r: Option<AhoCorasick>)
    ensures
        r is Some == prefilter_builds(views(literals@)),
{
    AhoCorasick::new(literals).ok()
}

/// A case-sensitive automaton over required literals, kept with the literals it was built from.
#[derive(Debug)]
struct LiteralPrefilter {
    literals: Vec<String>,
    automaton: AhoCorasick,
}

/// Whether the bytes `needle` occur in `hay`.
pub open spec fn occurs(hay: Seq<u8>, needle: Seq<u8>) -> bool {
    exists|i: int| 0 <= i && i + needle.len() <= hay.len() && #[trigger] hay.subrange(i, i + needle.len()) == needle
}

/// The pattern of every overlapping match of the prefilter's automaton in `text`, in the order
/// the crate reports them. Overlapping search reports all matches at every position, so a
/// literal's index occurs exactly when the literal occurs in `text`; the automaton was built
/// from the prefilter's literals.
#[verifier::external_body]
fn prefilter_hits(prefilter: &LiteralPrefilter, text: &str) -> (r: Vec<usize>)
    ensures
        forall|j: int| 0 <= j < r@.len() ==> #[trigger] r@[j] < prefilter.literals@.len(),
        forall|i: int|
            0 <= i < prefilter.literals@.len() ==> (r@.contains(i as usize) <==> occurs(
                encode_utf8(text@),
                encode_utf8(#[trigger] prefilter.literals@[i]@),
            )),
{
    prefilter.automaton.find_overlapping_iter(text).map(|m| m.pattern().as_usize()).collect()
}

// ---------------------------------------------------------------------------
// The index
// ---------------------------------------------------------------------------

/// The compiled resources of one rule: its matcher's and each condition's.
#[derive(Debug)]
pub struct CompiledRuleResources {
    pub matcher: CompiledMatcherResources,
    pub conditions: Vec<CompiledConditionResources>,
}

/// A snapshot's candidate index and compiled resources.
#[derive(Debug)]
pub struct RuleIndex {
    domain_exact: Vec<(String, Vec<usize>)>,
    domain_suffix: Vec<(String, Vec<usize>)>,
    global: Vec<usize>,
    prefilter_literals: Vec<String>,
    prefilter_literal_rules: Vec<Vec<usize>>,
    prefilter_rule_ids: HashSet<usize>,
    prefilter: Option<LiteralPrefilter>,
    compiled_globs: CompiledGlobSet,
    compiled_body_literals: CompiledBodyContainsSet,
    compiled_resources: Vec<CompiledRuleResources>,
}

/// The literal groups of the prefilter: each literal with the rules that require it.
pub open spec fn literal_groups_of(literals: Seq<String>, rules: Seq<Vec<usize>>) -> Seq<(Seq<char>, Seq<usize>)> {
    Seq::new(literals.len(), |i: int| (literals[i]@, rules[i]@))
}

impl RuleIndex {
    /// Exact-host buckets, in the order their hosts first occur.
    pub closed spec fn exact_groups(&self) -> Seq<(Seq<char>, Seq<usize>)> {
        groups_view(self.domain_exact@)
    }

    /// Domain-suffix buckets, in the order their suffixes first occur.
    pub closed spec fn suffix_groups(&self) -> Seq<(Seq<char>, Seq<usize>)> {
        groups_view(self.domain_suffix@)
    }

    /// The rules evaluated for every request.
    pub closed spec fn global_list(&self) -> Seq<usize> {
        self.global@
    }

    /// The prefilter literals with the rules requiring each.
    pub closed spec fn literal_groups(&self) -> Seq<(Seq<char>, Seq<usize>)> {
        literal_groups_of(self.prefilter_literals@, self.prefilter_literal_rules@)
    }

    /// The rules guarded by the prefilter.
    pub closed spec fn prefilter_ids(&self) -> Set<usize> {
        self.prefilter_rule_ids@
    }

    /// Whether the prefilter automaton was built.
    pub closed spec fn has_prefilter(&self) -> bool {
        self.prefilter is Some
    }

    /// The compiled glob programs.
    pub closed spec fn globs(&self) -> CompiledGlobSet {
        self.compiled_globs
    }

    /// The compiled glob programs.
    pub(crate) fn glob_set(&self) -> (r: &CompiledGlobSet)
        ensures
            *r == self.globs(),
    {
        &self.compiled_globs
    }

    /// The compiled body literals.
    pub closed spec fn body_literals(&self) -> CompiledBodyContainsSet {
        self.compiled_body_literals
    }

    /// The compiled resources of each rule.
    pub closed spec fn resources(&self) -> Seq<CompiledRuleResources> {
        self.compiled_resources@
    }

    /// What building the index over `rules` with socket-address table `table` gives: the
    /// buckets grouped in rule order, the prefilter over the required literals where its
    /// automaton builds (the global list taking those rules otherwise), the snapshot's compiled
    /// globs and body literals, and each rule's bound resources.
    pub open spec fn built_for(&self, rules: Seq<Rule>, table: Seq<(String, String)>) -> bool {
        &&& self.wf()
        &&& self.exact_groups() == grouped(exact_keys(rules))
        &&& self.suffix_groups() == grouped(suffix_keys(rules))
        &&& prefilter_built(rules) ==> self.has_prefilter() && self.literal_groups() == grouped(literal_keys(rules))
                && self.global_list() == global_ids(rules)
        &&& !prefilter_built(rules) ==> !self.has_prefilter() && self.literal_groups().len() == 0 && self.global_list()
                == global_ids(rules) + flatten(grouped(literal_keys(rules)))
        &&& self.globs().keys() == add_keys(Seq::empty(), rules_keys(rules, table))
        &&& self.body_literals().literal_texts() == dedup(lowered(rules_literals(rules)))
        &&& self.body_literals().sources() == rules_literals(rules)
        &&& self.resources().len() == rules.len()
        &&& forall|i: int|
                0 <= i < rules.len() ==> #[trigger] self.resources()[i].matcher == bound_matcher(
                    self.globs().keys(),
                    rules[i].matcher,
                ) && self.resources()[i].conditions@.len() == rules[i].conditions@.len() && forall|j: int|
                    0 <= j < rules[i].conditions@.len() ==> binds(
                        self.globs().keys(),
                        self.body_literals().literal_texts(),
                        table,
                        rules[i].conditions@[j],
                        #[trigger] self.resources()[i].conditions@[j],
                    )
    }

    /// The well-formedness the index keeps: the prefilter lists one rule group per literal and
    /// its automaton was built from exactly those literals, the guarded rules are the rules of
    /// those groups, and without an automaton there are no literals and no guarded rules.
    pub closed spec fn wf(&self) -> bool {
        &&& self.prefilter_literal_rules@.len() == self.prefilter_literals@.len()
        &&& match self.prefilter {
            Some(p) => views(p.literals@) == views(self.prefilter_literals@),
            None => self.prefilter_literals@.len() == 0,
        }
        &&& self.prefilter_rule_ids@ == flatten(self.literal_groups()).to_set()
    }
}

/// Whether the prefilter can be built over the literal groups of `rules`.
pub open spec fn prefilter_built(rules: Seq<Rule>) -> bool {
    let lg = grouped(literal_keys(rules));
    lg.len() > 0 && prefilter_builds(lg.map_values(|e: (Seq<char>, Seq<usize>)| e.0))
}

/// What building the index over `rules` requires: every glob program compiles and the body
/// literal automaton builds.
pub open spec fn index_buildable(rules: Seq<Rule>, table: Seq<(String, String)>) -> bool {
    &&& keys_compile(rules_keys(rules, table))
    &&& dedup(lowered(rules_literals(rules))).len() > 0 ==> automaton_builds(dedup(lowered(rules_literals(rules))))
}

/// Whether `x` is listed in one of the groups.
pub open spec fn in_groups(g: Seq<(Seq<char>, Seq<usize>)>, x: usize) -> bool {
    exists|k: int| 0 <= k < g.len() && #[trigger] g[k].1.contains(x)
}

proof fn lemma_group_pos_bounds(g: Seq<(Seq<char>, Seq<usize>)>, k: Seq<char>)
    ensures
        match group_pos(g, k) {
            Some(j) => 0 <= j < g.len() && g[j].0 == k,
            None => true,
        },
    decreases g.len(),
{
    if g.len() > 0 {
        lemma_group_pos_bounds(g.drop_first(), k);
    }
}

proof fn lemma_add_to_group_members(g: Seq<(Seq<char>, Seq<usize>)>, k: Seq<char>, n: usize)
    ensures
        forall|x: usize| in_groups(add_to_group(g, k, n), x) <==> (in_groups(g, x) || x == n),
{
    lemma_group_pos_bounds(g, k);
    let g2 = add_to_group(g, k, n);
    match group_pos(g, k) {
        Some(j) => {
            assert(g2.len() == g.len());
            assert(g2[j].1 == g[j].1.push(n));
            assert forall|x: usize| in_groups(g2, x) <==> (in_groups(g, x) || x == n) by {
                if in_groups(g2, x) && x != n {
                    let q = choose|q: int| 0 <= q < g2.len() && #[trigger] g2[q].1.contains(x);
                    if q == j {
                        let w = choose|w: int| 0 <= w < g2[q].1.len() && g2[q].1[w] == x;
                        assert(w < g[j].1.len());
                        assert(g[j].1[w] == x);
                        assert(g[j].1.contains(x));
                    } else {
                        assert(g2[q] == g[q]);
                        assert(g[q].1.contains(x));
                    }
                }
                if x == n {
                    assert(g2[j].1[g[j].1.len() as int] == n);
                    assert(g2[j].1.contains(x));
                } else if in_groups(g, x) {
                    let q = choose|q: int| 0 <= q < g.len() && #[trigger] g[q].1.contains(x);
                    let w = choose|w: int| 0 <= w < g[q].1.len() && g[q].1[w] == x;
                    if q == j {
                        assert(g2[j].1[w] == x);
                        assert(g2[j].1.contains(x));
                    } else {
                        assert(g2[q] == g[q]);
                        assert(g2[q].1.contains(x));
                    }
                }
            }
        },
        None => {
            assert(g2 == g.push((k, seq![n])));
            assert forall|x: usize| in_groups(g2, x) <==> (in_groups(g, x) || x == n) by {
                if in_groups(g2, x) && x != n {
                    let q = choose|q: int| 0 <= q < g2.len() && #[trigger] g2[q].1.contains(x);
                    if q < g.len() {
                        assert(g2[q] == g[q]);
                        assert(g[q].1.contains(x));
                    } else {
                        assert(g2[q].1 == seq![n]);
                        assert(false);
                    }
                }
                if x == n {
                    assert(g2[g.len() as int].1 == seq![n]);
                    assert(g2[g.len() as int].1[0] == x);
                    assert(g2[g.len() as int].1.contains(x));
                } else if in_groups(g, x) {
                    let q = choose|q: int| 0 <= q < g.len() && #[trigger] g[q].1.contains(x);
                    assert(g2[q] == g[q]);
                    assert(g2[q].1.contains(x));
                }
            }
        },
    }
}

/// A position is in a group of `grouped(keys)` exactly when it has a key.
proof fn lemma_grouped_members(keys: Seq<Option<Seq<char>>>)
    requires
        keys.len() <= usize::MAX,
    ensures
        forall|x: usize| in_groups(grouped(keys), x) <==> (x < keys.len() && keys[x as int] is Some),
    decreases keys.len(),
{
    if keys.len() > 0 {
        let pre = keys.drop_last();
        lemma_grouped_members(pre);
        let g = grouped(pre);
        let n = (keys.len() - 1) as usize;
        match keys.last() {
            Some(k) => {
                lemma_add_to_group_members(g, k, n);
            },
            None => {},
        }
        assert forall|x: usize| in_groups(grouped(keys), x) <==> (x < keys.len() && keys[x as int] is Some) by {
            if x < n {
                assert(keys[x as int] == pre[x as int]);
            }
            assert(in_groups(g, x) <==> (x < pre.len() && pre[x as int] is Some));
            match keys.last() {
                Some(k) => {
                    assert(grouped(keys) == add_to_group(g, k, n));
                    assert(in_groups(add_to_group(g, k, n), x) <==> (in_groups(g, x) || x == n));
                },
                None => {
                    assert(grouped(keys) == g);
                },
            }
        }
    }
}

/// A copy of a list of rule positions.
fn clone_ids(v: &Vec<usize>) -> (r: Vec<usize>)
    ensures
        r@ == v@,
{
    let mut out: Vec<usize> = Vec::new();
    let mut i: usize = 0;
    while i < v.len()
        invariant
            i <= v@.len(),
            out@ == v@.take(i as int),
        decreases v@.len() - i,
    {
        out.push(v[i]);
        assert(v@.take(i + 1) =~= v@.take(i as int).push(v@[i as int]));
        i += 1;
    }
    assert(v@.take(i as int) =~= v@);
    out
}

impl RuleIndex {
    /// Files every rule under its bucket, builds the literal prefilter for regex rules (falling
    /// back to the global list where the automaton cannot be built), and compiles and binds
    /// the snapshot's glob programs and body literals.
    pub(crate) fn build(rules: &Vec<Rule>, socket_ips: &Vec<(String, String)>) -> (r: Self)
        requires
            index_buildable(rules@, socket_ips@),
        ensures
            r.built_for(rules@, socket_ips@),
    {
        let mut domain_exact: Vec<(String, Vec<usize>)> = Vec::new();
        let mut domain_suffix: Vec<(String, Vec<usize>)> = Vec::new();
        let mut global: Vec<usize> = Vec::new();
        let mut lit_groups: Vec<(String, Vec<usize>)> = Vec::new();
        let mut idx: usize = 0;
        assert(exact_keys(rules@.take(0)) =~= Seq::<Option<Seq<char>>>::empty());
        assert(suffix_keys(rules@.take(0)) =~= Seq::<Option<Seq<char>>>::empty());
        assert(literal_keys(rules@.take(0)) =~= Seq::<Option<Seq<char>>>::empty());
        assert(rules@.take(0) =~= Seq::<Rule>::empty());
        assert(groups_view(domain_exact@) =~= Seq::<(Seq<char>, Seq<usize>)>::empty());
        assert(groups_view(domain_suffix@) =~= Seq::<(Seq<char>, Seq<usize>)>::empty());
        assert(groups_view(lit_groups@) =~= Seq::<(Seq<char>, Seq<usize>)>::empty());
        while idx < rules.len()
            invariant
                idx <= rules@.len(),
                groups_view(domain_exact@) == grouped(exact_keys(rules@.take(idx as int))),
                groups_view(domain_suffix@) == grouped(suffix_keys(rules@.take(idx as int))),
                groups_view(lit_groups@) == grouped(literal_keys(rules@.take(idx as int))),
                global@ == global_ids(rules@.take(idx as int)),
            decreases rules@.len() - idx,
        {
            let ghost pre = rules@.take(idx as int);
            let ghost next = rules@.take(idx + 1);
            assert(next.drop_last() =~= pre);
            assert(next.last() == rules@[idx as int]);
            assert(exact_keys(next).drop_last() =~= exact_keys(pre));
            assert(suffix_keys(next).drop_last() =~= suffix_keys(pre));
            assert(literal_keys(next).drop_last() =~= literal_keys(pre));
            let ghost b = rule_bucket(rules@[idx as int].matcher);
            assert(exact_keys(next).last() == (match b {
                BucketView::Exact(h) => Some(h),
                _ => None,
            }));
            assert(suffix_keys(next).last() == (match b {
                BucketView::Suffix(h) => Some(h),
                _ => None,
            }));
            assert(literal_keys(next).last() == (match b {
                BucketView::Prefilter(l) => Some(l),
                _ => None,
            }));
            assert(exact_keys(next).len() == idx + 1);
            let mut filed = false;
            if let Matcher::Regex(regex) = &rules[idx].matcher {
                if let Some(literal) = required_regex_literal(regex) {
                    proof {
                        vstd::utf8::encode_utf8_decode_utf8(literal@);
                    }
                    assert(b == BucketView::Prefilter(literal@));
                    add_to_group_exec(&mut lit_groups, literal, idx);
                    filed = true;
                }
            }
            if !filed {
                match matcher_index_key(&rules[idx].matcher) {
                    MatcherIndexKey::Exact(host) => add_to_group_exec(&mut domain_exact, host, idx),
                    MatcherIndexKey::Suffix(host) => add_to_group_exec(&mut domain_suffix, host, idx),
                    MatcherIndexKey::Global => global.push(idx),
                }
            }
            idx += 1;
        }
        assert(rules@.take(idx as int) =~= rules@);
        let ghost lg = groups_view(lit_groups@);
        let mut prefilter_literals: Vec<String> = Vec::new();
        let mut prefilter_literal_rules: Vec<Vec<usize>> = Vec::new();
        let mut g: usize = 0;
        while g < lit_groups.len()
            invariant
                g <= lit_groups@.len(),
                lg == groups_view(lit_groups@),
                prefilter_literals@.len() == g,
                prefilter_literal_rules@.len() == g,
                literal_groups_of(prefilter_literals@, prefilter_literal_rules@) == lg.take(g as int),
            decreases lit_groups@.len() - g,
        {
            let ghost before = literal_groups_of(prefilter_literals@, prefilter_literal_rules@);
            prefilter_literals.push(crate::text::string_of(&crate::text::chars_of(lit_groups[g].0.as_str())));
            prefilter_literal_rules.push(clone_ids(&lit_groups[g].1));
            assert(literal_groups_of(prefilter_literals@, prefilter_literal_rules@) =~= lg.take(g + 1));
            g += 1;
        }
        assert(lg.take(g as int) =~= lg);
        proof {
            assert(rules@.len() == rules.len());
            lemma_grouped_members(literal_keys(rules@));
        }
        assert(views(prefilter_literals@) =~= lg.map_values(|e: (Seq<char>, Seq<usize>)| e.0));
        let automaton = if prefilter_literals.len() == 0 {
            None
        } else {
            build_prefilter(&prefilter_literals)
        };
        let prefilter = match automaton {
            Some(a) => Some(LiteralPrefilter { literals: crate::text::clone_strings(&prefilter_literals), automaton: a }),
            None => None,
        };
        let mut prefilter_rule_ids: HashSet<usize> = HashSet::new();
        if prefilter.is_none() {
            let ghost base = global@;
            let mut q: usize = 0;
            assert(lg.take(0) =~= Seq::<(Seq<char>, Seq<usize>)>::empty());
            assert(base + flatten(lg.take(0)) =~= base);
            while q < prefilter_literal_rules.len()
                invariant
                    q <= prefilter_literal_rules@.len(),
                    prefilter_literal_rules@.len() == lg.len(),
                    literal_groups_of(prefilter_literals@, prefilter_literal_rules@) == lg,
                    global@ == base + flatten(lg.take(q as int)),
                decreases prefilter_literal_rules@.len() - q,
            {
                assert(literal_groups_of(prefilter_literals@, prefilter_literal_rules@)[q as int] == (
                    prefilter_literals@[q as int]@,
                    prefilter_literal_rules@[q as int]@,
                ));
                assert(lg[q as int].1 == prefilter_literal_rules@[q as int]@);
                let mut k: usize = 0;
                let ghost mid = global@;
                while k < prefilter_literal_rules[q].len()
                    invariant
                        k <= prefilter_literal_rules@[q as int]@.len(),
                        q < prefilter_literal_rules@.len(),
                        global@ == mid + prefilter_literal_rules@[q as int]@.take(k as int),
                    decreases prefilter_literal_rules@[q as int]@.len() - k,
                {
                    global.push(prefilter_literal_rules[q][k]);
                    assert(prefilter_literal_rules@[q as int]@.take(k + 1) =~= prefilter_literal_rules@[q as int]@.take(k as int).push(prefilter_literal_rules@[q as int]@[k as int]));
                    k += 1;
                }
                assert(prefilter_literal_rules@[q as int]@.take(k as int) =~= prefilter_literal_rules@[q as int]@);
                assert(lg.take(q + 1).drop_last() =~= lg.take(q as int));
                assert(global@ =~= base + flatten(lg.take(q + 1)));
                q += 1;
            }
            assert(lg.take(q as int) =~= lg);
            prefilter_literals = Vec::new();
            prefilter_literal_rules = Vec::new();
            assert(literal_groups_of(prefilter_literals@, prefilter_literal_rules@) =~= Seq::<(Seq<char>, Seq<usize>)>::empty());
            assert(prefilter_rule_ids@ =~= flatten(Seq::<(Seq<char>, Seq<usize>)>::empty()).to_set());
        } else {
            let mut q: usize = 0;
            while q < prefilter_literal_rules.len()
                invariant
                    q <= prefilter_literal_rules@.len(),
                    prefilter_literal_rules@.len() == lg.len(),
                    literal_groups_of(prefilter_literals@, prefilter_literal_rules@) == lg,
                    prefilter_rule_ids@ == flatten(lg.take(q as int)).to_set(),
                decreases prefilter_literal_rules@.len() - q,
            {
                let ghost set0 = prefilter_rule_ids@;
                let mut k: usize = 0;
                while k < prefilter_literal_rules[q].len()
                    invariant
                        k <= prefilter_literal_rules@[q as int]@.len(),
                        q < prefilter_literal_rules@.len(),
                        prefilter_rule_ids@ == set0.union(prefilter_literal_rules@[q as int]@.take(k as int).to_set()),
                    decreases prefilter_literal_rules@[q as int]@.len() - k,
                {
                    let v = prefilter_literal_rules[q][k];
                    prefilter_rule_ids.insert(v);
                    proof {
                        let t = prefilter_literal_rules@[q as int]@;
                        assert(t.take(k + 1) =~= t.take(k as int).push(v));
                        t.take(k as int).lemma_push_to_set_commute(v);
                    }
                    assert(prefilter_rule_ids@ =~= set0.union(prefilter_literal_rules@[q as int]@.take(k + 1).to_set()));
                    k += 1;
                }
                assert(prefilter_literal_rules@[q as int]@.take(k as int) =~= prefilter_literal_rules@[q as int]@);
                proof {
                    assert(lg.take(q + 1).drop_last() =~= lg.take(q as int));
                    assert(literal_groups_of(prefilter_literals@, prefilter_literal_rules@)[q as int] == (
                        prefilter_literals@[q as int]@,
                        prefilter_literal_rules@[q as int]@,
                    ));
                    assert(lg[q as int].1 == prefilter_literal_rules@[q as int]@);
                    vstd::seq_lib::seq_to_set_distributes_over_add(flatten(lg.take(q as int)), lg[q as int].1);
                }
                assert(prefilter_rule_ids@ =~= flatten(lg.take(q + 1)).to_set());
                q += 1;
            }
            assert(lg.take(q as int) =~= lg);
        }
        let compiled_globs = CompiledGlobSet::build(rules, socket_ips);
        let compiled_body_literals = CompiledBodyContainsSet::build(rules);
        let mut compiled_resources: Vec<CompiledRuleResources> = Vec::new();
        let mut i: usize = 0;
        while i < rules.len()
            invariant
                i <= rules@.len(),
                compiled_resources@.len() == i,
                compiled_body_literals.sources() == rules_literals(rules@),
                forall|a: int|
                    0 <= a < i ==> #[trigger] compiled_resources@[a].matcher == bound_matcher(
                        compiled_globs.keys(),
                        rules@[a].matcher,
                    ) && compiled_resources@[a].conditions@.len() == rules@[a].conditions@.len() && forall|j: int|
                        0 <= j < rules@[a].conditions@.len() ==> binds(
                            compiled_globs.keys(),
                            compiled_body_literals.literal_texts(),
                            socket_ips@,
                            rules@[a].conditions@[j],
                            #[trigger] compiled_resources@[a].conditions@[j],
                        ),
            decreases rules@.len() - i,
        {
            let matcher = bind_matcher_resources(&rules[i].matcher, &compiled_globs);
            let mut conditions: Vec<CompiledConditionResources> = Vec::new();
            let mut j: usize = 0;
            while j < rules[i].conditions.len()
                invariant
                    i < rules@.len(),
                    j <= rules@[i as int].conditions@.len(),
                    conditions@.len() == j,
                    compiled_body_literals.sources() == rules_literals(rules@),
                    forall|c: int|
                        0 <= c < j ==> binds(
                            compiled_globs.keys(),
                            compiled_body_literals.literal_texts(),
                            socket_ips@,
                            rules@[i as int].conditions@[c],
                            #[trigger] conditions@[c],
                        ),
                decreases rules@[i as int].conditions@.len() - j,
            {
                proof {
                    lemma_rule_literals_known(rules@, i as int, j as int, compiled_body_literals);
                }
                let bound = bind_condition_resources(&rules[i].conditions[j], &compiled_globs, &compiled_body_literals, socket_ips);
                conditions.push(bound);
                j += 1;
            }
            compiled_resources.push(CompiledRuleResources { matcher, conditions });
            i += 1;
        }
        RuleIndex {
            domain_exact,
            domain_suffix,
            global,
            prefilter_literals,
            prefilter_literal_rules,
            prefilter_rule_ids,
            prefilter,
            compiled_globs,
            compiled_body_literals,
            compiled_resources,
        }
    }
}

// ---------------------------------------------------------------------------
// Counting
// ---------------------------------------------------------------------------

/// Number of rule positions listed across the groups.
pub open spec fn total(g: Seq<(Seq<char>, Seq<usize>)>) -> nat
    decreases g.len(),
{
    if g.len() == 0 {
        0
    } else {
        total(g.drop_last()) + g.last().1.len()
    }
}

/// Number of positions that have a key.
pub open spec fn count_keys(keys: Seq<Option<Seq<char>>>) -> nat
    decreases keys.len(),
{
    if keys.len() == 0 {
        0
    } else {
        count_keys(keys.drop_last()) + if keys.last() is Some {
            1nat
        } else {
            0nat
        }
    }
}

/// Number of disabled rules.
pub open spec fn count_disabled(rules: Seq<Rule>) -> nat
    decreases rules.len(),
{
    if rules.len() == 0 {
        0
    } else {
        count_disabled(rules.drop_last()) + if rules.last().disabled {
            1nat
        } else {
            0nat
        }
    }
}

proof fn lemma_total_update(g: Seq<(Seq<char>, Seq<usize>)>, j: int, x: (Seq<char>, Seq<usize>))
    requires
        0 <= j < g.len(),
    ensures
        total(g.update(j, x)) + g[j].1.len() == total(g) + x.1.len(),
    decreases g.len(),
{
    let u = g.update(j, x);
    assert(u.drop_last() =~= if j == g.len() - 1 {
        g.drop_last()
    } else {
        g.drop_last().update(j, x)
    });
    if j < g.len() - 1 {
        lemma_total_update(g.drop_last(), j, x);
    }
}

proof fn lemma_total_grouped(keys: Seq<Option<Seq<char>>>)
    ensures
        total(grouped(keys)) == count_keys(keys),
    decreases keys.len(),
{
    if keys.len() > 0 {
        lemma_total_grouped(keys.drop_last());
        let g = grouped(keys.drop_last());
        match keys.last() {
            Some(k) => {
                lemma_group_pos_bounds(g, k);
                let n = (keys.len() - 1) as usize;
                match group_pos(g, k) {
                    Some(j) => lemma_total_update(g, j, (k, g[j].1.push(n))),
                    None => assert(g.push((k, seq![n])).drop_last() =~= g),
                }
            },
            None => {},
        }
    }
}

proof fn lemma_total_prefix(g: Seq<(Seq<char>, Seq<usize>)>, i: int)
    requires
        0 <= i <= g.len(),
    ensures
        total(g.take(i)) <= total(g),
    decreases g.len() - i,
{
    if i < g.len() {
        lemma_total_prefix(g.drop_last(), i);
        assert(g.drop_last().take(i) =~= g.take(i));
    } else {
        assert(g.take(i) =~= g);
    }
}

proof fn lemma_bucket_counts(rules: Seq<Rule>)
    ensures
        count_keys(exact_keys(rules)) + count_keys(suffix_keys(rules)) <= rules.len(),
        count_disabled(rules) <= rules.len(),
    decreases rules.len(),
{
    if rules.len() > 0 {
        lemma_bucket_counts(rules.drop_last());
        assert(exact_keys(rules).drop_last() =~= exact_keys(rules.drop_last()));
        assert(suffix_keys(rules).drop_last() =~= suffix_keys(rules.drop_last()));
    }
}

/// The sum of the group sizes.
fn sum_sizes(groups: &Vec<(String, Vec<usize>)>, bound: usize) -> (r: usize)
    requires
        total(groups_view(groups@)) <= bound,
    ensures
        r == total(groups_view(groups@)),
{
    let ghost g = groups_view(groups@);
    let mut sum: usize = 0;
    let mut i: usize = 0;
    assert(g.take(0) =~= Seq::<(Seq<char>, Seq<usize>)>::empty());
    while i < groups.len()
        invariant
            i <= groups@.len(),
            g == groups_view(groups@),
            total(g) <= bound,
            sum == total(g.take(i as int)),
        decreases groups@.len() - i,
    {
        proof {
            assert(g.take(i + 1).drop_last() =~= g.take(i as int));
            assert(g[i as int] == (groups@[i as int].0@, groups@[i as int].1@));
            lemma_total_prefix(g, i + 1);
        }
        sum = sum + groups[i].1.len();
        i += 1;
    }
    assert(g.take(i as int) =~= g);
    sum
}

impl RuleIndex {
    /// Counts describing the index built for `rules`.
    pub(crate) fn stats(&self, rules: &Vec<Rule>) -> (r: RuleSetStats)
        requires
            self.exact_groups() == grouped(exact_keys(rules@)),
            self.suffix_groups() == grouped(suffix_keys(rules@)),
        ensures
            r.rules == rules@.len(),
            r.disabled == count_disabled(rules@),
            r.domain_exact_entries == self.exact_groups().len(),
            r.domain_suffix_entries == self.suffix_groups().len(),
            r.indexed_rules == total(self.exact_groups()) + total(self.suffix_groups()),
            r.global_rules == self.global_list().len(),
            r.prefilter_literals == self.literal_groups().len(),
            r.prefilter_rules == self.prefilter_ids().len(),
            r.compiled_globs == self.globs().keys().len(),
            r.compiled_body_literals == self.body_literals().literal_texts().len(),
    {
        proof {
            lemma_total_grouped(exact_keys(rules@));
            lemma_total_grouped(suffix_keys(rules@));
            lemma_bucket_counts(rules@);
            assert(rules@.len() == rules.len());
        }
        let mut disabled: usize = 0;
        let mut i: usize = 0;
        assert(rules@.take(0) =~= Seq::<Rule>::empty());
        while i < rules.len()
            invariant
                i <= rules@.len(),
                disabled == count_disabled(rules@.take(i as int)),
                count_disabled(rules@.take(i as int)) <= i,
            decreases rules@.len() - i,
        {
            assert(rules@.take(i + 1).drop_last() =~= rules@.take(i as int));
            if rules[i].disabled {
                disabled += 1;
            }
            i += 1;
        }
        assert(rules@.take(i as int) =~= rules@);
        let exact = sum_sizes(&self.domain_exact, rules.len());
        let suffix = sum_sizes(&self.domain_suffix, rules.len());
        RuleSetStats {
            rules: rules.len(),
            disabled,
            domain_exact_entries: self.domain_exact.len(),
            domain_suffix_entries: self.domain_suffix.len(),
            indexed_rules: exact + suffix,
            global_rules: self.global.len(),
            prefilter_literals: self.prefilter_literals.len(),
            prefilter_rules: self.prefilter_rule_ids.len(),
            compiled_globs: self.compiled_globs.len(),
            compiled_body_literals: self.compiled_body_literals.len(),
        }
    }
}

// ---------------------------------------------------------------------------
// Prefilter lookup
// ---------------------------------------------------------------------------

/// Whether rule `x` is guarded by a literal of `lg` that occurs in `text`.
pub open spec fn prefilter_hit(lg: Seq<(Seq<char>, Seq<usize>)>, text: Seq<char>, x: usize) -> bool {
    exists|k: int|
        0 <= k < lg.len() && occurs(encode_utf8(text), encode_utf8(lg[k].0)) && #[trigger] lg[k].1.contains(x)
}

proof fn lemma_flatten_members(g: Seq<(Seq<char>, Seq<usize>)>)
    ensures
        forall|x: usize| flatten(g).contains(x) <==> in_groups(g, x),
    decreases g.len(),
{
    if g.len() > 0 {
        lemma_flatten_members(g.drop_last());
        let a = flatten(g.drop_last());
        let b = g.last().1;
        assert forall|x: usize| flatten(g).contains(x) <==> in_groups(g, x) by {
            if flatten(g).contains(x) {
                let i = choose|i: int| 0 <= i < (a + b).len() && (a + b)[i] == x;
                if i < a.len() {
                    assert(a[i] == x);
                    assert(in_groups(g.drop_last(), x));
                    let k = choose|k: int| 0 <= k < g.drop_last().len() && #[trigger] g.drop_last()[k].1.contains(x);
                    assert(g[k] == g.drop_last()[k]);
                } else {
                    assert(b[i - a.len()] == x);
                    assert(g[g.len() - 1].1.contains(x));
                }
            }
            if in_groups(g, x) {
                let k = choose|k: int| 0 <= k < g.len() && #[trigger] g[k].1.contains(x);
                if k < g.len() - 1 {
                    assert(g.drop_last()[k] == g[k]);
                    assert(in_groups(g.drop_last(), x));
                    let i = choose|i: int| 0 <= i < a.len() && a[i] == x;
                    assert((a + b)[i] == x);
                } else {
                    let i = choose|i: int| 0 <= i < b.len() && b[i] == x;
                    assert((a + b)[a.len() + i] == x);
                }
            }
        }
    }
}

proof fn lemma_fresh_values(seen: Set<usize>, vs: Seq<usize>)
    ensures
        fresh_values(seen, vs).no_duplicates(),
        forall|x: usize| fresh_values(seen, vs).contains(x) <==> (vs.contains(x) && !seen.contains(x)),
    decreases vs.len(),
{
    if vs.len() > 0 {
        let pre = vs.drop_last();
        lemma_fresh_values(seen, pre);
        let f = fresh_values(seen, pre);
        let v = vs.last();
        assert forall|x: usize| vs.contains(x) <==> (pre.contains(x) || x == v) by {
            if vs.contains(x) {
                let i = choose|i: int| 0 <= i < vs.len() && vs[i] == x;
                if i < vs.len() - 1 {
                    assert(pre[i] == x);
                }
            }
            if pre.contains(x) {
                let i = choose|i: int| 0 <= i < pre.len() && pre[i] == x;
                assert(vs[i] == x);
            }
        }
        if !seen.union(pre.to_set()).contains(v) {
            assert(!f.contains(v));
            assert forall|x: usize| f.push(v).contains(x) <==> (f.contains(x) || x == v) by {
                if f.push(v).contains(x) {
                    let i = choose|i: int| 0 <= i < f.push(v).len() && f.push(v)[i] == x;
                    if i < f.len() {
                        assert(f[i] == x);
                    }
                }
                if f.contains(x) {
                    let i = choose|i: int| 0 <= i < f.len() && f[i] == x;
                    assert(f.push(v)[i] == x);
                }
                if x == v {
                    assert(f.push(v)[f.len() as int] == x);
                }
            }
        }
    }
}

impl RuleIndex {
    /// The regex rules whose required literal occurs in the raw URL, without repeats, in the
    /// order their literals are found.
    pub(crate) fn prefilter_matches(&self, raw_url: &str) -> (r: Vec<usize>)
        requires
            self.wf(),
        ensures
            r@.no_duplicates(),
            forall|x: usize| r@.contains(x) <==> prefilter_hit(self.literal_groups(), raw_url@, x),
    {
        let ghost lg = self.literal_groups();
        proof {
            lemma_flatten_members(lg);
        }
        let prefilter = match &self.prefilter {
            Some(p) => p,
            None => {
                let r: Vec<usize> = Vec::new();
                assert(lg.len() == 0);
                return r;
            },
        };
        proof {
            assert(views(prefilter.literals@).len() == prefilter.literals@.len());
            assert(prefilter.literals@.len() == lg.len());
            assert forall|k: int| 0 <= k < lg.len() implies prefilter.literals@[k]@ == lg[k].0 by {
                assert(views(prefilter.literals@)[k] == prefilter.literals@[k]@);
                assert(views(self.prefilter_literals@)[k] == self.prefilter_literals@[k]@);
            }
        }
        let hits = prefilter_hits(prefilter, raw_url);
        let mut out: Vec<usize> = Vec::new();
        let mut seen: HashSet<usize> = HashSet::new();
        let mut h: usize = 0;
        let mut stopped = false;
        while h < hits.len() && !stopped
            invariant
                self.wf(),
                lg == self.literal_groups(),
                forall|x: usize| flatten(lg).contains(x) <==> in_groups(lg, x),
                h <= hits@.len(),
                out@.no_duplicates(),
                seen@ == out@.to_set(),
                forall|j: int| 0 <= j < hits@.len() ==> #[trigger] hits@[j] < lg.len(),
                prefilter.literals@.len() == lg.len(),
                forall|k: int| 0 <= k < lg.len() ==> #[trigger] prefilter.literals@[k]@ == lg[k].0,
                forall|i: int|
                    0 <= i < prefilter.literals@.len() ==> (hits@.contains(i as usize) <==> occurs(
                        encode_utf8(raw_url@),
                        encode_utf8(#[trigger] prefilter.literals@[i]@),
                    )),
                forall|x: usize|
                    seen@.contains(x) <==> exists|j: int|
                        0 <= j < h && #[trigger] lg[hits@[j] as int].1.contains(x),
                stopped ==> seen@ == self.prefilter_rule_ids@,
            decreases hits@.len() - h,
        {
            let k = hits[h];
            let ghost out0 = out@;
            let ghost seen0 = seen@;
            assert(lg[k as int] == (self.prefilter_literals@[k as int]@, self.prefilter_literal_rules@[k as int]@));
            extend_unique(&mut out, &mut seen, self.prefilter_literal_rules[k].as_slice());
            proof {
                let vs = self.prefilter_literal_rules@[k as int]@;
                lemma_fresh_values(seen0, vs);
                let f = fresh_values(seen0, vs);
                assert forall|a: int, b: int| 0 <= a < b < out@.len() implies out@[a] != out@[b] by {
                    if b >= out0.len() && a < out0.len() {
                        assert(out0.contains(out@[a]));
                        assert(seen0.contains(out@[a]));
                        assert(f.contains(out@[b]));
                    } else if a >= out0.len() {
                        assert(f[a - out0.len()] == out@[a]);
                        assert(f[b - out0.len()] == out@[b]);
                    }
                }
                assert forall|x: usize| seen@.contains(x) <==> out@.to_set().contains(x) by {
                    if seen@.contains(x) {
                        if seen0.contains(x) {
                            assert(out0.contains(x));
                            let i = choose|i: int| 0 <= i < out0.len() && out0[i] == x;
                            assert(out@[i] == x);
                        } else {
                            assert(vs.to_set().contains(x));
                            assert(f.contains(x));
                            let i = choose|i: int| 0 <= i < f.len() && f[i] == x;
                            assert(out@[out0.len() + i] == x);
                        }
                    }
                    if out@.contains(x) {
                        let i = choose|i: int| 0 <= i < out@.len() && out@[i] == x;
                        if i < out0.len() {
                            assert(out0[i] == x);
                            assert(out0.contains(x));
                        } else {
                            assert(f[i - out0.len()] == x);
                            assert(f.contains(x));
                        }
                    }
                }
                assert(seen@ =~= out@.to_set());
                assert forall|x: usize|
                    seen@.contains(x) <==> exists|j: int| 0 <= j < h + 1 && #[trigger] lg[hits@[j] as int].1.contains(x) by {
                    if seen@.contains(x) && !seen0.contains(x) {
                        assert(vs.to_set().contains(x));
                        assert(lg[hits@[h as int] as int].1.contains(x));
                    }
                    if exists|j: int| 0 <= j < h + 1 && #[trigger] lg[hits@[j] as int].1.contains(x) {
                        let j = choose|j: int| 0 <= j < h + 1 && #[trigger] lg[hits@[j] as int].1.contains(x);
                        if j == h {
                            assert(vs.contains(x));
                            assert(vs.to_set().contains(x));
                        } else {
                            assert(seen0.contains(x));
                        }
                    }
                }
            }
            if seen.len() == self.prefilter_rule_ids.len() {
                proof {
                    assert forall|x: usize| seen@.contains(x) implies self.prefilter_rule_ids@.contains(x) by {
                        let j = choose|j: int| 0 <= j < h + 1 && #[trigger] lg[hits@[j] as int].1.contains(x);
                        assert(in_groups(lg, x));
                        assert(flatten(lg).contains(x));
                    }
                    vstd::set_lib::lemma_subset_equality(seen@, self.prefilter_rule_ids@);
                }
                stopped = true;
            }
            h += 1;
        }
        proof {
            assert forall|x: usize| out@.contains(x) <==> prefilter_hit(lg, raw_url@, x) by {
                if stopped {
                    if prefilter_hit(lg, raw_url@, x) {
                        let k = choose|k: int|
                            0 <= k < lg.len() && occurs(encode_utf8(raw_url@), encode_utf8(lg[k].0)) && #[trigger] lg[k].1.contains(x);
                        assert(in_groups(lg, x));
                        assert(flatten(lg).contains(x));
                        assert(seen@.contains(x));
                    }
                    if out@.contains(x) {
                        assert(seen@.contains(x));
                        let j = choose|j: int| 0 <= j < h && #[trigger] lg[hits@[j] as int].1.contains(x);
                        let k = hits@[j] as int;
                        assert(hits@.contains(hits@[j]));
                        assert(prefilter.literals@[k]@ == lg[k].0);
                    }
                } else {
                    if out@.contains(x) {
                        assert(seen@.contains(x));
                        let j = choose|j: int| 0 <= j < h && #[trigger] lg[hits@[j] as int].1.contains(x);
                        let k = hits@[j] as int;
                        assert(hits@.contains(hits@[j]));
                        assert(prefilter.literals@[k]@ == lg[k].0);
                    }
                    if prefilter_hit(lg, raw_url@, x) {
                        let k = choose|k: int|
                            0 <= k < lg.len() && occurs(encode_utf8(raw_url@), encode_utf8(lg[k].0)) && #[trigger] lg[k].1.contains(x);
                        assert(prefilter.literals@[k]@ == lg[k].0);
                        assert(hits@.contains(k as usize));
                        let j = choose|j: int| 0 <= j < hits@.len() && hits@[j] == k as usize;
                        assert(prefilter.literals@.len() == prefilter.literals.len());
                        assert(hits@[j] as int == k);
                        assert(lg[hits@[j] as int].1.contains(x));
                        assert(seen@.contains(x));
                    }
                }
            }
        }
        out
    }
}

} // verus!
