//! Parsed rules and the per-snapshot compilation of their globs and body literals, with the
//! binding of each matcher and condition to what was compiled for it.
use crate::rules::action::Action;
use crate::rules::compiled::{glob_compiles, key_id, CompiledGlobSet, GlobId, GlobProgram};
use crate::rules::condition::{lemma_child_decreases, Condition, UrlCondition};
use crate::rules::condition_eval::{
    dedup, lowered, normalize_ip_value, normalized_ip, BodyLiteralId, CompiledBodyContainsSet,
    CompiledConditionResources,
};
use crate::rules::evaluate::{add_key, add_keys, keys_compile, matcher_keys};
use crate::rules::matching::{glob_active, glob_syntax_is_active, host_pattern_uses_regex, host_uses_regex};
use crate::rules::regex_matcher::Matcher;
use crate::rules::url::GlobMatcher;
use crate::text::{chars_of, lower_seq, seq_eq, to_lower, views};
use vstd::prelude::*;

verus! {

/// One source rule after parsing and model validation.
#[derive(Debug)]
pub struct Rule {
    /// Caller-supplied group name used in diagnostics and cross-group ordering.
    pub group: String,
    /// One-based source line within the group.
    pub line: usize,
    /// Comment-free rule text retained for explain and trace output.
    pub raw: String,
    /// URL matcher that admits the rule and produces captures.
    pub matcher: Matcher,
    /// Validated actions in their source order.
    pub actions: Vec<Action>,
    /// Conditions ANDed after the matcher succeeds.
    pub conditions: Vec<Condition>,
    /// Whether this rule is ordered before non-important rules across the snapshot.
    pub important: bool,
    /// Whether the rule is retained but never considered during resolution.
    pub disabled: bool,
    /// Source metadata from `@tag:` modifiers.
    pub tags: Vec<String>,
}

// ---------------------------------------------------------------------------
// Keys and literals a condition needs
// ---------------------------------------------------------------------------

/// The programs registered for IP patterns: each pattern that uses glob syntax and is not a
/// bare `*` or `**`, normalized, with the NUL separator.
pub open spec fn ip_keys(ps: Seq<String>, table: Seq<(String, String)>) -> Seq<(char, Seq<char>)>
    decreases ps.len(),
{
    if ps.len() == 0 {
        seq![]
    } else {
        let before = ip_keys(ps.drop_last(), table);
        let p = ps.last()@;
        if glob_active(p) && p != "*"@ && p != "**"@ {
            before.push(('\0', normalized_ip(table, p)))
        } else {
            before
        }
    }
}

/// The glob programs a condition tree needs, in visiting order: lowercased host patterns that
/// need a program (`.` separated), URL globs that use glob syntax and IP patterns (NUL
/// separated).
pub open spec fn condition_keys(c: Condition, table: Seq<(String, String)>) -> Seq<(char, Seq<char>)>
    decreases c,
{
    match c {
        Condition::Host(p) => if host_uses_regex(p@) {
            seq![('.', lower_seq(p@))]
        } else {
            seq![]
        },
        Condition::Url(uc) => match uc {
            UrlCondition::Glob(p) => if glob_active(p@) {
                seq![('\0', p@)]
            } else {
                seq![]
            },
            UrlCondition::Regex(_) => seq![],
        },
        Condition::ClientIp(ps) => ip_keys(ps@, table),
        Condition::ServerIp(ps) => ip_keys(ps@, table),
        Condition::Any(cs) => list_keys(cs@, table),
        Condition::All(cs) => list_keys(cs@, table),
        Condition::Not(inner) => condition_keys(*inner, table),
        _ => seq![],
    }
}

/// The glob programs a list of conditions needs, in order.
pub open spec fn list_keys(cs: Seq<Condition>, table: Seq<(String, String)>) -> Seq<(char, Seq<char>)>
    decreases cs,
{
    if cs.len() == 0 {
        seq![]
    } else {
        list_keys(cs.drop_last(), table) + condition_keys(cs.last(), table)
    }
}

/// The body-containment literals of a condition tree, in visiting order.
pub open spec fn condition_literals(c: Condition) -> Seq<Seq<char>>
    decreases c,
{
    match c {
        Condition::BodyContains(l) => seq![l@],
        Condition::Any(cs) => list_literals(cs@),
        Condition::All(cs) => list_literals(cs@),
        Condition::Not(inner) => condition_literals(*inner),
        _ => seq![],
    }
}

/// The body-containment literals of a list of conditions, in order.
pub open spec fn list_literals(cs: Seq<Condition>) -> Seq<Seq<char>>
    decreases cs,
{
    if cs.len() == 0 {
        seq![]
    } else {
        list_literals(cs.drop_last()) + condition_literals(cs.last())
    }
}

proof fn lemma_add_keys_concat(k: Seq<(char, Seq<char>)>, a: Seq<(char, Seq<char>)>, b: Seq<(char, Seq<char>)>)
    ensures
        add_keys(k, a + b) == add_keys(add_keys(k, a), b),
    decreases b.len(),
{
    if b.len() == 0 {
        assert(a + b =~= a);
    } else {
        lemma_add_keys_concat(k, a, b.drop_last());
        assert((a + b).drop_last() =~= a + b.drop_last());
        assert((a + b).last() == b.last());
    }
}

proof fn lemma_keys_compile_concat(a: Seq<(char, Seq<char>)>, b: Seq<(char, Seq<char>)>)
    requires
        keys_compile(a + b),
    ensures
        keys_compile(a),
        keys_compile(b),
{
    assert forall|i: int| 0 <= i < a.len() implies glob_compiles(#[trigger] a[i].1, a[i].0) by {
        assert((a + b)[i] == a[i]);
    }
    assert forall|i: int| 0 <= i < b.len() implies glob_compiles(#[trigger] b[i].1, b[i].0) by {
        assert((a + b)[a.len() + i] == b[i]);
    }
}

proof fn lemma_list_keys_prefix(cs: Seq<Condition>, table: Seq<(String, String)>, n: int)
    requires
        0 <= n < cs.len(),
        keys_compile(list_keys(cs, table)),
    ensures
        keys_compile(condition_keys(cs[n], table)),
        list_keys(cs.take(n + 1), table) == list_keys(cs.take(n), table) + condition_keys(cs[n], table),
    decreases cs.len() - n,
{
    assert(cs.take(n + 1).drop_last() =~= cs.take(n));
    if n < cs.len() - 1 {
        lemma_keys_compile_concat(list_keys(cs.drop_last(), table), condition_keys(cs.last(), table));
        lemma_list_keys_prefix(cs.drop_last(), table, n);
        assert(cs.drop_last().take(n + 1) =~= cs.take(n + 1));
        assert(cs.drop_last().take(n) =~= cs.take(n));
    } else {
        lemma_keys_compile_concat(list_keys(cs.drop_last(), table), condition_keys(cs.last(), table));
    }
}

impl CompiledGlobSet {
    /// Registers the programs of the IP patterns `ps`.
    fn register_ip_patterns(&mut self, ps: &Vec<String>, socket_ips: &Vec<(String, String)>)
        requires
            keys_compile(ip_keys(ps@, socket_ips@)),
        ensures
            final(self).keys() == add_keys(old(self).keys(), ip_keys(ps@, socket_ips@)),
    {
        let ghost start = self.keys();
        let mut i: usize = 0;
        assert(ps@.take(0) =~= Seq::<String>::empty());
        while i < ps.len()
            invariant
                i <= ps@.len(),
                keys_compile(ip_keys(ps@, socket_ips@)),
                self.keys() == add_keys(start, ip_keys(ps@.take(i as int), socket_ips@)),
            decreases ps@.len() - i,
        {
            let ghost before = ip_keys(ps@.take(i as int), socket_ips@);
            assert(ps@.take(i + 1).drop_last() =~= ps@.take(i as int));
            assert(ps@.take(i + 1).last() == ps@[i as int]);
            let p = chars_of(ps[i].as_str());
            if glob_syntax_is_active(ps[i].as_str()) && !seq_eq(&p, &chars_of("*")) && !seq_eq(&p, &chars_of("**")) {
                proof {
                    reveal_strlit("*");
                    reveal_strlit("**");
                    lemma_ip_keys_prefix(ps@, socket_ips@, i as int);
                }
                let normalized = normalize_ip_value(ps[i].as_str(), socket_ips);
                self.register(normalized.as_str(), '\0');
                assert(ip_keys(ps@.take(i + 1), socket_ips@) == before.push(('\0', normalized@)));
                assert(before.push(('\0', normalized@)).drop_last() =~= before);
            } else {
                proof {
                    reveal_strlit("*");
                    reveal_strlit("**");
                }
                assert(ip_keys(ps@.take(i + 1), socket_ips@) == before);
            }
            i += 1;
        }
        assert(ps@.take(i as int) =~= ps@);
    }

    /// Compiles the glob programs of a condition tree.
    pub(crate) fn register_condition(&mut self, condition: &Condition, socket_ips: &Vec<(String, String)>)
        requires
            keys_compile(condition_keys(*condition, socket_ips@)),
        ensures
            final(self).keys() == add_keys(old(self).keys(), condition_keys(*condition, socket_ips@)),
        decreases condition,
    {
        let ghost start = self.keys();
        match condition {
            Condition::Host(pattern) => {
                if host_pattern_uses_regex(pattern.as_str()) {
                    let lowered_pattern = to_lower(pattern.as_str());
                    let ghost k = condition_keys(*condition, socket_ips@);
                    assert(k[0] == ('.', lowered_pattern@));
                    assert(glob_compiles(k[0].1, k[0].0));
                    self.register(lowered_pattern.as_str(), '.');
                    assert(k.drop_last() =~= Seq::<(char, Seq<char>)>::empty());
                    assert(add_keys(start, k.drop_last()) == start);
                    assert(k.last() == k[0]);
                    assert(add_keys(start, k) == add_key(start, k[0]));
                } else {
                    assert(condition_keys(*condition, socket_ips@) =~= Seq::<(char, Seq<char>)>::empty());
                    assert(add_keys(start, Seq::<(char, Seq<char>)>::empty()) == start);
                }
            },
            Condition::Url(UrlCondition::Glob(pattern)) => {
                if glob_syntax_is_active(pattern.as_str()) {
                    let ghost k = condition_keys(*condition, socket_ips@);
                    assert(glob_compiles(k[0].1, k[0].0));
                    self.register(pattern.as_str(), '\0');
                    assert(k.drop_last() =~= Seq::<(char, Seq<char>)>::empty());
                    assert(add_keys(start, k.drop_last()) == start);
                    assert(k.last() == k[0]);
                    assert(add_keys(start, k) == add_key(start, k[0]));
                } else {
                    assert(condition_keys(*condition, socket_ips@) =~= Seq::<(char, Seq<char>)>::empty());
                    assert(add_keys(start, Seq::<(char, Seq<char>)>::empty()) == start);
                }
            },
            Condition::ClientIp(patterns) | Condition::ServerIp(patterns) => {
                self.register_ip_patterns(patterns, socket_ips);
            },
            Condition::Any(children) | Condition::All(children) => {
                let mut i: usize = 0;
                assert(list_keys(children@.take(0), socket_ips@) =~= Seq::<(char, Seq<char>)>::empty());
                while i < children.len()
                    invariant
                        i <= children@.len(),
                        *condition == Condition::Any(*children) || *condition == Condition::All(*children),
                        condition_keys(*condition, socket_ips@) == list_keys(children@, socket_ips@),
                        keys_compile(list_keys(children@, socket_ips@)),
                        self.keys() == add_keys(start, list_keys(children@.take(i as int), socket_ips@)),
                    decreases children@.len() - i,
                {
                    proof {
                        lemma_child_decreases(*condition, *children, i as int);
                        lemma_list_keys_prefix(children@, socket_ips@, i as int);
                        lemma_add_keys_concat(
                            start,
                            list_keys(children@.take(i as int), socket_ips@),
                            condition_keys(children@[i as int], socket_ips@),
                        );
                    }
                    self.register_condition(&children[i], socket_ips);
                    i += 1;
                }
                assert(children@.take(i as int) =~= children@);
            },
            Condition::Not(inner) => self.register_condition(inner, socket_ips),
            _ => {},
        }
    }
}

proof fn lemma_ip_keys_prefix(ps: Seq<String>, table: Seq<(String, String)>, n: int)
    requires
        0 <= n < ps.len(),
        keys_compile(ip_keys(ps, table)),
        glob_active(ps[n]@) && ps[n]@ != "*"@ && ps[n]@ != "**"@,
    ensures
        glob_compiles(normalized_ip(table, ps[n]@), '\0'),
    decreases ps.len() - n,
{
    let k = ip_keys(ps, table);
    if n == ps.len() - 1 {
        let before = ip_keys(ps.drop_last(), table);
        assert(k == before.push(('\0', normalized_ip(table, ps[n]@))));
        assert(k[before.len() as int] == ('\0', normalized_ip(table, ps[n]@)));
        assert(glob_compiles(k[before.len() as int].1, k[before.len() as int].0));
    } else {
        let before = ip_keys(ps.drop_last(), table);
        assert(before.len() <= k.len());
        assert forall|i: int| 0 <= i < before.len() implies glob_compiles(#[trigger] before[i].1, before[i].0) by {
            assert(k[i] == before[i]);
        }
        assert(ps.drop_last()[n] == ps[n]);
        lemma_ip_keys_prefix(ps.drop_last(), table, n);
    }
}

// ---------------------------------------------------------------------------
// Binding conditions to compiled resources
// ---------------------------------------------------------------------------

/// IP resources bound for patterns `ps`: each pattern normalized, with the id of its program.
pub open spec fn bound_ips(
    keys: Seq<(char, Seq<char>)>,
    table: Seq<(String, String)>,
    ps: Seq<String>,
    v: Seq<(String, Option<GlobId>)>,
) -> bool {
    v.len() == ps.len() && forall|i: int|
        0 <= i < v.len() ==> #[trigger] v[i].0@ == normalized_ip(table, ps[i]@) && v[i].1 == key_id(
            keys,
            ('\0', v[i].0@),
        )
}

/// Whether `r` is what binding gives condition `c`, with programs `keys`, distinct lowercased
/// body literals `lits`, and the socket-address table `table`.
pub open spec fn binds(
    keys: Seq<(char, Seq<char>)>,
    lits: Seq<Seq<char>>,
    table: Seq<(String, String)>,
    c: Condition,
    r: CompiledConditionResources,
) -> bool
    decreases c,
{
    match c {
        Condition::Host(p) => r == CompiledConditionResources::Host(
            if host_uses_regex(p@) {
                key_id(keys, ('.', lower_seq(p@)))
            } else {
                None
            },
        ),
        Condition::Url(uc) => match uc {
            UrlCondition::Glob(p) => r == CompiledConditionResources::UrlGlob(
                if glob_active(p@) {
                    key_id(keys, ('\0', p@))
                } else {
                    None
                },
            ),
            UrlCondition::Regex(_) => r == CompiledConditionResources::Unbound,
        },
        Condition::ClientIp(ps) => r matches CompiledConditionResources::ClientIp(v) && bound_ips(
            keys,
            table,
            ps@,
            v@,
        ),
        Condition::ServerIp(ps) => r matches CompiledConditionResources::ServerIp(v) && bound_ips(
            keys,
            table,
            ps@,
            v@,
        ),
        Condition::BodyContains(l) => r matches CompiledConditionResources::BodyContains(b) && b.0
            < lits.len() && lits[b.0 as int] == lower_seq(l@),
        Condition::Any(cs) => r matches CompiledConditionResources::Children(rs) && binds_list(
            keys,
            lits,
            table,
            cs@,
            rs@,
        ),
        Condition::All(cs) => r matches CompiledConditionResources::Children(rs) && binds_list(
            keys,
            lits,
            table,
            cs@,
            rs@,
        ),
        Condition::Not(inner) => r matches CompiledConditionResources::Not(ir) && binds(
            keys,
            lits,
            table,
            *inner,
            *ir,
        ),
        _ => r == CompiledConditionResources::Unbound,
    }
}

/// Whether `rs` binds each of `cs`, position by position.
pub open spec fn binds_list(
    keys: Seq<(char, Seq<char>)>,
    lits: Seq<Seq<char>>,
    table: Seq<(String, String)>,
    cs: Seq<Condition>,
    rs: Seq<CompiledConditionResources>,
) -> bool
    decreases cs,
{
    rs.len() == cs.len() && (cs.len() == 0 || (binds_list(keys, lits, table, cs.drop_last(), rs.drop_last())
        && binds(keys, lits, table, cs.last(), rs.last())))
}

/// Every body literal of `c` has an id in `body`.
pub open spec fn literals_known(c: Condition, body: CompiledBodyContainsSet) -> bool {
    forall|i: int| 0 <= i < condition_literals(c).len() ==> body.sources().contains(
        #[trigger] condition_literals(c)[i],
    )
}

pub proof fn lemma_list_literals_prefix(cs: Seq<Condition>, n: int)
    requires
        0 <= n < cs.len(),
    ensures
        forall|j: int|
            0 <= j < condition_literals(cs[n]).len() ==> list_literals(cs).contains(
                #[trigger] condition_literals(cs[n])[j],
            ),
    decreases cs.len() - n,
{
    let a = list_literals(cs.drop_last());
    let b = condition_literals(cs.last());
    if n == cs.len() - 1 {
        assert forall|j: int| 0 <= j < b.len() implies list_literals(cs).contains(#[trigger] b[j]) by {
            assert((a + b)[a.len() + j] == b[j]);
        }
    } else {
        lemma_list_literals_prefix(cs.drop_last(), n);
        assert(cs.drop_last()[n] == cs[n]);
        assert forall|j: int|
            0 <= j < condition_literals(cs[n]).len() implies list_literals(cs).contains(
                #[trigger] condition_literals(cs[n])[j],
            ) by {
            let x = condition_literals(cs[n])[j];
            assert(a.contains(x));
            let k = choose|k: int| 0 <= k < a.len() && a[k] == x;
            assert((a + b)[k] == x);
        }
    }
}

/// Binds the IP patterns `ps` to their normalized texts and programs.
fn bind_ip_patterns(
    ps: &Vec<String>,
    globs: &CompiledGlobSet,
    socket_ips: &Vec<(String, String)>,
) -> (r: Vec<(String, Option<GlobId>)>)
    ensures
        bound_ips(globs.keys(), socket_ips@, ps@, r@),
{
    let mut out: Vec<(String, Option<GlobId>)> = Vec::new();
    let mut i: usize = 0;
    while i < ps.len()
        invariant
            i <= ps@.len(),
            out@.len() == i,
            forall|j: int|
                0 <= j < i ==> #[trigger] out@[j].0@ == normalized_ip(socket_ips@, ps@[j]@) && out@[j].1
                    == key_id(globs.keys(), ('\0', out@[j].0@)),
        decreases ps@.len() - i,
    {
        let normalized = normalize_ip_value(ps[i].as_str(), socket_ips);
        let id = globs.id(normalized.as_str(), '\0');
        out.push((normalized, id));
        i += 1;
    }
    out
}

/// Looks up the compiled programs and literals a condition tree uses.
pub fn bind_condition_resources(
    condition: &Condition,
    globs: &CompiledGlobSet,
    body_literals: &CompiledBodyContainsSet,
    socket_ips: &Vec<(String, String)>,
) -> (r: CompiledConditionResources)
    requires
        literals_known(*condition, *body_literals),
    ensures
        binds(globs.keys(), body_literals.literal_texts(), socket_ips@, *condition, r),
    decreases condition,
{
    match condition {
        Condition::Host(pattern) => {
            let id = if host_pattern_uses_regex(pattern.as_str()) {
                let lowered_pattern = to_lower(pattern.as_str());
                globs.id(lowered_pattern.as_str(), '.')
            } else {
                None
            };
            CompiledConditionResources::Host(id)
        },
        Condition::Url(UrlCondition::Glob(pattern)) => {
            let id = if glob_syntax_is_active(pattern.as_str()) {
                globs.id(pattern.as_str(), '\0')
            } else {
                None
            };
            CompiledConditionResources::UrlGlob(id)
        },
        Condition::ClientIp(patterns) => CompiledConditionResources::ClientIp(
            bind_ip_patterns(patterns, globs, socket_ips),
        ),
        Condition::ServerIp(patterns) => CompiledConditionResources::ServerIp(
            bind_ip_patterns(patterns, globs, socket_ips),
        ),
        Condition::BodyContains(literal) => {
            assert(condition_literals(*condition)[0] == literal@);
            match body_literals.id(literal.as_str()) {
                Some(id) => CompiledConditionResources::BodyContains(id),
                None => {
                    assert(false);
                    CompiledConditionResources::Unbound
                },
            }
        },
        Condition::Any(children) | Condition::All(children) => {
            let mut out: Vec<CompiledConditionResources> = Vec::new();
            let mut i: usize = 0;
            while i < children.len()
                invariant
                    i <= children@.len(),
                    *condition == Condition::Any(*children) || *condition == Condition::All(*children),
                    condition_literals(*condition) == list_literals(children@),
                    literals_known(*condition, *body_literals),
                    binds_list(
                        globs.keys(),
                        body_literals.literal_texts(),
                        socket_ips@,
                        children@.take(i as int),
                        out@,
                    ),
                decreases children@.len() - i,
            {
                proof {
                    lemma_child_decreases(*condition, *children, i as int);
                    lemma_list_literals_prefix(children@, i as int);
                    assert forall|j: int|
                        0 <= j < condition_literals(children@[i as int]).len() implies body_literals.sources().contains(
                            #[trigger] condition_literals(children@[i as int])[j],
                        ) by {
                        let x = condition_literals(children@[i as int])[j];
                        let l = list_literals(children@);
                        let k = choose|k: int| 0 <= k < l.len() && l[k] == x;
                        assert(condition_literals(*condition)[k] == x);
                    }
                }
                let child = bind_condition_resources(&children[i], globs, body_literals, socket_ips);
                let ghost before = out@;
                out.push(child);
                assert(children@.take(i + 1).drop_last() =~= children@.take(i as int));
                assert(out@.drop_last() =~= before);
                i += 1;
            }
            assert(children@.take(i as int) =~= children@);
            CompiledConditionResources::Children(out)
        },
        Condition::Not(inner) => {
            assert(condition_literals(*condition) == condition_literals(**inner));
            CompiledConditionResources::Not(
                Box::new(bind_condition_resources(inner, globs, body_literals, socket_ips)),
            )
        },
        _ => CompiledConditionResources::Unbound,
    }
}

/// Appends the body-containment literals of a condition tree to `literals`.
pub fn collect_body_literals(condition: &Condition, literals: &mut Vec<String>)
    ensures
        views(final(literals)@) == views(old(literals)@) + condition_literals(*condition),
    decreases condition,
{
    match condition {
        Condition::BodyContains(literal) => {
            let ghost before = views(literals@);
            literals.push(literal.clone());
            assert(views(literals@) =~= before + seq![literal@]);
        },
        Condition::Any(children) | Condition::All(children) => {
            let ghost start = views(literals@);
            let mut i: usize = 0;
            assert(list_literals(children@.take(0)) =~= Seq::<Seq<char>>::empty());
            assert(start + Seq::<Seq<char>>::empty() =~= start);
            while i < children.len()
                invariant
                    i <= children@.len(),
                    *condition == Condition::Any(*children) || *condition == Condition::All(*children),
                    views(literals@) == start + list_literals(children@.take(i as int)),
                decreases children@.len() - i,
            {
                proof {
                    lemma_child_decreases(*condition, *children, i as int);
                }
                collect_body_literals(&children[i], literals);
                assert(children@.take(i + 1).drop_last() =~= children@.take(i as int));
                assert(views(literals@) =~= start + list_literals(children@.take(i + 1)));
                i += 1;
            }
            assert(children@.take(i as int) =~= children@);
        },
        Condition::Not(inner) => collect_body_literals(inner, literals),
        _ => {
            assert(views(literals@) =~= views(literals@) + Seq::<Seq<char>>::empty());
        },
    }
}

// ---------------------------------------------------------------------------
// Whole snapshots
// ---------------------------------------------------------------------------

/// The glob programs of every matcher and condition of `rules`, in order.
pub open spec fn rules_keys(rules: Seq<Rule>, table: Seq<(String, String)>) -> Seq<(char, Seq<char>)>
    decreases rules.len(),
{
    if rules.len() == 0 {
        seq![]
    } else {
        rules_keys(rules.drop_last(), table) + matcher_keys(rules.last().matcher) + list_keys(
            rules.last().conditions@,
            table,
        )
    }
}

/// The body-containment literals of every condition of `rules`, in order.
pub open spec fn rules_literals(rules: Seq<Rule>) -> Seq<Seq<char>>
    decreases rules.len(),
{
    if rules.len() == 0 {
        seq![]
    } else {
        rules_literals(rules.drop_last()) + list_literals(rules.last().conditions@)
    }
}

proof fn lemma_keys_compile_join(a: Seq<(char, Seq<char>)>, b: Seq<(char, Seq<char>)>)
    ensures
        keys_compile(a + b) == (keys_compile(a) && keys_compile(b)),
{
    if keys_compile(a + b) {
        lemma_keys_compile_concat(a, b);
    }
    if keys_compile(a) && keys_compile(b) {
        assert forall|i: int| 0 <= i < (a + b).len() implies glob_compiles(#[trigger] (a + b)[i].1, (a + b)[i].0) by {
            if i < a.len() {
                assert((a + b)[i] == a[i]);
            } else {
                assert((a + b)[i] == b[i - a.len()]);
            }
        }
    }
}

proof fn lemma_keys_compile_single(k: (char, Seq<char>))
    ensures
        keys_compile(seq![k]) == glob_compiles(k.1, k.0),
{
    assert(seq![k][0] == k);
}

/// Whether a glob compiles, as [`GlobProgram::compile`] decides.
fn compiles(pattern: &str, sep: char) -> (r: bool)
    ensures
        r == glob_compiles(pattern@, sep),
{
    GlobProgram::compile(pattern, sep).is_some()
}

proof fn lemma_glob_keys_compile(g: GlobMatcher)
    ensures
        keys_compile(matcher_keys(Matcher::Glob(g))) == ((host_uses_regex(g.host@) ==> glob_compiles(
            g.host@,
            '.',
        )) && (g.port matches Some(p) ==> glob_compiles(p@, '.')) && (g.path matches Some(p)
            ==> (glob_active(p@) ==> glob_compiles(p@, '/'))) && (g.query matches Some(q)
            ==> glob_compiles(q@, '&'))),
{
    let k = matcher_keys(Matcher::Glob(g));
    let a: Seq<(char, Seq<char>)> = if host_uses_regex(g.host@) {
        seq![('.', g.host@)]
    } else {
        seq![]
    };
    let b: Seq<(char, Seq<char>)> = match g.port {
        Some(p) => seq![('.', p@)],
        None => seq![],
    };
    let c: Seq<(char, Seq<char>)> = match g.path {
        Some(p) => if glob_active(p@) {
            seq![('/', p@)]
        } else {
            seq![]
        },
        None => seq![],
    };
    let d: Seq<(char, Seq<char>)> = match g.query {
        Some(q) => seq![('&', q@)],
        None => seq![],
    };
    assert(k =~= a + b + c + d);
    lemma_keys_compile_join(a + b + c, d);
    lemma_keys_compile_join(a + b, c);
    lemma_keys_compile_join(a, b);
    if host_uses_regex(g.host@) {
        lemma_keys_compile_single(('.', g.host@));
    } else {
        assert(keys_compile(a));
    }
    match g.port {
        Some(p) => lemma_keys_compile_single(('.', p@)),
        None => assert(keys_compile(b)),
    }
    match g.path {
        Some(p) => if glob_active(p@) {
            lemma_keys_compile_single(('/', p@));
        } else {
            assert(keys_compile(c));
        },
        None => assert(keys_compile(c)),
    }
    match g.query {
        Some(q) => lemma_keys_compile_single(('&', q@)),
        None => assert(keys_compile(d)),
    }
}

/// Whether every glob program that matcher `m` needs compiles.
pub fn matcher_globs_compile(m: &Matcher) -> (r: bool)
    ensures
        r == keys_compile(matcher_keys(*m)),
    decreases m,
{
    match m {
        Matcher::Glob(g) => {
            let ghost k = matcher_keys(*m);
            let host_ok = if host_pattern_uses_regex(g.host.as_str()) {
                compiles(g.host.as_str(), '.')
            } else {
                true
            };
            let port_ok = match &g.port {
                Some(p) => compiles(p.as_str(), '.'),
                None => true,
            };
            let path_ok = match &g.path {
                Some(p) => if glob_syntax_is_active(p.as_str()) {
                    compiles(p.as_str(), '/')
                } else {
                    true
                },
                None => true,
            };
            let query_ok = match &g.query {
                Some(q) => compiles(q.as_str(), '&'),
                None => true,
            };
            proof {
                lemma_glob_keys_compile(*g);
            }
            host_ok && port_ok && path_ok && query_ok
        },
        Matcher::Not(inner) => matcher_globs_compile(inner),
        _ => true,
    }
}

/// Whether every glob program for IP patterns `ps` compiles.
fn ip_globs_compile(ps: &Vec<String>, socket_ips: &Vec<(String, String)>) -> (r: bool)
    ensures
        r == keys_compile(ip_keys(ps@, socket_ips@)),
{
    let mut i: usize = 0;
    assert(ps@.take(0) =~= Seq::<String>::empty());
    while i < ps.len()
        invariant
            i <= ps@.len(),
            keys_compile(ip_keys(ps@.take(i as int), socket_ips@)),
        decreases ps@.len() - i,
    {
        let ghost before = ip_keys(ps@.take(i as int), socket_ips@);
        assert(ps@.take(i + 1).drop_last() =~= ps@.take(i as int));
        assert(ps@.take(i + 1).last() == ps@[i as int]);
        let p = chars_of(ps[i].as_str());
        proof {
            reveal_strlit("*");
            reveal_strlit("**");
        }
        if glob_syntax_is_active(ps[i].as_str()) && !seq_eq(&p, &chars_of("*")) && !seq_eq(&p, &chars_of("**")) {
            let normalized = normalize_ip_value(ps[i].as_str(), socket_ips);
            let ok = compiles(normalized.as_str(), '\0');
            proof {
                lemma_keys_compile_join(before, seq![('\0', normalized@)]);
                lemma_keys_compile_single(('\0', normalized@));
                assert(before.push(('\0', normalized@)) =~= before + seq![('\0', normalized@)]);
            }
            if !ok {
                proof {
                    lemma_ip_keys_extend(ps@, socket_ips@, i + 1);
                }
                return false;
            }
        }
        i += 1;
    }
    assert(ps@.take(i as int) =~= ps@);
    true
}

proof fn lemma_ip_keys_extend(ps: Seq<String>, table: Seq<(String, String)>, n: int)
    requires
        0 <= n <= ps.len(),
        !keys_compile(ip_keys(ps.take(n), table)),
    ensures
        !keys_compile(ip_keys(ps, table)),
    decreases ps.len() - n,
{
    if n < ps.len() {
        assert(ps.drop_last().take(n) =~= ps.take(n));
        lemma_ip_keys_extend(ps.drop_last(), table, n);
        let before = ip_keys(ps.drop_last(), table);
        let k = ip_keys(ps, table);
        if keys_compile(k) {
            assert forall|i: int| 0 <= i < before.len() implies glob_compiles(#[trigger] before[i].1, before[i].0) by {
                assert(k[i] == before[i]);
            }
        }
    } else {
        assert(ps.take(n) =~= ps);
    }
}

/// Whether every glob program that a condition tree needs compiles.
pub fn condition_globs_compile(c: &Condition, socket_ips: &Vec<(String, String)>) -> (r: bool)
    ensures
        r == keys_compile(condition_keys(*c, socket_ips@)),
    decreases c,
{
    match c {
        Condition::Host(pattern) => if host_pattern_uses_regex(pattern.as_str()) {
            let lowered_pattern = to_lower(pattern.as_str());
            proof {
                lemma_keys_compile_single(('.', lowered_pattern@));
            }
            compiles(lowered_pattern.as_str(), '.')
        } else {
            true
        },
        Condition::Url(UrlCondition::Glob(pattern)) => if glob_syntax_is_active(pattern.as_str()) {
            proof {
                lemma_keys_compile_single(('\0', pattern@));
            }
            compiles(pattern.as_str(), '\0')
        } else {
            true
        },
        Condition::ClientIp(ps) | Condition::ServerIp(ps) => ip_globs_compile(ps, socket_ips),
        Condition::Any(children) | Condition::All(children) => {
            let mut i: usize = 0;
            assert(list_keys(children@.take(0), socket_ips@) =~= Seq::<(char, Seq<char>)>::empty());
            while i < children.len()
                invariant
                    i <= children@.len(),
                    *c == Condition::Any(*children) || *c == Condition::All(*children),
                    condition_keys(*c, socket_ips@) == list_keys(children@, socket_ips@),
                    keys_compile(list_keys(children@.take(i as int), socket_ips@)),
                decreases children@.len() - i,
            {
                proof {
                    lemma_child_decreases(*c, *children, i as int);
                    assert(children@.take(i + 1).drop_last() =~= children@.take(i as int));
                    lemma_keys_compile_join(
                        list_keys(children@.take(i as int), socket_ips@),
                        condition_keys(children@[i as int], socket_ips@),
                    );
                }
                if !condition_globs_compile(&children[i], socket_ips) {
                    proof {
                        lemma_list_keys_extend(children@, socket_ips@, i + 1);
                    }
                    return false;
                }
                i += 1;
            }
            assert(children@.take(i as int) =~= children@);
            true
        },
        Condition::Not(inner) => condition_globs_compile(inner, socket_ips),
        _ => true,
    }
}

proof fn lemma_list_keys_extend(cs: Seq<Condition>, table: Seq<(String, String)>, n: int)
    requires
        0 <= n <= cs.len(),
        !keys_compile(list_keys(cs.take(n), table)),
    ensures
        !keys_compile(list_keys(cs, table)),
    decreases cs.len() - n,
{
    if n < cs.len() {
        assert(cs.drop_last().take(n) =~= cs.take(n));
        lemma_list_keys_extend(cs.drop_last(), table, n);
        lemma_keys_compile_join(list_keys(cs.drop_last(), table), condition_keys(cs.last(), table));
    } else {
        assert(cs.take(n) =~= cs);
    }
}

impl CompiledGlobSet {
    /// Compiles the glob programs of every matcher and condition of `rules`.
    pub(crate) fn build(rules: &Vec<Rule>, socket_ips: &Vec<(String, String)>) -> (r: Self)
        requires
            keys_compile(rules_keys(rules@, socket_ips@)),
        ensures
            r.keys() == add_keys(Seq::empty(), rules_keys(rules@, socket_ips@)),
    {
        let mut compiled = CompiledGlobSet::new();
        let mut i: usize = 0;
        assert(rules@.take(0) =~= Seq::<Rule>::empty());
        while i < rules.len()
            invariant
                i <= rules@.len(),
                keys_compile(rules_keys(rules@, socket_ips@)),
                compiled.keys() == add_keys(Seq::empty(), rules_keys(rules@.take(i as int), socket_ips@)),
            decreases rules@.len() - i,
        {
            let ghost before = rules_keys(rules@.take(i as int), socket_ips@);
            let ghost rule = rules@[i as int];
            proof {
                assert(rules@.take(i + 1).drop_last() =~= rules@.take(i as int));
                lemma_rules_keys_prefix(rules@, socket_ips@, i + 1);
                lemma_keys_compile_join(
                    rules_keys(rules@.take(i + 1), socket_ips@),
                    Seq::empty(),
                );
                lemma_keys_compile_join(before + matcher_keys(rule.matcher), list_keys(rule.conditions@, socket_ips@));
                lemma_keys_compile_join(before, matcher_keys(rule.matcher));
                lemma_add_keys_concat(Seq::empty(), before, matcher_keys(rule.matcher));
            }
            compiled.register_matcher(&rules[i].matcher);
            let conditions = &rules[i].conditions;
            let mut j: usize = 0;
            let ghost mid = before + matcher_keys(rule.matcher);
            assert(list_keys(conditions@.take(0), socket_ips@) =~= Seq::<(char, Seq<char>)>::empty());
            assert(mid + Seq::<(char, Seq<char>)>::empty() =~= mid);
            while j < conditions.len()
                invariant
                    j <= conditions@.len(),
                    *conditions == rule.conditions,
                    keys_compile(list_keys(conditions@, socket_ips@)),
                    compiled.keys() == add_keys(Seq::empty(), mid + list_keys(conditions@.take(j as int), socket_ips@)),
                decreases conditions@.len() - j,
            {
                proof {
                    lemma_list_keys_prefix(conditions@, socket_ips@, j as int);
                    lemma_add_keys_concat(
                        Seq::empty(),
                        mid + list_keys(conditions@.take(j as int), socket_ips@),
                        condition_keys(conditions@[j as int], socket_ips@),
                    );
                    assert(mid + list_keys(conditions@.take(j as int), socket_ips@) + condition_keys(
                        conditions@[j as int],
                        socket_ips@,
                    ) =~= mid + list_keys(conditions@.take(j + 1), socket_ips@));
                }
                compiled.register_condition(&conditions[j], socket_ips);
                j += 1;
            }
            assert(conditions@.take(j as int) =~= conditions@);
            assert(rules_keys(rules@.take(i + 1), socket_ips@) == mid + list_keys(rule.conditions@, socket_ips@));
            i += 1;
        }
        assert(rules@.take(i as int) =~= rules@);
        compiled
    }

    /// The compiled globs of `rules`, as [`Self::build`] compiles them; `None` where one of
    /// their glob programs does not compile.
    pub fn for_rules(rules: &Vec<Rule>, socket_ips: &Vec<(String, String)>) -> (r: Option<Self>)
        ensures
            r is Some <==> keys_compile(rules_keys(rules@, socket_ips@)),
            r matches Some(set) ==> set.keys() == add_keys(Seq::empty(), rules_keys(rules@, socket_ips@)),
    {
        if rules_globs_compile(rules, socket_ips) {
            Some(Self::build(rules, socket_ips))
        } else {
            None
        }
    }
}

/// Whether every glob program of the matchers and conditions of `rules` compiles.
pub fn rules_globs_compile(rules: &Vec<Rule>, socket_ips: &Vec<(String, String)>) -> (r: bool)
    ensures
        r == keys_compile(rules_keys(rules@, socket_ips@)),
{
        let mut i: usize = 0;
        assert(rules@.take(0) =~= Seq::<Rule>::empty());
        while i < rules.len()
            invariant
                i <= rules@.len(),
                keys_compile(rules_keys(rules@.take(i as int), socket_ips@)),
            decreases rules@.len() - i,
        {
            let ghost before = rules_keys(rules@.take(i as int), socket_ips@);
            let ghost rule = rules@[i as int];
            proof {
                assert(rules@.take(i + 1).drop_last() =~= rules@.take(i as int));
                lemma_keys_compile_join(before + matcher_keys(rule.matcher), list_keys(rule.conditions@, socket_ips@));
                lemma_keys_compile_join(before, matcher_keys(rule.matcher));
            }
            let ok = matcher_globs_compile(&rules[i].matcher);
            let conditions = &rules[i].conditions;
            let mut j: usize = 0;
            assert(list_keys(conditions@.take(0), socket_ips@) =~= Seq::<(char, Seq<char>)>::empty());
            while j < conditions.len()
                invariant
                    j <= conditions@.len(),
                    i < rules@.len(),
                    rule == rules@[i as int],
                    before == rules_keys(rules@.take(i as int), socket_ips@),
                    *conditions == rule.conditions,
                    keys_compile(list_keys(conditions@.take(j as int), socket_ips@)),
                decreases conditions@.len() - j,
            {
                proof {
                    assert(conditions@.take(j + 1).drop_last() =~= conditions@.take(j as int));
                    lemma_keys_compile_join(
                        list_keys(conditions@.take(j as int), socket_ips@),
                        condition_keys(conditions@[j as int], socket_ips@),
                    );
                }
                if !condition_globs_compile(&conditions[j], socket_ips) {
                    proof {
                        lemma_list_keys_extend(conditions@, socket_ips@, j + 1);
                        assert(rules@.take(i + 1).drop_last() =~= rules@.take(i as int));
                        assert(rules@.take(i + 1).last() == rules@[i as int]);
                        lemma_keys_compile_join(
                            before + matcher_keys(rule.matcher),
                            list_keys(rule.conditions@, socket_ips@),
                        );
                        lemma_rules_keys_extend(rules@, socket_ips@, i + 1);
                    }
                    return false;
                }
                j += 1;
            }
            assert(conditions@.take(j as int) =~= conditions@);
            if !ok {
                proof {
                    lemma_rules_keys_extend(rules@, socket_ips@, i + 1);
                }
                return false;
            }
            i += 1;
        }
        assert(rules@.take(i as int) =~= rules@);
        true
}

proof fn lemma_rules_keys_prefix(rules: Seq<Rule>, table: Seq<(String, String)>, n: int)
    requires
        0 <= n <= rules.len(),
        keys_compile(rules_keys(rules, table)),
    ensures
        keys_compile(rules_keys(rules.take(n), table)),
    decreases rules.len() - n,
{
    if n < rules.len() {
        let last = rules.last();
        lemma_keys_compile_join(
            rules_keys(rules.drop_last(), table) + matcher_keys(last.matcher),
            list_keys(last.conditions@, table),
        );
        lemma_keys_compile_join(rules_keys(rules.drop_last(), table), matcher_keys(last.matcher));
        lemma_rules_keys_prefix(rules.drop_last(), table, n);
        assert(rules.drop_last().take(n) =~= rules.take(n));
    } else {
        assert(rules.take(n) =~= rules);
    }
}

proof fn lemma_rules_keys_extend(rules: Seq<Rule>, table: Seq<(String, String)>, n: int)
    requires
        0 <= n <= rules.len(),
        !keys_compile(rules_keys(rules.take(n), table)),
    ensures
        !keys_compile(rules_keys(rules, table)),
{
    if keys_compile(rules_keys(rules, table)) {
        lemma_rules_keys_prefix(rules, table, n);
    }
}

impl CompiledBodyContainsSet {
    /// Compiles the body-containment literals of every condition of `rules`.
    pub(crate) fn build(rules: &Vec<Rule>) -> (r: Self)
        requires
            dedup(lowered(rules_literals(rules@))).len() > 0 ==> crate::rules::condition_eval::automaton_builds(
                dedup(lowered(rules_literals(rules@))),
            ),
        ensures
            r.literal_texts() == dedup(lowered(rules_literals(rules@))),
            r.sources() == rules_literals(rules@),
    {
        let literals = rules_body_literals(rules);
        Self::from_literals(&literals)
    }

    /// The compiled body literals of `rules`, as [`Self::build`] compiles them; `None` where
    /// the automaton crate refuses them.
    pub fn for_rules(rules: &Vec<Rule>) -> (r: Option<Self>)
        ensures
            r is Some <==> (dedup(lowered(rules_literals(rules@))).len() > 0
                ==> crate::rules::condition_eval::automaton_builds(dedup(lowered(rules_literals(rules@))))),
            r matches Some(set) ==> set.literal_texts() == dedup(lowered(rules_literals(rules@)))
                && set.sources() == rules_literals(rules@),
    {
        let literals = rules_body_literals(rules);
        Self::try_from_literals(&literals)
    }
}

/// The body-containment literals of every condition of `rules`, in order.
pub fn rules_body_literals(rules: &Vec<Rule>) -> (r: Vec<String>)
    ensures
        views(r@) == rules_literals(rules@),
{
    let mut out: Vec<String> = Vec::new();
    let mut i: usize = 0;
    assert(rules@.take(0) =~= Seq::<Rule>::empty());
    assert(views(out@) =~= Seq::<Seq<char>>::empty());
    while i < rules.len()
        invariant
            i <= rules@.len(),
            views(out@) == rules_literals(rules@.take(i as int)),
        decreases rules@.len() - i,
    {
        let ghost start = views(out@);
        let conditions = &rules[i].conditions;
        let mut j: usize = 0;
        assert(list_literals(conditions@.take(0)) =~= Seq::<Seq<char>>::empty());
        assert(start + Seq::<Seq<char>>::empty() =~= start);
        while j < conditions.len()
            invariant
                j <= conditions@.len(),
                views(out@) == start + list_literals(conditions@.take(j as int)),
            decreases conditions@.len() - j,
        {
            collect_body_literals(&conditions[j], &mut out);
            assert(conditions@.take(j + 1).drop_last() =~= conditions@.take(j as int));
            assert(views(out@) =~= start + list_literals(conditions@.take(j + 1)));
            j += 1;
        }
        assert(conditions@.take(j as int) =~= conditions@);
        assert(rules@.take(i + 1).drop_last() =~= rules@.take(i as int));
        i += 1;
    }
    assert(rules@.take(i as int) =~= rules@);
    out
}

/// Every body literal of a rule's condition is among the literals of the rules.
pub proof fn lemma_rule_literals_known(rules: Seq<Rule>, i: int, j: int, body: CompiledBodyContainsSet)
    requires
        0 <= i < rules.len(),
        0 <= j < rules[i].conditions@.len(),
        body.sources() == rules_literals(rules),
    ensures
        literals_known(rules[i].conditions@[j], body),
    decreases rules.len(),
{
    let c = rules[i].conditions@[j];
    lemma_list_literals_prefix(rules[i].conditions@, j);
    if i == rules.len() - 1 {
        let a = rules_literals(rules.drop_last());
        let b = list_literals(rules.last().conditions@);
        assert forall|k: int| 0 <= k < condition_literals(c).len() implies body.sources().contains(
            #[trigger] condition_literals(c)[k],
        ) by {
            let x = condition_literals(c)[k];
            assert(b.contains(x));
            let m = choose|m: int| 0 <= m < b.len() && b[m] == x;
            assert((a + b)[a.len() + m] == x);
        }
    } else {
        let a = rules_literals(rules.drop_last());
        let b = list_literals(rules.last().conditions@);
        assert forall|k: int| 0 <= k < condition_literals(c).len() implies body.sources().contains(
            #[trigger] condition_literals(c)[k],
        ) by {
            let x = condition_literals(c)[k];
            lemma_rule_literal_in_prefix(rules.drop_last(), i, j, k);
            assert(rules.drop_last()[i] == rules[i]);
            assert(a.contains(x));
            let m = choose|m: int| 0 <= m < a.len() && a[m] == x;
            assert((a + b)[m] == x);
        }
    }
}

proof fn lemma_rule_literal_in_prefix(rules: Seq<Rule>, i: int, j: int, k: int)
    requires
        0 <= i < rules.len(),
        0 <= j < rules[i].conditions@.len(),
        0 <= k < condition_literals(rules[i].conditions@[j]).len(),
    ensures
        rules_literals(rules).contains(condition_literals(rules[i].conditions@[j])[k]),
    decreases rules.len(),
{
    let x = condition_literals(rules[i].conditions@[j])[k];
    let a = rules_literals(rules.drop_last());
    let b = list_literals(rules.last().conditions@);
    lemma_list_literals_prefix(rules[i].conditions@, j);
    if i == rules.len() - 1 {
        assert(b.contains(x));
        let m = choose|m: int| 0 <= m < b.len() && b[m] == x;
        assert((a + b)[a.len() + m] == x);
    } else {
        assert(rules.drop_last()[i] == rules[i]);
        lemma_rule_literal_in_prefix(rules.drop_last(), i, j, k);
        let m = choose|m: int| 0 <= m < a.len() && a[m] == x;
        assert((a + b)[m] == x);
    }
}

} // verus!
