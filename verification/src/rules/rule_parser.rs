//! Parsing one rule line: its tokens, the URL matcher, then actions, `when` conditions and
//! `@` properties in order, under the per-rule limits.
use crate::rules::action::{Action, HeaderOp};
use crate::rules::action_parser::{action_result, parse_action};
use crate::rules::condition::{capped, condition_nodes_upto, node_count, Condition};
use crate::rules::condition_parser::{
    chance_deterministic, condition_error, condition_spec, cond_matches, parse_condition, SyntaxProfile,
};
use crate::rules::error::{ModelErrorKind, RuleErrorCode, RuleModelError};
use crate::rules::index::texts;
use crate::rules::language::{
    canonical_property, property_in, property_spellings, MAX_RULE_ACTIONS_PER_RULE,
    MAX_RULE_CONDITION_NODES_PER_RULE, MAX_RULE_PROPERTIES_PER_RULE,
};
use crate::rules::lexer::{token_error, token_views, tokenize, tokenize_spec, TokenView};
use crate::rules::regex_matcher::{matcher_spec, matcher_view, parse_matcher, MatcherView};
use crate::rules::snapshot::Rule;
use crate::rules::transforms::is_err;
use crate::text::{append_str, lit, str_eq, utf8_byte_len, utf8_len};
use vstd::prelude::*;

verus! {

/// Why a rule line is refused: the diagnostic category, the model error, and the byte span of
/// the offending token where there is one.
#[derive(Debug)]
pub struct ParseRuleError {
    pub code: RuleErrorCode,
    pub source: RuleModelError,
    pub span: Option<(usize, usize)>,
}

/// What a rule has gathered so far: its actions and conditions, the condition nodes counted,
/// its flags and tags, and the properties seen.
pub struct RuleAcc {
    pub actions: Seq<Action>,
    pub conditions: Seq<Condition>,
    pub nodes: int,
    pub important: bool,
    pub disabled: bool,
    pub tags: Seq<Seq<char>>,
    pub properties: int,
}

/// The rule's fixed parts: group, line, source text, and matcher.
pub type RuleHead = (Seq<char>, usize, Seq<char>, MatcherView);

/// `r` is the refusal with category `code`, error `id`, and no span.
pub open spec fn refused(r: Result<Rule, ParseRuleError>, code: RuleErrorCode, id: (ModelErrorKind, &'static str)) -> bool {
    r matches Err(pe) && pe.code == code && is_err(pe.source, id) && pe.span is None
}

/// The span of a token.
pub open spec fn token_span(t: TokenView) -> Option<(usize, usize)> {
    Some((t.1 as usize, t.2 as usize))
}

/// A parsed condition `x` of the text `t`, for a `chance` that gives the same outcome for the
/// same text.
#[verifier::opaque]
pub open spec fn condition_outcome<C: Fn(&str) -> Result<u16, RuleModelError>>(
    t: Seq<char>,
    profile: SyntaxProfile,
    chance: C,
    x: Result<Condition, RuleModelError>,
) -> bool {
    chance_deterministic(chance) ==> match (x, condition_spec(t, 0, profile, chance)) {
        (Ok(c), Ok(v)) => cond_matches(c, v),
        (Err(e), Err(f)) => condition_error(e, f),
        _ => false,
    }
}

/// The rule once every token is read: refused without actions, otherwise the rule with the
/// head and what was gathered.
pub open spec fn rule_finish(head: RuleHead, acc: RuleAcc, r: Result<Rule, ParseRuleError>) -> bool {
    if acc.actions.len() == 0 {
        refused(r, RuleErrorCode::Action, (ModelErrorKind::MissingArgument, "rule action"))
    } else {
        r matches Ok(rule) && rule.group@ == head.0 && rule.line == head.1 && rule.raw@ == head.2
            && matcher_view(rule.matcher) == head.3 && rule.actions@ == acc.actions && rule.conditions@
            == acc.conditions && rule.important == acc.important && rule.disabled == acc.disabled
            && texts(rule.tags@) == acc.tags
    }
}

/// A property token `t`: `@important`, `@disabled`, or `@tag:NAME` with a non-empty name;
/// anything else is unsupported. The property limit applies first.
pub open spec fn property_step(t: Seq<char>, acc: RuleAcc) -> Result<RuleAcc, (ModelErrorKind, &'static str)> {
    if acc.properties + 1 > MAX_RULE_PROPERTIES_PER_RULE {
        Err((ModelErrorKind::LimitExceeded, "property count"))
    } else {
        let acc1 = RuleAcc { properties: acc.properties + 1, ..acc };
        match property_in(property_spellings(), t) {
            Some((c, rest)) => if c == "@important"@ {
                Ok(RuleAcc { important: true, ..acc1 })
            } else if c == "@disabled"@ {
                Ok(RuleAcc { disabled: true, ..acc1 })
            } else if c == "@tag:"@ {
                if rest.len() == 0 {
                    Err((ModelErrorKind::MissingArgument, "rule tag"))
                } else {
                    Ok(RuleAcc { tags: acc1.tags.push(rest), ..acc1 })
                }
            } else {
                Err((ModelErrorKind::UnsupportedInput, "rule property"))
            },
            None => Err((ModelErrorKind::UnsupportedInput, "rule property")),
        }
    }
}

/// Reading the tokens of a rule from position `i` on: `when` and the next token as a
/// condition (the node limit applies), a token starting with `@` as a property, any other
/// token as an action (the action limit applies first).
pub open spec fn rule_run<
    D: Fn(&str) -> Result<u64, RuleModelError>,
    S: Fn(&str) -> Result<u64, RuleModelError>,
    R: Fn(&HeaderOp) -> Result<(), RuleModelError>,
    T: Fn(String) -> RuleModelError,
    V: Fn(&Action) -> Result<(), RuleModelError>,
    C: Fn(&str) -> Result<u16, RuleModelError>,
>(
    toks: Seq<TokenView>,
    i: int,
    acc: RuleAcc,
    head: RuleHead,
    profile: SyntaxProfile,
    duration: D,
    speed: S,
    trailer: R,
    tls_error: T,
    templates: V,
    chance: C,
    r: Result<Rule, ParseRuleError>,
) -> bool
    decreases toks.len() - i,
{
    if i >= toks.len() || i < 0 {
        rule_finish(head, acc, r)
    } else {
        let t = toks[i].0;
        if t == "when"@ {
            if i + 1 >= toks.len() {
                refused(r, RuleErrorCode::Condition, (ModelErrorKind::MissingArgument, "when property"))
            } else {
                let ct = toks[i + 1];
                exists|x: Result<Condition, RuleModelError>|
                    #[trigger] condition_outcome(ct.0, profile, chance, x) && match x {
                        Err(e) => r == Err::<Rule, ParseRuleError>(
                            ParseRuleError { code: RuleErrorCode::Condition, source: e, span: token_span(ct) },
                        ),
                        Ok(c) => {
                            let nodes = acc.nodes + node_count(c);
                            if nodes > MAX_RULE_CONDITION_NODES_PER_RULE {
                                refused(r, RuleErrorCode::Condition, (ModelErrorKind::LimitExceeded, "condition count"))
                            } else {
                                rule_run(
                                    toks,
                                    i + 2,
                                    RuleAcc { conditions: acc.conditions.push(c), nodes, ..acc },
                                    head,
                                    profile,
                                    duration,
                                    speed,
                                    trailer,
                                    tls_error,
                                    templates,
                                    chance,
                                    r,
                                )
                            }
                        },
                    }
            }
        } else if t.len() > 0 && t[0] == '@' {
            match property_step(t, acc) {
                Err(id) => refused(r, RuleErrorCode::Property, id),
                Ok(acc2) => rule_run(
                    toks,
                    i + 1,
                    acc2,
                    head,
                    profile,
                    duration,
                    speed,
                    trailer,
                    tls_error,
                    templates,
                    chance,
                    r,
                ),
            }
        } else if acc.actions.len() == MAX_RULE_ACTIONS_PER_RULE {
            refused(r, RuleErrorCode::Action, (ModelErrorKind::LimitExceeded, "action count"))
        } else {
            exists|x: Result<Action, RuleModelError>|
                #[trigger] action_result(t, profile, duration, speed, trailer, tls_error, templates, x) && match x {
                    Err(e) => r == Err::<Rule, ParseRuleError>(
                        ParseRuleError { code: RuleErrorCode::Action, source: e, span: token_span(toks[i]) },
                    ),
                    Ok(a) => rule_run(
                        toks,
                        i + 1,
                        RuleAcc { actions: acc.actions.push(a), ..acc },
                        head,
                        profile,
                        duration,
                        speed,
                        trailer,
                        tls_error,
                        templates,
                        chance,
                        r,
                    ),
                }
        }
    }
}

/// What a rule line is: its tokens, refused as a syntax error spanning the line where they do
/// not split or none are found; the first token as the URL matcher; then the remaining tokens
/// read in order.
pub open spec fn rule_result<
    D: Fn(&str) -> Result<u64, RuleModelError>,
    S: Fn(&str) -> Result<u64, RuleModelError>,
    R: Fn(&HeaderOp) -> Result<(), RuleModelError>,
    T: Fn(String) -> RuleModelError,
    V: Fn(&Action) -> Result<(), RuleModelError>,
    C: Fn(&str) -> Result<u16, RuleModelError>,
>(
    group: Seq<char>,
    line: usize,
    input: Seq<char>,
    profile: SyntaxProfile,
    duration: D,
    speed: S,
    trailer: R,
    tls_error: T,
    templates: V,
    chance: C,
    r: Result<Rule, ParseRuleError>,
) -> bool {
    match tokenize_spec(input) {
        Err(f) => r matches Err(pe) && pe.code == RuleErrorCode::Syntax && token_error(pe.source, f) && pe.span
            == Some((0usize, utf8_len(input) as usize)),
        Ok(toks) => if toks.len() == 0 {
            refused(r, RuleErrorCode::Syntax, (ModelErrorKind::EmptyInput, "rule"))
        } else {
            match matcher_spec(toks[0].0) {
                Err(id) => r matches Err(pe) && pe.code == RuleErrorCode::Matcher && is_err(pe.source, id)
                    && pe.span == token_span(toks[0]),
                Ok(mv) => rule_run(
                    toks,
                    1,
                    RuleAcc {
                        actions: seq![],
                        conditions: seq![],
                        nodes: 0,
                        important: false,
                        disabled: false,
                        tags: seq![],
                        properties: 0,
                    },
                    (group, line, input, mv),
                    profile,
                    duration,
                    speed,
                    trailer,
                    tls_error,
                    templates,
                    chance,
                    r,
                ),
            }
        },
    }
}

/// What the rule has gathered, from the values the parser holds.
pub open spec fn acc_of(
    actions: Seq<Action>,
    conditions: Seq<Condition>,
    nodes: usize,
    important: bool,
    disabled: bool,
    tags: Seq<String>,
    properties: usize,
) -> RuleAcc {
    RuleAcc {
        actions,
        conditions,
        nodes: nodes as int,
        important,
        disabled,
        tags: texts(tags),
        properties: properties as int,
    }
}

fn refusal(code: RuleErrorCode, source: RuleModelError) -> (r: ParseRuleError)
    ensures
        r.code == code,
        r.source == source,
        r.span is None,
{
    ParseRuleError { code, source, span: None }
}

/// What the parser has gathered of a rule so far.
struct Gathered {
    actions: Vec<Action>,
    conditions: Vec<Condition>,
    nodes: usize,
    important: bool,
    disabled: bool,
    tags: Vec<String>,
    properties: usize,
}

impl Gathered {
    spec fn acc(&self) -> RuleAcc {
        acc_of(self.actions@, self.conditions@, self.nodes, self.important, self.disabled, self.tags@, self.properties)
    }

    spec fn bounded(&self) -> bool {
        &&& self.nodes <= MAX_RULE_CONDITION_NODES_PER_RULE
        &&& self.properties <= MAX_RULE_PROPERTIES_PER_RULE
        &&& self.actions@.len() <= MAX_RULE_ACTIONS_PER_RULE
    }
}

/// Reads the `when` condition at token `idx + 1`.
fn when_step<
    D: Fn(&str) -> Result<u64, RuleModelError>,
    S: Fn(&str) -> Result<u64, RuleModelError>,
    R: Fn(&HeaderOp) -> Result<(), RuleModelError>,
    T: Fn(String) -> RuleModelError,
    V: Fn(&Action) -> Result<(), RuleModelError>,
    C: Fn(&str) -> Result<u16, RuleModelError>,
>(
    tokens: &Vec<crate::rules::lexer::RuleToken>,
    idx: usize,
    st: &mut Gathered,
    head: Ghost<RuleHead>,
    profile: SyntaxProfile,
    duration: &D,
    speed: &S,
    trailer: &R,
    tls_error: &T,
    templates: &V,
    chance: &C,
) -> (res: Result<(), ParseRuleError>)
    requires
        1 <= idx < tokens@.len(),
        token_views(tokens@)[idx as int].0 == "when"@,
        old(st).bounded(),
        forall|t: &str| #[trigger] call_requires(*duration, (t,)),
        forall|t: &str| #[trigger] call_requires(*speed, (t,)),
        forall|op: &HeaderOp| #[trigger] call_requires(*trailer, (op,)),
        forall|m: String| #[trigger] call_requires(*tls_error, (m,)),
        forall|a: &Action| #[trigger] call_requires(*templates, (a,)),
        forall|t: &str| #[trigger] call_requires(*chance, (t,)),
    ensures
        final(st).bounded(),
        ({
            let toks = token_views(tokens@);
            let head = head@;
            match res {
                Ok(()) => idx + 2 <= tokens@.len() && forall|r: Result<Rule, ParseRuleError>|
                    #[trigger] rule_run(toks, idx + 2, final(st).acc(), head, profile, *duration, *speed, *trailer, *tls_error, *templates, *chance, r) ==> rule_run(toks, idx as int, old(st).acc(), head, profile, *duration, *speed, *trailer, *tls_error, *templates, *chance, r),
                Err(pe) => rule_run(toks, idx as int, old(st).acc(), head, profile, *duration, *speed, *trailer, *tls_error, *templates, *chance, Err::<Rule, ParseRuleError>(pe)),
            }
        }),
{
    let ghost toks = token_views(tokens@);
    let ghost acc = st.acc();
    let ghost i = idx as int;
    if idx >= tokens.len() - 1 {
        let pe = refusal(
            RuleErrorCode::Condition,
            RuleModelError::MissingArgument { context: "when property", message: lit("`when` must be followed by a condition") },
        );
        return Err(pe);
    }
    assert(toks[i + 1] == tokens@[i + 1]@);
    let x = parse_condition(tokens[idx + 1].text.as_str(), profile, chance);
    assert(condition_outcome(toks[i + 1].0, profile, *chance, x)) by {
        reveal(condition_outcome);
    }
    match x {
        Err(e) => Err(ParseRuleError { code: RuleErrorCode::Condition, source: e, span: Some((tokens[idx + 1].start, tokens[idx + 1].end)) }),
        Ok(c) => {
            let n = condition_nodes_upto(&c, MAX_RULE_CONDITION_NODES_PER_RULE);
            if n > MAX_RULE_CONDITION_NODES_PER_RULE - st.nodes {
                return Err(refusal(
                    RuleErrorCode::Condition,
                    RuleModelError::LimitExceeded { context: "condition count", message: lit("rule exceeds the 256-condition-node limit") },
                ));
            }
            let ghost cv = c;
            st.nodes = st.nodes + n;
            st.conditions.push(c);
            proof {
                assert(st.acc() == RuleAcc { conditions: acc.conditions.push(cv), nodes: acc.nodes + node_count(cv), ..acc });
            }
            Ok(())
        },
    }
}

/// Reads the property at token `idx`.
fn property_step_exec(tokens: &Vec<crate::rules::lexer::RuleToken>, idx: usize, st: &mut Gathered) -> (res: Result<(), ParseRuleError>)
    requires
        1 <= idx < tokens@.len(),
        old(st).bounded(),
    ensures
        final(st).bounded(),
        match (res, property_step(token_views(tokens@)[idx as int].0, old(st).acc())) {
            (Ok(()), Ok(a)) => final(st).acc() == a,
            (Err(pe), Err(id)) => refused(Err::<Rule, ParseRuleError>(pe), RuleErrorCode::Property, id),
            _ => false,
        },
{
    let ghost acc = st.acc();
    assert(token_views(tokens@)[idx as int] == tokens@[idx as int]@);
    let text = tokens[idx].text.as_str();
    if st.properties == MAX_RULE_PROPERTIES_PER_RULE {
        return Err(refusal(
            RuleErrorCode::Property,
            RuleModelError::LimitExceeded { context: "property count", message: lit("rule exceeds the 64-property limit") },
        ));
    }
    match canonical_property(text) {
        Some((c, rest)) => {
            if str_eq(c, "@important") {
                st.properties = st.properties + 1;
                st.important = true;
            } else if str_eq(c, "@disabled") {
                st.properties = st.properties + 1;
                st.disabled = true;
            } else if str_eq(c, "@tag:") {
                if rest.as_str().is_empty() {
                    return Err(refusal(
                        RuleErrorCode::Property,
                        RuleModelError::MissingArgument { context: "rule tag", message: lit("@tag: requires a non-empty name") },
                    ));
                }
                st.properties = st.properties + 1;
                let ghost before = st.tags@;
                st.tags.push(rest);
                assert(texts(st.tags@) =~= texts(before).push(st.tags@.last()@));
            } else {
                return Err(unknown_property(text));
            }
        },
        None => {
            return Err(unknown_property(text));
        },
    }
    Ok(())
}

/// Reads the action at token `idx`.
fn action_step<
    D: Fn(&str) -> Result<u64, RuleModelError>,
    S: Fn(&str) -> Result<u64, RuleModelError>,
    R: Fn(&HeaderOp) -> Result<(), RuleModelError>,
    T: Fn(String) -> RuleModelError,
    V: Fn(&Action) -> Result<(), RuleModelError>,
    C: Fn(&str) -> Result<u16, RuleModelError>,
>(
    tokens: &Vec<crate::rules::lexer::RuleToken>,
    idx: usize,
    st: &mut Gathered,
    head: Ghost<RuleHead>,
    profile: SyntaxProfile,
    duration: &D,
    speed: &S,
    trailer: &R,
    tls_error: &T,
    templates: &V,
    chance: &C,
) -> (res: Result<(), ParseRuleError>)
    requires
        1 <= idx < tokens@.len(),
        token_views(tokens@)[idx as int].0 != "when"@,
        !(token_views(tokens@)[idx as int].0.len() > 0 && token_views(tokens@)[idx as int].0[0] == '@'),
        old(st).bounded(),
        forall|t: &str| #[trigger] call_requires(*duration, (t,)),
        forall|t: &str| #[trigger] call_requires(*speed, (t,)),
        forall|op: &HeaderOp| #[trigger] call_requires(*trailer, (op,)),
        forall|m: String| #[trigger] call_requires(*tls_error, (m,)),
        forall|a: &Action| #[trigger] call_requires(*templates, (a,)),
        forall|t: &str| #[trigger] call_requires(*chance, (t,)),
    ensures
        final(st).bounded(),
        ({
            let toks = token_views(tokens@);
            let head = head@;
            match res {
                Ok(()) => forall|r: Result<Rule, ParseRuleError>|
                    #[trigger] rule_run(toks, idx + 1, final(st).acc(), head, profile, *duration, *speed, *trailer, *tls_error, *templates, *chance, r) ==> rule_run(toks, idx as int, old(st).acc(), head, profile, *duration, *speed, *trailer, *tls_error, *templates, *chance, r),
                Err(pe) => rule_run(toks, idx as int, old(st).acc(), head, profile, *duration, *speed, *trailer, *tls_error, *templates, *chance, Err::<Rule, ParseRuleError>(pe)),
            }
        }),
{
    let ghost toks = token_views(tokens@);
    let ghost acc = st.acc();
    let ghost i = idx as int;
    assert(toks[i] == tokens@[i]@);
    if st.actions.len() == MAX_RULE_ACTIONS_PER_RULE {
        return Err(refusal(
            RuleErrorCode::Action,
            RuleModelError::LimitExceeded { context: "action count", message: lit("rule exceeds the 256-action limit") },
        ));
    }
    let x = parse_action(tokens[idx].text.as_str(), profile, duration, speed, trailer, tls_error, templates);
    assert(action_result(toks[i].0, profile, *duration, *speed, *trailer, *tls_error, *templates, x));
    match x {
        Err(e) => Err(ParseRuleError { code: RuleErrorCode::Action, source: e, span: Some((tokens[idx].start, tokens[idx].end)) }),
        Ok(a) => {
            let ghost av = a;
            st.actions.push(a);
            proof {
                assert(st.acc() == RuleAcc { actions: acc.actions.push(av), ..acc });
            }
            Ok(())
        },
    }
}

/// Parses one rule line of `group` at one-based `line` under `profile`. The action hooks are
/// those of [`parse_action`]; `chance` is that of [`parse_condition`], and the conditions
/// gathered are stated for a `chance` that gives the same outcome for the same text.
pub fn parse_rule<
    D: Fn(&str) -> Result<u64, RuleModelError>,
    S: Fn(&str) -> Result<u64, RuleModelError>,
    R: Fn(&HeaderOp) -> Result<(), RuleModelError>,
    T: Fn(String) -> RuleModelError,
    V: Fn(&Action) -> Result<(), RuleModelError>,
    C: Fn(&str) -> Result<u16, RuleModelError>,
>(
    group: &str,
    line: usize,
    input: &str,
    profile: SyntaxProfile,
    duration: &D,
    speed: &S,
    trailer: &R,
    tls_error: &T,
    templates: &V,
    chance: &C,
) -> (r: Result<Rule, ParseRuleError>)
    requires
        forall|t: &str| #[trigger] call_requires(*duration, (t,)),
        forall|t: &str| #[trigger] call_requires(*speed, (t,)),
        forall|op: &HeaderOp| #[trigger] call_requires(*trailer, (op,)),
        forall|m: String| #[trigger] call_requires(*tls_error, (m,)),
        forall|a: &Action| #[trigger] call_requires(*templates, (a,)),
        forall|t: &str| #[trigger] call_requires(*chance, (t,)),
    ensures
        rule_result(group@, line, input@, profile, *duration, *speed, *trailer, *tls_error, *templates, *chance, r),
{
    let tokens = match tokenize(input) {
        Ok(t) => t,
        Err(e) => {
            return Err(ParseRuleError { code: RuleErrorCode::Syntax, source: e, span: Some((0, utf8_byte_len(input))) });
        },
    };
    let ghost toks = token_views(tokens@);
    if tokens.len() == 0 {
        return Err(refusal(RuleErrorCode::Syntax, RuleModelError::EmptyInput { context: "rule", message: lit("empty rule") }));
    }
    assert(toks[0] == tokens@[0]@);
    let matcher = match parse_matcher(tokens[0].text.as_str()) {
        Ok(m) => m,
        Err(e) => {
            return Err(ParseRuleError { code: RuleErrorCode::Matcher, source: e, span: Some((tokens[0].start, tokens[0].end)) });
        },
    };
    let ghost head: RuleHead = (group@, line, input@, matcher_view(matcher));
    let mut st = Gathered {
        actions: Vec::new(),
        conditions: Vec::new(),
        nodes: 0,
        important: false,
        disabled: false,
        tags: Vec::new(),
        properties: 0,
    };
    assert(texts(st.tags@) =~= Seq::<Seq<char>>::empty());
    assert(st.actions@ =~= Seq::<Action>::empty());
    assert(st.conditions@ =~= Seq::<Condition>::empty());
    let mut idx: usize = 1;
    while idx < tokens.len()
        invariant
            1 <= idx <= tokens@.len(),
            toks == token_views(tokens@),
            head == (group@, line, input@, matcher_view(matcher)),
            st.bounded(),
            forall|t: &str| #[trigger] call_requires(*duration, (t,)),
            forall|t: &str| #[trigger] call_requires(*speed, (t,)),
            forall|op: &HeaderOp| #[trigger] call_requires(*trailer, (op,)),
            forall|m: String| #[trigger] call_requires(*tls_error, (m,)),
            forall|a: &Action| #[trigger] call_requires(*templates, (a,)),
            forall|t: &str| #[trigger] call_requires(*chance, (t,)),
                forall|r: Result<Rule, ParseRuleError>|
                #[trigger] rule_run(toks, idx as int, st.acc(), head, profile, *duration, *speed, *trailer, *tls_error, *templates, *chance, r) ==> rule_result(group@, line, input@, profile, *duration, *speed, *trailer, *tls_error, *templates, *chance, r),
        decreases tokens@.len() - idx,
    {
        let ghost acc = st.acc();
        let ghost i = idx as int;
        assert(toks[i] == tokens@[i]@);
        let text = tokens[idx].text.as_str();
        if str_eq(text, "when") {
            match when_step(&tokens, idx, &mut st, Ghost(head), profile, duration, speed, trailer, tls_error, templates, chance) {
                Ok(()) => {
                    idx = idx + 2;
                },
                Err(pe) => {
                    return Err(pe);
                },
            }
        } else if text_starts_with_at(text) {
            match property_step_exec(&tokens, idx, &mut st) {
                Ok(()) => {
                    proof {
                        assert forall|r: Result<Rule, ParseRuleError>|
                            #[trigger] rule_run(toks, i + 1, st.acc(), head, profile, *duration, *speed, *trailer, *tls_error, *templates, *chance, r) implies rule_result(group@, line, input@, profile, *duration, *speed, *trailer, *tls_error, *templates, *chance, r) by {
                            assert(rule_run(toks, i, acc, head, profile, *duration, *speed, *trailer, *tls_error, *templates, *chance, r));
                        }
                    }
                    idx = idx + 1;
                },
                Err(pe) => {
                    assert(rule_run(toks, i, acc, head, profile, *duration, *speed, *trailer, *tls_error, *templates, *chance, Err::<Rule, ParseRuleError>(pe)));
                    return Err(pe);
                },
            }
        } else {
            match action_step(&tokens, idx, &mut st, Ghost(head), profile, duration, speed, trailer, tls_error, templates, chance) {
                Ok(()) => {
                    idx = idx + 1;
                },
                Err(pe) => {
                    return Err(pe);
                },
            }
        }
    }
    let ghost acc = st.acc();
    if st.actions.len() == 0 {
        let r = Err(refusal(
            RuleErrorCode::Action,
            RuleModelError::MissingArgument { context: "rule action", message: lit("rule must include at least one action") },
        ));
        assert(rule_run(toks, idx as int, acc, head, profile, *duration, *speed, *trailer, *tls_error, *templates, *chance, r));
        return r;
    }
    let Gathered { actions, conditions, nodes: _, important, disabled, tags, properties: _ } = st;
    let r = Ok(Rule { group: lit(group), line, raw: lit(input), matcher, actions, conditions, important, disabled, tags });
    assert(rule_run(toks, idx as int, acc, head, profile, *duration, *speed, *trailer, *tls_error, *templates, *chance, r));
    r
}

fn text_starts_with_at(text: &str) -> (r: bool)
    ensures
        r == (text@.len() > 0 && text@[0] == '@'),
{
    let cs = crate::text::chars_of(text);
    cs.len() > 0 && cs[0] == '@'
}

fn unknown_property(text: &str) -> (e: ParseRuleError)
    ensures
        e.code == RuleErrorCode::Property,
        is_err(e.source, (ModelErrorKind::UnsupportedInput, "rule property")),
        e.span is None,
{
    let mut message = lit("unknown property ");
    append_str(&mut message, text);
    refusal(RuleErrorCode::Property, RuleModelError::UnsupportedInput { context: "rule property", message })
}

} // verus!
