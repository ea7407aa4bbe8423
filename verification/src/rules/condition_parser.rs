//! Parsing `when` conditions: negation with `!`, the named condition calls, and the nesting of
//! `any`, `all` and `not` under the parse nesting limit.
//!
//! A `chance(p)` condition holds a probability written as a decimal number; turning that text
//! into thousandths is the caller's conversion, handed in as a function, so the parser itself
//! stays over text and integers.
use crate::rules::condition::{
    body_condition_spec, header_condition_spec, ip_patterns_spec, parse_body_condition,
    parse_header_condition, parse_ip_patterns, parse_url_condition, url_condition_spec,
    url_condition_view, BodyConditionView, Condition, UrlConditionView,
};
use crate::rules::conditions::{
    env_name_ok, methods_spec, parse_method_condition, parse_status_condition, statuses_spec,
    validate_env_name,
};
use crate::rules::error::{ModelErrorKind, RuleModelError};
use crate::rules::glob::{glob_pattern_error, validate_glob_pattern};
use crate::rules::index::texts;
use crate::rules::language::{
    canonical_condition_name, canonical_in, canonical_v3_condition_name, canonical_v3_in,
    condition_spellings, MAX_RULE_PARSE_NESTING,
};
use crate::rules::regex_matcher::{regex_matcher_view, RegexMatcherView};
use crate::rules::rewrites::arg_texts;
use crate::rules::syntax::{
    call_error, parse_call, parse_call_spec, require_one, require_one_spec, unquote, unquote_spec,
    CallFailure,
};
use crate::rules::transforms::{is_err, ErrId};
use crate::text::{
    append_str, chars_of, lit, slice_vec, split_once, split_once_exec, str_eq, string_of, trim,
    trim_chars, trim_str,
};
use vstd::prelude::*;

verus! {

/// Which spellings a source may use.
#[derive(Clone, Copy, Debug, PartialEq, Eq, Structural)]
pub enum SyntaxProfile {
    /// Headerless, programmatic sources retain v2 aliases for API compatibility.
    Compatible,
    /// Versioned v3 sources accept canonical spellings only.
    CanonicalV3,
}

/// A condition as plain data.
pub enum ConditionView {
    Method(Seq<Seq<char>>),
    Host(Seq<char>),
    Url(UrlConditionView),
    ClientIp(Seq<Seq<char>>),
    ServerIp(Seq<Seq<char>>),
    HeaderPresent(Seq<char>),
    HeaderContains(Seq<char>, Seq<char>),
    ResHeaderPresent(Seq<char>),
    ResHeaderContains(Seq<char>, Seq<char>),
    BodyContains(Seq<char>),
    BodyRegex(RegexMatcherView),
    Status(Seq<u16>),
    Chance(u16),
    EnvPresent(Seq<char>),
    EnvEquals(Seq<char>, Seq<char>),
    Any(Seq<ConditionView>),
    All(Seq<ConditionView>),
    Not(Box<ConditionView>),
}

/// Whether condition `c` is the plain data `v`.
pub open spec fn cond_matches(c: Condition, v: ConditionView) -> bool
    decreases c,
{
    match (c, v) {
        (Condition::Method(m), ConditionView::Method(w)) => texts(m@) == w,
        (Condition::Host(h), ConditionView::Host(w)) => h@ == w,
        (Condition::Url(u), ConditionView::Url(w)) => url_condition_view(u) == w,
        (Condition::ClientIp(m), ConditionView::ClientIp(w)) => texts(m@) == w,
        (Condition::ServerIp(m), ConditionView::ServerIp(w)) => texts(m@) == w,
        (Condition::HeaderPresent(n), ConditionView::HeaderPresent(w)) => n@ == w,
        (Condition::HeaderContains { name, value }, ConditionView::HeaderContains(a, b)) => name@ == a
            && value@ == b,
        (Condition::ResHeaderPresent(n), ConditionView::ResHeaderPresent(w)) => n@ == w,
        (Condition::ResHeaderContains { name, value }, ConditionView::ResHeaderContains(a, b)) => name@
            == a && value@ == b,
        (Condition::BodyContains(t), ConditionView::BodyContains(w)) => t@ == w,
        (Condition::BodyRegex(m), ConditionView::BodyRegex(w)) => regex_matcher_view(m) == w,
        (Condition::Status(s), ConditionView::Status(w)) => s@ == w,
        (Condition::ChancePermille(p), ConditionView::Chance(q)) => p == q,
        (Condition::EnvPresent(n), ConditionView::EnvPresent(w)) => n@ == w,
        (Condition::EnvEquals { name, value }, ConditionView::EnvEquals(a, b)) => name@ == a && value@
            == b,
        (Condition::Any(cs), ConditionView::Any(ws)) => conds_match(cs@, ws),
        (Condition::All(cs), ConditionView::All(ws)) => conds_match(cs@, ws),
        (Condition::Not(inner), ConditionView::Not(w)) => cond_matches(*inner, *w),
        _ => false,
    }
}

/// Whether the conditions `cs` are, one for one, the plain data `ws`.
pub open spec fn conds_match(cs: Seq<Condition>, ws: Seq<ConditionView>) -> bool
    decreases cs,
{
    if cs.len() == 0 {
        ws.len() == 0
    } else {
        ws.len() == cs.len() && conds_match(cs.drop_last(), ws.drop_last()) && cond_matches(
            cs.last(),
            ws.last(),
        )
    }
}

/// Why a condition is refused: its call syntax, or an error identified by kind and context.
pub enum ConditionFailure {
    Call(CallFailure),
    Id(ErrId),
}

/// The error reported for a condition failure.
pub open spec fn condition_error(e: RuleModelError, f: ConditionFailure) -> bool {
    match f {
        ConditionFailure::Call(c) => call_error(e, c),
        ConditionFailure::Id(id) => is_err(e, id),
    }
}

/// A chance conversion's outcome, its error taken by kind and context.
pub open spec fn outcome_id(r: Result<u16, RuleModelError>) -> Result<u16, ErrId> {
    match r {
        Ok(p) => Ok(p),
        Err(e) => Err((e.kind(), e.context_spec())),
    }
}

/// Whether a chance conversion gives the same outcome for the same text.
pub open spec fn chance_deterministic<F: Fn(&str) -> Result<u16, RuleModelError>>(chance: F) -> bool {
    forall|a: &str, b: &str, x: Result<u16, RuleModelError>, y: Result<u16, RuleModelError>|
        #![trigger call_ensures(chance, (a,), x), call_ensures(chance, (b,), y)]
        a@ == b@ && call_ensures(chance, (a,), x) && call_ensures(chance, (b,), y) ==> outcome_id(x)
            == outcome_id(y)
}

/// What the chance conversion gives for `raw`.
pub open spec fn chance_outcome<F: Fn(&str) -> Result<u16, RuleModelError>>(chance: F, raw: Seq<char>) -> Result<
    u16,
    ErrId,
> {
    outcome_id(
        (choose|t: &str, r: Result<u16, RuleModelError>| t@ == raw && #[trigger] call_ensures(
            chance,
            (t,),
            r,
        )).1,
    )
}

/// The single non-blank argument, or the missing-argument error.
pub open spec fn one_arg(args: Seq<Seq<char>>) -> Result<Seq<char>, ConditionFailure> {
    match require_one_spec(args) {
        Some(a) => Ok(a),
        None => Err(ConditionFailure::Id((ModelErrorKind::MissingArgument, "action argument"))),
    }
}

/// An environment condition's argument: `name = value` tests equality, a bare name presence;
/// the name must be non-empty without `=`, NUL or whitespace.
pub open spec fn env_condition_spec(a: Seq<char>) -> Result<ConditionView, ConditionFailure> {
    let bad = ConditionFailure::Id((ModelErrorKind::InvalidInput, "environment condition name"));
    match split_once(a, '=') {
        Some((n, v)) => if env_name_ok(trim(n)) {
            Ok(ConditionView::EnvEquals(trim(n), unquote_spec(trim(v))))
        } else {
            Err(bad)
        },
        None => if env_name_ok(trim(a)) {
            Ok(ConditionView::EnvPresent(trim(a)))
        } else {
            Err(bad)
        },
    }
}

/// What a condition text is at nesting `depth`: past the nesting limit an error; a leading
/// `!` negates the rest, one level deeper; otherwise a call whose name, under `profile`, is an
/// accepted condition spelling, with the arguments that condition takes. `any`, `all` and
/// `not` parse their arguments (trimmed) one level deeper; `chance` hands its argument to the
/// chance conversion.
pub open spec fn condition_spec<F: Fn(&str) -> Result<u16, RuleModelError>>(
    s: Seq<char>,
    depth: int,
    profile: SyntaxProfile,
    chance: F,
) -> Result<ConditionView, ConditionFailure>
    decreases MAX_RULE_PARSE_NESTING + 1 - depth, 2int,
{
    if depth > MAX_RULE_PARSE_NESTING {
        Err(ConditionFailure::Id((ModelErrorKind::LimitExceeded, "condition nesting")))
    } else if s.len() > 0 && s[0] == '!' {
        match condition_spec(s.drop_first(), depth + 1, profile, chance) {
            Ok(v) => Ok(ConditionView::Not(Box::new(v))),
            Err(f) => Err(f),
        }
    } else {
        match parse_call_spec(s) {
            Err(f) => Err(ConditionFailure::Call(f)),
            Ok((input_name, args)) => {
                let name = match profile {
                    SyntaxProfile::Compatible => canonical_in(condition_spellings(), input_name),
                    SyntaxProfile::CanonicalV3 => canonical_v3_in(condition_spellings(), input_name),
                };
                match name {
                    None => Err(ConditionFailure::Id((ModelErrorKind::UnsupportedInput, "condition"))),
                    Some(n) => named_condition_spec(n, args, depth, profile, chance),
                }
            },
        }
    }
}

/// What the named condition `n` with arguments `args` is at nesting `depth`.
pub open spec fn named_condition_spec<F: Fn(&str) -> Result<u16, RuleModelError>>(
    n: Seq<char>,
    args: Seq<Seq<char>>,
    depth: int,
    profile: SyntaxProfile,
    chance: F,
) -> Result<ConditionView, ConditionFailure>
    decreases MAX_RULE_PARSE_NESTING + 1 - depth, 1int,
{
    if depth > MAX_RULE_PARSE_NESTING {
        Err(ConditionFailure::Id((ModelErrorKind::LimitExceeded, "condition nesting")))
    } else if n == "any"@ || n == "all"@ {
        if args.len() == 0 {
            Err(
                ConditionFailure::Id(
                    (
                        ModelErrorKind::MissingArgument,
                        if n == "any"@ {
                            "any condition"
                        } else {
                            "all condition"
                        },
                    ),
                ),
            )
        } else {
            match conditions_spec(args, args.len() as int, depth + 1, profile, chance) {
                Ok(vs) => if n == "any"@ {
                    Ok(ConditionView::Any(vs))
                } else {
                    Ok(ConditionView::All(vs))
                },
                Err(f) => Err(f),
            }
        }
    } else if n == "not"@ {
        match one_arg(args) {
            Err(f) => Err(f),
            Ok(a) => match condition_spec(a, depth + 1, profile, chance) {
                Ok(v) => Ok(ConditionView::Not(Box::new(v))),
                Err(f) => Err(f),
            },
        }
    } else {
        leaf_condition_spec(n, args, chance)
    }
}

/// What a condition that nests no other condition is: `method`, `host`, `url`, the IP
/// conditions, the header conditions, `body`, `status`, `chance` and `env`; any other name is
/// unsupported.
pub open spec fn leaf_condition_spec<F: Fn(&str) -> Result<u16, RuleModelError>>(
    n: Seq<char>,
    args: Seq<Seq<char>>,
    chance: F,
) -> Result<ConditionView, ConditionFailure> {
    if n == "method"@ {
        match methods_spec(args) {
            Ok(m) => Ok(ConditionView::Method(m)),
            Err(id) => Err(ConditionFailure::Id(id)),
        }
    } else if n == "host"@ {
        match one_arg(args) {
            Err(f) => Err(f),
            Ok(a) => match glob_pattern_error(unquote_spec(a), '.', "host condition glob") {
                Some(id) => Err(ConditionFailure::Id(id)),
                None => Ok(ConditionView::Host(unquote_spec(a))),
            },
        }
    } else if n == "url"@ {
        match one_arg(args) {
            Err(f) => Err(f),
            Ok(a) => match url_condition_spec(a) {
                Ok(u) => Ok(ConditionView::Url(u)),
                Err(id) => Err(ConditionFailure::Id(id)),
            },
        }
    } else if n == "client.ip"@ {
        match ip_patterns_spec(args) {
            Ok(m) => Ok(ConditionView::ClientIp(m)),
            Err(id) => Err(ConditionFailure::Id(id)),
        }
    } else if n == "server.ip"@ {
        match ip_patterns_spec(args) {
            Ok(m) => Ok(ConditionView::ServerIp(m)),
            Err(id) => Err(ConditionFailure::Id(id)),
        }
    } else if n == "header"@ {
        match one_arg(args) {
            Err(f) => Err(f),
            Ok(a) => match header_condition_spec(a) {
                Ok((m, None)) => Ok(ConditionView::HeaderPresent(m)),
                Ok((m, Some(v))) => Ok(ConditionView::HeaderContains(m, v)),
                Err(id) => Err(ConditionFailure::Id(id)),
            },
        }
    } else if n == "res.header"@ {
        match one_arg(args) {
            Err(f) => Err(f),
            Ok(a) => match header_condition_spec(a) {
                Ok((m, None)) => Ok(ConditionView::ResHeaderPresent(m)),
                Ok((m, Some(v))) => Ok(ConditionView::ResHeaderContains(m, v)),
                Err(id) => Err(ConditionFailure::Id(id)),
            },
        }
    } else if n == "body"@ {
        match one_arg(args) {
            Err(f) => Err(f),
            Ok(a) => match body_condition_spec(a) {
                Ok(BodyConditionView::Contains(t)) => Ok(ConditionView::BodyContains(t)),
                Ok(BodyConditionView::Regex(m)) => Ok(ConditionView::BodyRegex(m)),
                Err(id) => Err(ConditionFailure::Id(id)),
            },
        }
    } else if n == "status"@ {
        match statuses_spec(args) {
            Ok(m) => Ok(ConditionView::Status(m)),
            Err(id) => Err(ConditionFailure::Id(id)),
        }
    } else if n == "chance"@ {
        match one_arg(args) {
            Err(f) => Err(f),
            Ok(a) => match chance_outcome(chance, a) {
                Ok(p) => Ok(ConditionView::Chance(p)),
                Err(id) => Err(ConditionFailure::Id(id)),
            },
        }
    } else if n == "env"@ {
        match one_arg(args) {
            Err(f) => Err(f),
            Ok(a) => env_condition_spec(a),
        }
    } else {
        Err(ConditionFailure::Id((ModelErrorKind::UnsupportedInput, "condition")))
    }
}


/// The first `n` arguments parsed (trimmed) as conditions at `depth`, in order; the first
/// refusal among them is the result.
pub open spec fn conditions_spec<F: Fn(&str) -> Result<u16, RuleModelError>>(
    args: Seq<Seq<char>>,
    n: int,
    depth: int,
    profile: SyntaxProfile,
    chance: F,
) -> Result<Seq<ConditionView>, ConditionFailure>
    decreases MAX_RULE_PARSE_NESTING + 1 - depth, n + 3,
{
    if n <= 0 {
        Ok(seq![])
    } else {
        match conditions_spec(args, n - 1, depth, profile, chance) {
            Err(f) => Err(f),
            Ok(vs) => match condition_spec(trim(args[n - 1]), depth, profile, chance) {
                Err(f) => Err(f),
                Ok(v) => Ok(vs.push(v)),
            },
        }
    }
}

proof fn lemma_conditions_fail<F: Fn(&str) -> Result<u16, RuleModelError>>(
    args: Seq<Seq<char>>,
    k: int,
    n: int,
    depth: int,
    profile: SyntaxProfile,
    chance: F,
)
    requires
        0 <= k <= n,
        conditions_spec(args, k, depth, profile, chance) is Err,
    ensures
        conditions_spec(args, n, depth, profile, chance) == conditions_spec(args, k, depth, profile, chance),
    decreases n - k,
{
    if n > k {
        lemma_conditions_fail(args, k, n - 1, depth, profile, chance);
    }
}

fn unsupported_name(input_name: &str, profile: SyntaxProfile) -> (e: RuleModelError)
    ensures
        is_err(e, (ModelErrorKind::UnsupportedInput, "condition")),
{
    let mut message = String::new();
    if profile == SyntaxProfile::CanonicalV3 {
        match canonical_condition_name(input_name) {
            Some(canonical) => {
                append_str(&mut message, "v3 accepts canonical condition names only; replace `");
                append_str(&mut message, input_name);
                append_str(&mut message, "` with `");
                append_str(&mut message, canonical);
                append_str(&mut message, "`");
                return RuleModelError::UnsupportedInput { context: "condition", message };
            },
            None => {},
        }
    }
    append_str(&mut message, "unknown condition `");
    append_str(&mut message, input_name);
    append_str(&mut message, "`");
    RuleModelError::UnsupportedInput { context: "condition", message }
}

fn parse_env_condition(arg: &str) -> (r: Result<Condition, RuleModelError>)
    ensures
        match (r, env_condition_spec(arg@)) {
            (Ok(c), Ok(v)) => cond_matches(c, v),
            (Err(e), Err(f)) => condition_error(e, f),
            _ => false,
        },
{
    let cs = chars_of(arg);
    match split_once_exec(&cs, '=') {
        Some((n, v)) => {
            let name = string_of(&trim_chars(&n));
            match validate_env_name(name.as_str()) {
                Ok(()) => {},
                Err(e) => return Err(e),
            }
            let value = unquote(string_of(&trim_chars(&v)).as_str());
            Ok(Condition::EnvEquals { name, value })
        },
        None => {
            let name = trim_str(arg);
            match validate_env_name(name.as_str()) {
                Ok(()) => {},
                Err(e) => return Err(e),
            }
            Ok(Condition::EnvPresent(name))
        },
    }
}

/// Parses the arguments of `any` or `all`, each trimmed, at nesting `depth`.
fn parse_condition_list<F: Fn(&str) -> Result<u16, RuleModelError>>(
    args: &Vec<String>,
    depth: usize,
    profile: SyntaxProfile,
    chance: &F,
) -> (r: Result<Vec<Condition>, RuleModelError>)
    requires
        1 <= depth <= MAX_RULE_PARSE_NESTING + 1,
        forall|t: &str| #[trigger] call_requires(*chance, (t,)),
    ensures
        chance_deterministic(*chance) ==> match (r, conditions_spec(arg_texts(args@), args@.len() as int, depth as int, profile, *chance)) {
            (Ok(cs), Ok(vs)) => conds_match(cs@, vs),
            (Err(e), Err(f)) => condition_error(e, f),
            _ => false,
        },
    decreases MAX_RULE_PARSE_NESTING + 1 - depth, 3int,
{
    let ghost a = arg_texts(args@);
    let mut out: Vec<Condition> = Vec::new();
    let mut i: usize = 0;
    while i < args.len()
        invariant
            i <= args@.len(),
            a == arg_texts(args@),
            1 <= depth <= MAX_RULE_PARSE_NESTING + 1,
            forall|t: &str| #[trigger] call_requires(*chance, (t,)),
            chance_deterministic(*chance) ==> (conditions_spec(a, i as int, depth as int, profile, *chance) matches Ok(vs)
                && conds_match(out@, vs)),
        decreases args@.len() - i,
    {
        let arg = trim_str(args[i].as_str());
        let ghost vs = conditions_spec(a, i as int, depth as int, profile, *chance)->Ok_0;
        match parse_condition_at_depth(arg.as_str(), depth, profile, chance) {
            Ok(c) => {
                let ghost before = out@;
                out.push(c);
                proof {
                    if chance_deterministic(*chance) {
                        let v = condition_spec(trim(a[i as int]), depth as int, profile, *chance)->Ok_0;
                        assert(out@.drop_last() =~= before);
                        assert(vs.push(v).drop_last() =~= vs);
                    }
                }
            },
            Err(e) => {
                proof {
                    if chance_deterministic(*chance) {
                        lemma_conditions_fail(a, i + 1, args@.len() as int, depth as int, profile, *chance);
                    }
                }
                return Err(e);
            },
        }
        i += 1;
    }
    Ok(out)
}

/// Parses one condition at nesting `depth` under `profile`; `chance` turns the argument of a
/// `chance(...)` condition into thousandths. The result is stated for a `chance` that gives
/// the same outcome for the same text; nothing is stated for one that does not.
pub fn parse_condition_at_depth<F: Fn(&str) -> Result<u16, RuleModelError>>(
    input: &str,
    depth: usize,
    profile: SyntaxProfile,
    chance: &F,
) -> (r: Result<Condition, RuleModelError>)
    requires
        forall|t: &str| #[trigger] call_requires(*chance, (t,)),
    ensures
        chance_deterministic(*chance) ==> match (r, condition_spec(input@, depth as int, profile, *chance)) {
            (Ok(c), Ok(v)) => cond_matches(c, v),
            (Err(e), Err(f)) => condition_error(e, f),
            _ => false,
        },
    decreases MAX_RULE_PARSE_NESTING + 1 - depth, 2int,
{
    if depth > MAX_RULE_PARSE_NESTING {
        return Err(
            RuleModelError::LimitExceeded {
                context: "condition nesting",
                message: lit("condition nesting exceeds 32 levels"),
            },
        );
    }
    let s = chars_of(input);
    if s.len() > 0 && s[0] == '!' {
        let rest = string_of(&slice_vec(&s, 1, s.len()));
        assert(rest@ =~= input@.drop_first());
        return match parse_condition_at_depth(rest.as_str(), depth + 1, profile, chance) {
            Ok(c) => Ok(Condition::Not(Box::new(c))),
            Err(e) => Err(e),
        };
    }
    let (input_name, args) = match parse_call(input) {
        Ok(p) => p,
        Err(e) => return Err(e),
    };
    assert(arg_texts(args@) =~= args@.map_values(|x: String| x@));
    let found = match profile {
        SyntaxProfile::Compatible => canonical_condition_name(input_name.as_str()),
        SyntaxProfile::CanonicalV3 => canonical_v3_condition_name(input_name.as_str()),
    };
    let name = match found {
        Some(n) => n,
        None => return Err(unsupported_name(input_name.as_str(), profile)),
    };
    parse_named_condition(name, &args, depth, profile, chance)
}

/// Parses the named condition `name` with arguments `args` at nesting `depth`.
fn parse_named_condition<F: Fn(&str) -> Result<u16, RuleModelError>>(
    name: &str,
    args: &Vec<String>,
    depth: usize,
    profile: SyntaxProfile,
    chance: &F,
) -> (r: Result<Condition, RuleModelError>)
    requires
        depth <= MAX_RULE_PARSE_NESTING,
        forall|t: &str| #[trigger] call_requires(*chance, (t,)),
    ensures
        chance_deterministic(*chance) ==> match (r, named_condition_spec(name@, arg_texts(args@), depth as int, profile, *chance)) {
            (Ok(c), Ok(v)) => cond_matches(c, v),
            (Err(e), Err(f)) => condition_error(e, f),
            _ => false,
        },
    decreases MAX_RULE_PARSE_NESTING + 1 - depth, 1int,
{
    if str_eq(name, "any") || str_eq(name, "all") {
        if args.len() == 0 {
            let any = str_eq(name, "any");
            return Err(
                RuleModelError::MissingArgument {
                    context: if any {
                        "any condition"
                    } else {
                        "all condition"
                    },
                    message: if any {
                        lit("any requires at least one condition")
                    } else {
                        lit("all requires at least one condition")
                    },
                },
            );
        }
        let cs = parse_condition_list(args, depth + 1, profile, chance)?;
        if str_eq(name, "any") {
            Ok(Condition::Any(cs))
        } else {
            Ok(Condition::All(cs))
        }
    } else if str_eq(name, "not") {
        let arg = require_one(args.as_slice(), "not")?;
        let inner = parse_condition_at_depth(arg.as_str(), depth + 1, profile, chance)?;
        Ok(Condition::Not(Box::new(inner)))
    } else {
        parse_leaf_condition(name, args, chance)
    }
}


/// Parses a condition that nests no other condition.
fn parse_leaf_condition<F: Fn(&str) -> Result<u16, RuleModelError>>(
    name: &str,
    args: &Vec<String>,
    chance: &F,
) -> (r: Result<Condition, RuleModelError>)
    requires
        forall|t: &str| #[trigger] call_requires(*chance, (t,)),
    ensures
        chance_deterministic(*chance) ==> match (r, leaf_condition_spec(name@, arg_texts(args@), *chance)) {
            (Ok(c), Ok(v)) => cond_matches(c, v),
            (Err(e), Err(f)) => condition_error(e, f),
            _ => false,
        },
{
    let ghost a = args@.map_values(|x: String| x@);
    assert(arg_texts(args@) =~= a);
    if str_eq(name, "method") {
        let m = parse_method_condition(args.as_slice())?;
        assert(texts(m@) =~= m@.map_values(|x: String| x@));
        Ok(Condition::Method(m))
    } else if str_eq(name, "host") {
        let arg = require_one(args.as_slice(), "host")?;
        let pattern = unquote(arg.as_str());
        validate_glob_pattern(pattern.as_str(), '.', "host condition glob")?;
        Ok(Condition::Host(pattern))
    } else if str_eq(name, "url") {
        let arg = require_one(args.as_slice(), "url")?;
        let u = parse_url_condition(arg.as_str())?;
        Ok(Condition::Url(u))
    } else if str_eq(name, "client.ip") {
        let m = parse_ip_patterns(args.as_slice(), "client.ip")?;
        Ok(Condition::ClientIp(m))
    } else if str_eq(name, "server.ip") {
        let m = parse_ip_patterns(args.as_slice(), "server.ip")?;
        Ok(Condition::ServerIp(m))
    } else if str_eq(name, "header") {
        let arg = require_one(args.as_slice(), "header")?;
        parse_header_condition(arg.as_str(), false)
    } else if str_eq(name, "res.header") {
        let arg = require_one(args.as_slice(), "res.header")?;
        parse_header_condition(arg.as_str(), true)
    } else if str_eq(name, "body") {
        let arg = require_one(args.as_slice(), "body")?;
        parse_body_condition(arg.as_str())
    } else if str_eq(name, "status") {
        let m = parse_status_condition(args.as_slice())?;
        Ok(Condition::Status(m))
    } else if str_eq(name, "chance") {
        let raw = require_one(args.as_slice(), "chance")?;
        let raw_str = raw.as_str();
        let outcome = chance(raw_str);
        proof {
            assert(call_ensures(*chance, (raw_str,), outcome));
            if chance_deterministic(*chance) {
                let (u, picked) = choose|t: &str, r: Result<u16, RuleModelError>| t@ == raw@
                    && #[trigger] call_ensures(*chance, (t,), r);
                assert(outcome_id(picked) == outcome_id(outcome));
            }
        }
        match outcome {
            Ok(p) => Ok(Condition::ChancePermille(p)),
            Err(e) => Err(e),
        }
    } else if str_eq(name, "env") {
        let arg = require_one(args.as_slice(), "env")?;
        parse_env_condition(arg.as_str())
    } else {
        let mut message = lit("unknown condition `");
        append_str(&mut message, name);
        append_str(&mut message, "`");
        Err(RuleModelError::UnsupportedInput { context: "condition", message })
    }
}

/// Parses one condition under `profile`, at the outermost nesting level. As for
/// [`parse_condition_at_depth`], the result is stated for a `chance` that gives the same
/// outcome for the same text.
pub fn parse_condition<F: Fn(&str) -> Result<u16, RuleModelError>>(
    input: &str,
    profile: SyntaxProfile,
    chance: &F,
) -> (r: Result<Condition, RuleModelError>)
    requires
        forall|t: &str| #[trigger] call_requires(*chance, (t,)),
    ensures
        chance_deterministic(*chance) ==> match (r, condition_spec(input@, 0, profile, *chance)) {
            (Ok(c), Ok(v)) => cond_matches(c, v),
            (Err(e), Err(f)) => condition_error(e, f),
            _ => false,
        },
{
    parse_condition_at_depth(input, 0, profile, chance)
}

} // verus!
