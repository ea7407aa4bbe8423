//! Rule conditions and the parsing of their URL, body, header, and IP arguments.
use crate::rules::conditions::{condition_header_spec, validate_header_name};
use crate::rules::error::{ModelErrorKind, RuleModelError};
use crate::rules::glob::{glob_pattern_error, validate_glob_pattern};
use crate::rules::regex_matcher::{
    parse_regex_matcher, regex_matcher_spec, regex_matcher_view, RegexMatcher, RegexMatcherView,
};
use crate::rules::rewrites::arg_texts;
use crate::rules::syntax::{unquote, unquote_spec};
use crate::rules::transforms::{is_err, last_slash_from, regex_literal_end, ErrId};
use crate::text::{
    char_is_control, chars_of, concat, is_ctrl, slice_vec, split_once, split_once_exec,
    string_of, trim, trim_chars,
};
use vstd::prelude::*;

verus! {

/// Full-URL predicate used by [`Condition::Url`].
#[derive(Clone, Debug)]
pub enum UrlCondition {
    /// Glob matched against the complete raw URL.
    Glob(String),
    /// Regex matched against the complete raw URL.
    Regex(RegexMatcher),
}

/// A request or response predicate attached to a rule.
#[derive(Debug)]
pub enum Condition {
    /// Case-insensitively matches any listed HTTP method.
    Method(Vec<String>),
    /// Matches the request host using host-glob semantics.
    Host(String),
    /// Matches the complete raw request URL with a glob or regex.
    Url(UrlCondition),
    /// Matches the normalized client IP against any exact or simple-glob pattern.
    ClientIp(Vec<String>),
    /// Matches the normalized target IP against any exact or simple-glob pattern.
    ServerIp(Vec<String>),
    /// Requires a request header to be present, using a case-insensitive field name.
    HeaderPresent(String),
    /// Requires a request header value to contain a case-insensitive substring.
    HeaderContains { name: String, value: String },
    /// Requires a response header; it never matches without response metadata.
    ResHeaderPresent(String),
    /// Requires a response header value to contain a case-insensitive substring.
    ResHeaderContains { name: String, value: String },
    /// Case-insensitively searches the lossy UTF-8 request body for a substring.
    BodyContains(String),
    /// Matches a regex against the lossy UTF-8 request body.
    BodyRegex(RegexMatcher),
    /// Matches any listed response status; it never matches without response metadata.
    Status(Vec<u16>),
    /// Deterministically samples the request and rule line in thousandths.
    ChancePermille(u16),
    /// Requires the named process environment variable to exist.
    EnvPresent(String),
    /// Requires an exact value for a process environment variable.
    EnvEquals { name: String, value: String },
    /// Matches when at least one nested condition matches.
    Any(Vec<Condition>),
    /// Matches only when every nested condition matches.
    All(Vec<Condition>),
    /// Inverts a nested condition, except absent response metadata stays non-matching.
    Not(Box<Condition>),
}

/// A text that opens a regex literal: it starts with `/` and has a closing unescaped `/`.
pub open spec fn regex_literal(t: Seq<char>) -> bool {
    t.len() > 0 && t[0] == '/' && last_slash_from(t, 1, false, None) is Some
}

/// What a `url(...)` argument is: a regex literal, or an unquoted glob that must validate.
pub enum UrlConditionView {
    Glob(Seq<char>),
    Regex(RegexMatcherView),
}

/// The plain data of a URL predicate.
pub open spec fn url_condition_view(u: UrlCondition) -> UrlConditionView {
    match u {
        UrlCondition::Glob(g) => UrlConditionView::Glob(g@),
        UrlCondition::Regex(r) => UrlConditionView::Regex(regex_matcher_view(r)),
    }
}

pub open spec fn url_condition_spec(s: Seq<char>) -> Result<UrlConditionView, ErrId> {
    let t = trim(s);
    if regex_literal(t) {
        match regex_matcher_spec(t) {
            Ok(v) => Ok(UrlConditionView::Regex(v)),
            Err(id) => Err(id),
        }
    } else {
        let p = unquote_spec(t);
        match glob_pattern_error(p, '\0', "URL condition glob") {
            Some(id) => Err(id),
            None => Ok(UrlConditionView::Glob(p)),
        }
    }
}

/// Parses the argument of a `url(...)` condition.
pub fn parse_url_condition(input: &str) -> (r: Result<UrlCondition, RuleModelError>)
    ensures
        match (r, url_condition_spec(input@)) {
            (Ok(u), Ok(v)) => url_condition_view(u) == v,
            (Err(e), Err(id)) => is_err(e, id),
            _ => false,
        },
{
    let t = trim_chars(&chars_of(input));
    let text = string_of(&t);
    if t.len() > 0 && t[0] == '/' && regex_literal_end(&t).is_some() {
        let m = parse_regex_matcher(text.as_str())?;
        return Ok(UrlCondition::Regex(m));
    }
    let pattern = unquote(text.as_str());
    validate_glob_pattern(pattern.as_str(), '\0', "URL condition glob")?;
    Ok(UrlCondition::Glob(pattern))
}

/// A body predicate as plain data.
pub enum BodyConditionView {
    Contains(Seq<char>),
    Regex(RegexMatcherView),
}

/// What a `body(...)` argument is: a regex literal, or a non-empty text (an optional leading
/// `~` dropped) that is unquoted.
pub open spec fn body_condition_spec(s: Seq<char>) -> Result<BodyConditionView, ErrId> {
    let t = trim(s);
    if regex_literal(t) {
        match regex_matcher_spec(t) {
            Ok(v) => Ok(BodyConditionView::Regex(v)),
            Err(id) => Err(id),
        }
    } else {
        let text = trim(
            if t.len() > 0 && t[0] == '~' {
                t.drop_first()
            } else {
                t
            },
        );
        if text.len() == 0 {
            Err((ModelErrorKind::MissingArgument, "body condition"))
        } else {
            Ok(BodyConditionView::Contains(unquote_spec(text)))
        }
    }
}

/// Parses the argument of a `body(...)` condition.
pub fn parse_body_condition(input: &str) -> (r: Result<Condition, RuleModelError>)
    ensures
        match (r, body_condition_spec(input@)) {
            (Ok(Condition::BodyContains(c)), Ok(BodyConditionView::Contains(v))) => c@ == v,
            (Ok(Condition::BodyRegex(m)), Ok(BodyConditionView::Regex(v))) => regex_matcher_view(m)
                == v,
            (Err(e), Err(id)) => is_err(e, id),
            _ => false,
        },
{
    let t = trim_chars(&chars_of(input));
    let text = string_of(&t);
    if t.len() > 0 && t[0] == '/' && regex_literal_end(&t).is_some() {
        let m = parse_regex_matcher(text.as_str())?;
        return Ok(Condition::BodyRegex(m));
    }
    let rest = if t.len() > 0 && t[0] == '~' {
        slice_vec(&t, 1, t.len())
    } else {
        slice_vec(&t, 0, t.len())
    };
    assert(t@.len() > 0 ==> t@.subrange(1, t@.len() as int) =~= t@.drop_first());
    assert(t@.subrange(0, t@.len() as int) =~= t@);
    let body = trim_chars(&rest);
    if body.len() == 0 {
        return Err(RuleModelError::MissingArgument {
            context: "body condition",
            message: crate::text::lit("body condition requires text or regex"),
        });
    }
    Ok(Condition::BodyContains(unquote(string_of(&body).as_str())))
}

/// A header predicate as plain data: the lowercased name and, for a containment test, the
/// unquoted value.
pub type HeaderConditionView = (Seq<char>, Option<Seq<char>>);

/// What a `header(...)` argument is: `name ~ value` tests containment of a non-empty value,
/// a bare name tests presence.
pub open spec fn header_condition_spec(s: Seq<char>) -> Result<HeaderConditionView, ErrId> {
    match split_once(s, '~') {
        Some((name, value)) => match condition_header_spec(name) {
            None => Err((ModelErrorKind::InvalidInput, "header condition name")),
            Some(n) => {
                let v = unquote_spec(trim(value));
                if v.len() == 0 {
                    Err((ModelErrorKind::EmptyInput, "header contains condition"))
                } else {
                    Ok((n, Some(v)))
                }
            },
        },
        None => match condition_header_spec(s) {
            None => Err((ModelErrorKind::InvalidInput, "header condition name")),
            Some(n) => Ok((n, None)),
        },
    }
}

/// Parses the argument of a `header(...)` or, with `response`, `res.header(...)` condition.
pub fn parse_header_condition(input: &str, response: bool) -> (r: Result<Condition, RuleModelError>)
    ensures
        match (r, header_condition_spec(input@)) {
            (Ok(Condition::HeaderPresent(n)), Ok((m, None))) => !response && n@ == m,
            (Ok(Condition::ResHeaderPresent(n)), Ok((m, None))) => response && n@ == m,
            (Ok(Condition::HeaderContains { name, value }), Ok((m, Some(v)))) => !response && name@
                == m && value@ == v,
            (Ok(Condition::ResHeaderContains { name, value }), Ok((m, Some(v)))) => response
                && name@ == m && value@ == v,
            (Err(e), Err(id)) => is_err(e, id),
            _ => false,
        },
{
    let s = chars_of(input);
    match split_once_exec(&s, '~') {
        Some((name_part, value_part)) => {
            let name = validate_header_name(string_of(&name_part).as_str())?;
            let value = unquote(string_of(&trim_chars(&value_part)).as_str());
            if value.as_str().is_empty() {
                return Err(RuleModelError::EmptyInput {
                    context: "header contains condition",
                    message: crate::text::lit("header contains condition value is empty"),
                });
            }
            if response {
                Ok(Condition::ResHeaderContains { name, value })
            } else {
                Ok(Condition::HeaderContains { name, value })
            }
        },
        None => {
            let name = validate_header_name(input)?;
            if response {
                Ok(Condition::ResHeaderPresent(name))
            } else {
                Ok(Condition::HeaderPresent(name))
            }
        },
    }
}

/// An IP pattern argument once unquoted and trimmed, or why it is refused: empty or holding a
/// control character, or not a valid glob.
pub open spec fn ip_pattern_spec(a: Seq<char>) -> Result<Seq<char>, ErrId> {
    let v = trim(unquote_spec(a));
    if v.len() == 0 || exists|i: int| 0 <= i < v.len() && #[trigger] is_ctrl(v[i]) {
        Err((ModelErrorKind::EmptyInput, "IP condition pattern"))
    } else {
        match glob_pattern_error(v, '\0', "IP condition glob") {
            Some(id) => Err(id),
            None => Ok(v),
        }
    }
}

/// The patterns of the first `n` arguments, or the first refusal.
pub open spec fn ip_patterns_run(args: Seq<Seq<char>>, n: int) -> Result<Seq<Seq<char>>, ErrId>
    decreases n,
{
    if n <= 0 {
        Ok(Seq::empty())
    } else {
        match ip_patterns_run(args, n - 1) {
            Err(id) => Err(id),
            Ok(ps) => match ip_pattern_spec(args[n - 1]) {
                Err(id) => Err(id),
                Ok(p) => Ok(ps.push(p)),
            },
        }
    }
}

/// What the arguments of `client.ip(...)` or `server.ip(...)` give: at least one pattern, each
/// acceptable.
pub open spec fn ip_patterns_spec(args: Seq<Seq<char>>) -> Result<Seq<Seq<char>>, ErrId> {
    if args.len() == 0 {
        Err((ModelErrorKind::MissingArgument, "IP condition"))
    } else {
        ip_patterns_run(args, args.len() as int)
    }
}

proof fn lemma_ip_patterns_fail(args: Seq<Seq<char>>, k: int, n: int)
    requires
        0 < k <= n,
        ip_patterns_run(args, k) is Err,
    ensures
        ip_patterns_run(args, n) == ip_patterns_run(args, k),
    decreases n - k,
{
    if k < n {
        lemma_ip_patterns_fail(args, k, n - 1);
    }
}

/// Parses the patterns of an IP condition named `name`.
pub fn parse_ip_patterns(args: &[String], name: &str) -> (r: Result<Vec<String>, RuleModelError>)
    ensures
        match (r, ip_patterns_spec(arg_texts(args@))) {
            (Ok(v), Ok(w)) => crate::rules::index::texts(v@) == w,
            (Err(e), Err(id)) => is_err(e, id),
            _ => false,
        },
{
    let ghost a = arg_texts(args@);
    if args.len() == 0 {
        return Err(RuleModelError::MissingArgument {
            context: "IP condition",
            message: concat(name, " requires at least one pattern"),
        });
    }
    let mut out: Vec<String> = Vec::new();
    let mut i: usize = 0;
    assert(crate::rules::index::texts(out@) =~= Seq::<Seq<char>>::empty());
    while i < args.len()
        invariant
            i <= args@.len(),
            a == arg_texts(args@),
            a.len() > 0,
            ip_patterns_run(a, i as int) == Ok::<Seq<Seq<char>>, ErrId>(
                crate::rules::index::texts(out@),
            ),
        decreases args@.len() - i,
    {
        assert(a[i as int] == args@[i as int]@);
        let v = trim_chars(&chars_of(unquote(args[i].as_str()).as_str()));
        let mut bad = v.len() == 0;
        let mut k: usize = 0;
        while k < v.len()
            invariant
                k <= v@.len(),
                bad == (v@.len() == 0 || exists|j: int| 0 <= j < k && #[trigger] is_ctrl(v@[j])),
            decreases v@.len() - k,
        {
            if char_is_control(v[k]) {
                assert(is_ctrl(v@[k as int]));
                bad = true;
            }
            k += 1;
        }
        if bad {
            proof {
                lemma_ip_patterns_fail(a, i + 1, a.len() as int);
            }
            return Err(RuleModelError::EmptyInput {
                context: "IP condition pattern",
                message: concat(name, " patterns must be non-empty"),
            });
        }
        let text = string_of(&v);
        match validate_glob_pattern(text.as_str(), '\0', "IP condition glob") {
            Ok(()) => {},
            Err(e) => {
                proof {
                    lemma_ip_patterns_fail(a, i + 1, a.len() as int);
                }
                return Err(e);
            },
        }
        let ghost before = crate::rules::index::texts(out@);
        out.push(text);
        assert(crate::rules::index::texts(out@) =~= before.push(v@));
        i += 1;
    }
    Ok(out)
}

/// Number of condition nodes in `c`, itself included.
pub open spec fn node_count(c: Condition) -> nat
    decreases c,
{
    match c {
        Condition::Any(cs) => 1 + nodes_in(cs@),
        Condition::All(cs) => 1 + nodes_in(cs@),
        Condition::Not(inner) => 1 + node_count(*inner),
        _ => 1,
    }
}

/// Number of condition nodes in a list of conditions.
pub open spec fn nodes_in(cs: Seq<Condition>) -> nat
    decreases cs,
{
    if cs.len() == 0 {
        0
    } else {
        nodes_in(cs.drop_last()) + node_count(cs.last())
    }
}

/// Number of body conditions (containment or regex) in `c`.
pub open spec fn body_count(c: Condition) -> nat
    decreases c,
{
    match c {
        Condition::BodyContains(_) => 1,
        Condition::BodyRegex(_) => 1,
        Condition::Any(cs) => bodies_in(cs@),
        Condition::All(cs) => bodies_in(cs@),
        Condition::Not(inner) => body_count(*inner),
        _ => 0,
    }
}

/// Number of body conditions in a list of conditions.
pub open spec fn bodies_in(cs: Seq<Condition>) -> nat
    decreases cs,
{
    if cs.len() == 0 {
        0
    } else {
        bodies_in(cs.drop_last()) + body_count(cs.last())
    }
}

pub proof fn lemma_nodes_prefix(cs: Seq<Condition>, i: int)
    requires
        0 <= i <= cs.len(),
    ensures
        nodes_in(cs.take(i)) <= nodes_in(cs),
        bodies_in(cs.take(i)) <= bodies_in(cs),
    decreases cs.len() - i,
{
    if i < cs.len() {
        lemma_nodes_prefix(cs.drop_last(), i);
        assert(cs.drop_last().take(i) =~= cs.take(i));
    } else {
        assert(cs.take(i) =~= cs);
    }
}

/// Counts the condition nodes of a condition tree, itself included.
pub fn condition_node_count(condition: &Condition) -> (r: usize)
    requires
        node_count(*condition) <= usize::MAX,
    ensures
        r == node_count(*condition),
    decreases condition,
{
    match condition {
        Condition::Any(cs) | Condition::All(cs) => {
            let mut total: usize = 1;
            let mut i: usize = 0;
            while i < cs.len()
                invariant
                    i <= cs@.len(),
                    1 + nodes_in(cs@) == node_count(*condition),
                    *condition == Condition::Any(*cs) || *condition == Condition::All(*cs),
                    node_count(*condition) <= usize::MAX,
                    total == 1 + nodes_in(cs@.take(i as int)),
                decreases cs@.len() - i,
            {
                proof {
                    assert(cs@.take(i + 1).drop_last() =~= cs@.take(i as int));
                    lemma_nodes_prefix(cs@, i + 1);
                }
                assert(decreases_to!(*condition => cs@[i as int]));
                let n = condition_node_count(&cs[i]);
                total = total + n;
                i += 1;
            }
            assert(cs@.take(i as int) =~= cs@);
            total
        },
        Condition::Not(inner) => 1 + condition_node_count(inner),
        _ => 1,
    }
}

/// `n`, or `limit + 1` when it is larger.
pub open spec fn capped(n: nat, limit: nat) -> nat {
    if n > limit {
        limit + 1
    } else {
        n
    }
}

/// Counts the condition nodes of a condition tree, stopping once the count passes `limit`.
pub fn condition_nodes_upto(condition: &Condition, limit: usize) -> (r: usize)
    requires
        limit < usize::MAX,
    ensures
        r == capped(node_count(*condition), limit as nat),
    decreases condition,
{
    match condition {
        Condition::Any(cs) | Condition::All(cs) => {
            let mut total: usize = 1;
            let mut i: usize = 0;
            while i < cs.len() && total <= limit
                invariant
                    i <= cs@.len(),
                    limit < usize::MAX,
                    1 + nodes_in(cs@) == node_count(*condition),
                    *condition == Condition::Any(*cs) || *condition == Condition::All(*cs),
                    total == capped(1 + nodes_in(cs@.take(i as int)), limit as nat),
                decreases cs@.len() - i,
            {
                proof {
                    assert(cs@.take(i + 1).drop_last() =~= cs@.take(i as int));
                }
                assert(decreases_to!(*condition => cs@[i as int]));
                let n = condition_nodes_upto(&cs[i], limit);
                total = if n > limit - total {
                    limit + 1
                } else {
                    total + n
                };
                i += 1;
            }
            proof {
                lemma_nodes_prefix(cs@, i as int);
                if i == cs@.len() {
                    assert(cs@.take(i as int) =~= cs@);
                }
            }
            total
        },
        Condition::Not(inner) => {
            let n = condition_nodes_upto(inner, limit);
            if n >= limit {
                limit + 1
            } else {
                n + 1
            }
        },
        _ => 1,
    }
}

/// Counts the body conditions of a condition tree.
pub fn body_condition_count(condition: &Condition) -> (r: usize)
    requires
        body_count(*condition) <= usize::MAX,
    ensures
        r == body_count(*condition),
    decreases condition,
{
    match condition {
        Condition::BodyContains(_) | Condition::BodyRegex(_) => 1,
        Condition::Any(cs) | Condition::All(cs) => {
            let mut total: usize = 0;
            let mut i: usize = 0;
            while i < cs.len()
                invariant
                    i <= cs@.len(),
                    bodies_in(cs@) == body_count(*condition),
                    *condition == Condition::Any(*cs) || *condition == Condition::All(*cs),
                    body_count(*condition) <= usize::MAX,
                    total == bodies_in(cs@.take(i as int)),
                decreases cs@.len() - i,
            {
                proof {
                    assert(cs@.take(i + 1).drop_last() =~= cs@.take(i as int));
                    lemma_nodes_prefix(cs@, i + 1);
                }
                assert(decreases_to!(*condition => cs@[i as int]));
                let n = body_condition_count(&cs[i]);
                total = total + n;
                i += 1;
            }
            assert(cs@.take(i as int) =~= cs@);
            total
        },
        Condition::Not(inner) => body_condition_count(inner),
        _ => 0,
    }
}

/// A nested condition of `Any` or `All` is smaller than the condition holding it.
pub proof fn lemma_child_decreases(c: Condition, cs: Vec<Condition>, i: int)
    requires
        c == Condition::Any(cs) || c == Condition::All(cs),
        0 <= i < cs@.len(),
    ensures
        decreases_to!(c => cs@[i]),
{
    match c {
        Condition::Any(v) => {
            assert(v == cs);
            assert(decreases_to!(c => v@[i]));
        },
        Condition::All(v) => {
            assert(v == cs);
            assert(decreases_to!(c => v@[i]));
        },
        _ => {},
    }
}

} // verus!
