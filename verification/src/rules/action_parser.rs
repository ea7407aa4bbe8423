//! Parsing rule actions: the keyword actions, the named action calls and their arguments, and
//! the final template check of the parsed action.
//!
//! Four steps are the caller's and are handed in as functions: reading a duration and a speed
//! (both take fractional numbers), checking a response trailer operation, turning a TLS option
//! message into an error, and checking the templates an action carries.
use crate::rules::action::{Action, BodyOp, HeaderOp, Phase};
use crate::rules::amounts::{duration_result, parse_duration_ms};
use crate::rules::condition_parser::SyntaxProfile;
use crate::rules::conditions::validate_status_range;
use crate::rules::delete::{delete_error, delete_ops_spec, parse_delete_ops};
use crate::rules::error::{ModelErrorKind, RuleModelError};
use crate::rules::family::{normalize_skip_family, normalized_family, prefix_families, ActionFamily, ActionFamilySet};
use crate::rules::hints::{whistle_hint_spec, whistle_syntax_hint};
use crate::rules::host_pool::{pool_error, HostPool};
use crate::rules::language::{
    action_spellings, canonical_action_name, canonical_in, canonical_v3_action_name, canonical_v3_in,
    redirect_status, MAX_HTTP_STATUS, MIN_FINAL_HTTP_STATUS,
};
use crate::rules::mock::{mock_action_view, mock_spec, parse_mock};
use crate::rules::rewrites::{
    arg_texts, body_replace_spec, header_op_spec, parse_body_replace, parse_header_op,
    parse_url_rewrite_pattern, url_rewrite_spec,
};
use crate::rules::syntax::{
    call_body_spec, call_error, parse_call, parse_call_spec, parse_value, parse_value_spec,
    require_call_body, require_one, require_one_spec, unquote, unquote_spec, value_error,
};
use crate::rules::tls::{parse_tls_op, tls_spec, tls_view};
use crate::rules::transforms::{
    cache_op_view, cache_spec, cookie_op_view, cookie_spec, cors_spec, cors_view, inject_spec,
    is_err, parse_cache_op, parse_cookie_op, parse_cors_op, parse_inject_op, parse_query_ops,
    query_spec, ErrId,
};
use crate::rules::url::{map_remote_spec, redirect_spec, validate_map_remote_target, validate_redirect_location};
use crate::rules::value::{value_views, Value, ValueKind};
use crate::text::{
    append_str, chars_of, contains_char, join, join_strings, lit, parse_unsigned, parse_unsigned_spec,
    str_eq, trim, trim_str, views,
};
use vstd::prelude::*;

verus! {

/// The canonical action spelling of `s` under `profile`.
#[verifier::opaque]
pub open spec fn canonical_action(profile: SyntaxProfile, s: Seq<char>) -> Option<Seq<char>> {
    match profile {
        SyntaxProfile::Compatible => canonical_in(action_spellings(), s),
        SyntaxProfile::CanonicalV3 => canonical_v3_in(action_spellings(), s),
    }
}

/// The missing-argument error of an action that takes exactly one argument.
pub open spec fn missing_one(e: RuleModelError) -> bool {
    e.is_error(ModelErrorKind::MissingArgument, "action argument")
}

/// `r` is the error identified by `id`.
pub open spec fn fails_with(r: Result<Action, RuleModelError>, id: ErrId) -> bool {
    r matches Err(e) && is_err(e, id)
}

/// The actions whose one argument is a value source.
pub open spec fn value_action_name(n: Seq<char>) -> bool {
    n == "mock.raw"@ || n == "req.method"@ || n == "req.ua"@ || n == "req.referer"@ || n == "req.auth"@
        || n == "req.forwarded"@ || n == "req.type"@ || n == "req.charset"@ || n == "res.type"@
        || n == "res.charset"@ || n == "res.merge"@ || n == "tag"@ || n == "req.body.set"@
        || n == "req.body.prepend"@ || n == "req.body.append"@ || n == "res.body.set"@
        || n == "res.body.prepend"@ || n == "res.body.append"@
}

/// The value an action named `n` carries, where `a` is that action.
pub open spec fn value_of(n: Seq<char>, a: Action) -> Option<Value> {
    match a {
        Action::MockRaw(v) => if n == "mock.raw"@ { Some(v) } else { None },
        Action::ReqMethod(v) => if n == "req.method"@ { Some(v) } else { None },
        Action::ReqUa(v) => if n == "req.ua"@ { Some(v) } else { None },
        Action::ReqReferer(v) => if n == "req.referer"@ { Some(v) } else { None },
        Action::ReqAuth(v) => if n == "req.auth"@ { Some(v) } else { None },
        Action::ReqForwarded(v) => if n == "req.forwarded"@ { Some(v) } else { None },
        Action::ReqType(v) => if n == "req.type"@ { Some(v) } else { None },
        Action::ReqCharset(v) => if n == "req.charset"@ { Some(v) } else { None },
        Action::ResType(v) => if n == "res.type"@ { Some(v) } else { None },
        Action::ResCharset(v) => if n == "res.charset"@ { Some(v) } else { None },
        Action::ResMerge(v) => if n == "res.merge"@ { Some(v) } else { None },
        Action::Tag(v) => if n == "tag"@ { Some(v) } else { None },
        Action::ReqBody(BodyOp::SetValue(v)) => if n == "req.body.set"@ { Some(v) } else { None },
        Action::ReqBody(BodyOp::Prepend(v)) => if n == "req.body.prepend"@ { Some(v) } else { None },
        Action::ReqBody(BodyOp::Append(v)) => if n == "req.body.append"@ { Some(v) } else { None },
        Action::ResBody(BodyOp::SetValue(v)) => if n == "res.body.set"@ { Some(v) } else { None },
        Action::ResBody(BodyOp::Prepend(v)) => if n == "res.body.prepend"@ { Some(v) } else { None },
        Action::ResBody(BodyOp::Append(v)) => if n == "res.body.append"@ { Some(v) } else { None },
        _ => None,
    }
}

/// An action named `n` whose single argument is a value source.
pub open spec fn value_action_result(n: Seq<char>, args: Seq<Seq<char>>, p: Result<Action, RuleModelError>) -> bool {
    match require_one_spec(args) {
        None => p matches Err(e) && missing_one(e),
        Some(a) => match parse_value_spec(a) {
            Ok(w) => p matches Ok(act) && value_of(n, act) matches Some(v) && v@ == w,
            Err(f) => p matches Err(e) && value_error(e, f),
        },
    }
}

/// Parses the value-source argument of an action named `name`.
fn value_action(name: &str, args: &Vec<String>) -> (r: Result<Action, RuleModelError>)
    requires
        value_action_name(name@),
    ensures
        value_action_result(name@, arg_texts(args@), r),
{
    assert(arg_texts(args@) =~= args@.map_values(|x: String| x@));
    let one = match require_one(args.as_slice(), name) {
        Ok(a) => a,
        Err(e) => return Err(e),
    };
    let v = match parse_value(one.as_str()) {
        Ok(v) => v,
        Err(e) => return Err(e),
    };
    if str_eq(name, "mock.raw") {
        Ok(Action::MockRaw(v))
    } else if str_eq(name, "req.method") {
        Ok(Action::ReqMethod(v))
    } else if str_eq(name, "req.ua") {
        Ok(Action::ReqUa(v))
    } else if str_eq(name, "req.referer") {
        Ok(Action::ReqReferer(v))
    } else if str_eq(name, "req.auth") {
        Ok(Action::ReqAuth(v))
    } else if str_eq(name, "req.forwarded") {
        Ok(Action::ReqForwarded(v))
    } else if str_eq(name, "req.type") {
        Ok(Action::ReqType(v))
    } else if str_eq(name, "req.charset") {
        Ok(Action::ReqCharset(v))
    } else if str_eq(name, "res.type") {
        Ok(Action::ResType(v))
    } else if str_eq(name, "res.charset") {
        Ok(Action::ResCharset(v))
    } else if str_eq(name, "res.merge") {
        Ok(Action::ResMerge(v))
    } else if str_eq(name, "tag") {
        Ok(Action::Tag(v))
    } else if str_eq(name, "req.body.set") {
        Ok(Action::ReqBody(BodyOp::SetValue(v)))
    } else if str_eq(name, "req.body.prepend") {
        Ok(Action::ReqBody(BodyOp::Prepend(v)))
    } else if str_eq(name, "req.body.append") {
        Ok(Action::ReqBody(BodyOp::Append(v)))
    } else if str_eq(name, "res.body.set") {
        Ok(Action::ResBody(BodyOp::SetValue(v)))
    } else if str_eq(name, "res.body.prepend") {
        Ok(Action::ResBody(BodyOp::Prepend(v)))
    } else {
        Ok(Action::ResBody(BodyOp::Append(v)))
    }
}

/// The actions parsed by one argument helper.
pub open spec fn helper_action_name(n: Seq<char>) -> bool {
    n == "mock"@ || n == "req.cookie"@ || n == "res.cookie"@ || n == "res.cors"@ || n == "cache"@
        || n == "url.query"@ || n == "delete"@ || n == "req.body.replace"@ || n == "res.body.replace"@
        || n == "inject"@ || n == "req.header"@ || n == "res.header"@
}

/// An action named `n`, called as `s` with arguments `args`, parsed by its argument helper.
pub open spec fn helper_action_result(
    n: Seq<char>,
    s: Seq<char>,
    args: Seq<Seq<char>>,
    p: Result<Action, RuleModelError>,
) -> bool {
    if n == "mock"@ {
        match mock_spec(args) {
            Ok(v) => p matches Ok(a) && mock_action_view(a) == Some(v),
            Err(id) => fails_with(p, id),
        }
    } else if n == "req.cookie"@ || n == "res.cookie"@ {
        match require_one_spec(args) {
            None => p matches Err(e) && missing_one(e),
            Some(a) => match cookie_spec(a) {
                Ok(v) => if n == "req.cookie"@ {
                    p matches Ok(Action::ReqCookie(c)) && cookie_op_view(c) == v
                } else {
                    p matches Ok(Action::ResCookie(c)) && cookie_op_view(c) == v
                },
                Err(id) => fails_with(p, id),
            },
        }
    } else if n == "res.cors"@ {
        match cors_spec(args) {
            Ok(v) => p matches Ok(Action::ResCors(c)) && cors_view(c) == v,
            Err(id) => fails_with(p, id),
        }
    } else if n == "cache"@ {
        match cache_spec(args) {
            Ok(v) => p matches Ok(Action::Cache(c)) && cache_op_view(c) == v,
            Err(id) => fails_with(p, id),
        }
    } else if n == "url.query"@ {
        match query_spec(args) {
            Ok(v) => p matches Ok(Action::UrlQuery(q)) && q@.map_values(|x: crate::rules::action::QueryOp| x@) == v,
            Err(id) => fails_with(p, id),
        }
    } else if n == "delete"@ {
        match delete_ops_spec(args) {
            Ok(v) => p matches Ok(Action::Delete(d)) && crate::rules::action::delete_views(d@) == v,
            Err(f) => p matches Err(e) && delete_error(e, f),
        }
    } else if n == "req.body.replace"@ || n == "res.body.replace"@ {
        match body_replace_spec(args) {
            Ok(v) => if n == "req.body.replace"@ {
                p matches Ok(Action::ReqBody(op)) && op@ == v
            } else {
                p matches Ok(Action::ResBody(op)) && op@ == v
            },
            Err(id) => fails_with(p, id),
        }
    } else if n == "inject"@ {
        match inject_spec(args) {
            Ok(v) => p matches Ok(Action::Inject(op)) && (op.target, op.value@, op.mode) == v,
            Err(id) => fails_with(p, id),
        }
    } else {
        match call_body_spec(s) {
            None => p matches Err(e) && e.is_error(ModelErrorKind::InvalidSyntax, "call"),
            Some(b) => if b.len() == 0 {
                p matches Err(e) && missing_one(e)
            } else {
                match header_op_spec(b) {
                    Ok(v) => if n == "req.header"@ {
                        p matches Ok(Action::ReqHeader(op)) && op@ == v
                    } else {
                        p matches Ok(Action::ResHeader(op)) && op@ == v
                    },
                    Err(id) => fails_with(p, id),
                }
            },
        }
    }
}

/// Parses an action whose arguments one helper reads.
fn helper_action(name: &str, input: &str, args: &Vec<String>) -> (r: Result<Action, RuleModelError>)
    requires
        helper_action_name(name@),
        parse_call_spec(input@) is Ok,
    ensures
        helper_action_result(name@, input@, arg_texts(args@), r),
{
    assert(arg_texts(args@) =~= args@.map_values(|x: String| x@));
    if str_eq(name, "mock") {
        parse_mock(args.as_slice())
    } else if str_eq(name, "req.cookie") || str_eq(name, "res.cookie") {
        let one = require_one(args.as_slice(), name)?;
        let op = parse_cookie_op(one.as_str())?;
        if str_eq(name, "req.cookie") {
            Ok(Action::ReqCookie(op))
        } else {
            Ok(Action::ResCookie(op))
        }
    } else if str_eq(name, "res.cors") {
        Ok(Action::ResCors(parse_cors_op(args.as_slice())?))
    } else if str_eq(name, "cache") {
        Ok(Action::Cache(parse_cache_op(args.as_slice())?))
    } else if str_eq(name, "url.query") {
        Ok(Action::UrlQuery(parse_query_ops(args.as_slice())?))
    } else if str_eq(name, "delete") {
        Ok(Action::Delete(parse_delete_ops(args.as_slice())?))
    } else if str_eq(name, "req.body.replace") {
        Ok(Action::ReqBody(parse_body_replace(args.as_slice(), "req.body.replace")?))
    } else if str_eq(name, "res.body.replace") {
        Ok(Action::ResBody(parse_body_replace(args.as_slice(), "res.body.replace")?))
    } else if str_eq(name, "inject") {
        Ok(Action::Inject(parse_inject_op(args.as_slice())?))
    } else {
        proof {
            crate::rules::syntax::lemma_call_shape(input@);
        }
        let body = require_call_body(input, name)?;
        let op = parse_header_op(body.as_str())?;
        if str_eq(name, "req.header") {
            Ok(Action::ReqHeader(op))
        } else {
            Ok(Action::ResHeader(op))
        }
    }
}

/// The values of the first `n` arguments, each a value source; the first refusal is the result.
pub open spec fn values_run(args: Seq<Seq<char>>, n: int) -> Result<Seq<crate::rules::value::ValueView>, crate::rules::syntax::ValueFailure>
    decreases n,
{
    if n <= 0 || n > args.len() {
        Ok(seq![])
    } else {
        match values_run(args, n - 1) {
            Err(f) => Err(f),
            Ok(vs) => match parse_value_spec(args[n - 1]) {
                Ok(w) => Ok(vs.push(w)),
                Err(f) => Err(f),
            },
        }
    }
}

proof fn lemma_values_fail(args: Seq<Seq<char>>, k: int, n: int)
    requires
        0 < k <= n <= args.len(),
        values_run(args, k) is Err,
    ensures
        values_run(args, n) == values_run(args, k),
    decreases n - k,
{
    if n > k {
        lemma_values_fail(args, k, n - 1);
    }
}

/// The families the first `n` `skip` arguments select, each unquoted and normalized; an
/// argument that selects no family is refused.
pub open spec fn skip_run(args: Seq<Seq<char>>, n: int) -> Result<Set<ActionFamily>, ErrId>
    decreases n,
{
    if n <= 0 || n > args.len() {
        Ok(Set::empty())
    } else {
        match skip_run(args, n - 1) {
            Err(id) => Err(id),
            Ok(fs) => {
                let sel = prefix_families(normalized_family(unquote_spec(args[n - 1])));
                if sel == Set::<ActionFamily>::empty() {
                    Err((ModelErrorKind::UnsupportedInput, "skip action family"))
                } else {
                    Ok(fs.union(sel))
                }
            },
        }
    }
}

proof fn lemma_skip_fail(args: Seq<Seq<char>>, k: int, n: int)
    requires
        0 < k <= n <= args.len(),
        skip_run(args, k) is Err,
    ensures
        skip_run(args, n) == skip_run(args, k),
    decreases n - k,
{
    if n > k {
        lemma_skip_fail(args, k, n - 1);
    }
}

/// A status action's code: one unsigned argument within `200..=599`.
pub open spec fn status_result(args: Seq<Seq<char>>, response: bool, p: Result<Action, RuleModelError>) -> bool {
    let ctx: &'static str = if response {
        "response status code"
    } else {
        "status code"
    };
    match require_one_spec(args) {
        None => p matches Err(e) && missing_one(e),
        Some(a) => match parse_unsigned_spec(a, 65535) {
            None => fails_with(p, (ModelErrorKind::InvalidInteger, ctx)),
            Some(c) => if c < MIN_FINAL_HTTP_STATUS || c > MAX_HTTP_STATUS {
                fails_with(p, (ModelErrorKind::ConstraintViolation, ctx))
            } else if response {
                p matches Ok(Action::ResStatus(x)) && x == c
            } else {
                p matches Ok(Action::Status(x)) && x == c
            },
        },
    }
}

/// A redirect: a location value and an optional status code (302 when absent) among 301, 302,
/// 303, 307 and 308; an inline location without `$` must be a valid redirect target.
pub open spec fn redirect_result(args: Seq<Seq<char>>, p: Result<Action, RuleModelError>) -> bool {
        if args.len() == 0 {
        fails_with(p, (ModelErrorKind::MissingArgument, "redirect action"))
    } else {
        let code: Option<nat> = if args.len() > 1 {
            parse_unsigned_spec(args[1], 65535)
        } else {
            Some(302)
        };
        match code {
            None => fails_with(p, (ModelErrorKind::InvalidInteger, "redirect code")),
            Some(c) => if args.len() > 2 {
                fails_with(p, (ModelErrorKind::ConstraintViolation, "redirect action"))
            } else if !redirect_status(c as u16) {
                fails_with(p, (ModelErrorKind::ConstraintViolation, "redirect code"))
            } else {
                match parse_value_spec(args[0]) {
                    Err(f) => p matches Err(e) && value_error(e, f),
                    Ok(w) => if w.0 == ValueKind::Inline && !w.1.contains('$') && redirect_spec(w.1) is Err {
                        fails_with(p, redirect_spec(w.1)->Err_0)
                    } else {
                        p matches Ok(Action::Redirect { url, code }) && url@ == w && code == c
                    },
                }
            },
        }
    }
}

/// The actions whose arguments take several steps to read.
pub open spec fn composite_action_name(n: Seq<char>) -> bool {
    n == "host"@ || n == "upstream"@ || n == "map.remote"@ || n == "status"@ || n == "res.status"@
        || n == "redirect"@ || n == "attachment"@ || n == "url.rewrite"@ || n == "skip"@
}

/// The `host` action with arguments `args`.
pub open spec fn host_result(args: Seq<Seq<char>>, p: Result<Action, RuleModelError>) -> bool {
    match values_run(args, args.len() as int) {
        Err(f) => p matches Err(e) && value_error(e, f),
        Ok(vs) => match pool_error(vs) {
            Some(id) => fails_with(p, id),
            None => p matches Ok(Action::Host(pool)) && pool.view() == vs,
        },
    }
}

/// The `upstream` action with arguments `args`.
pub open spec fn upstream_result(args: Seq<Seq<char>>, p: Result<Action, RuleModelError>) -> bool {
    if args.len() == 0 {
        fails_with(p, (ModelErrorKind::MissingArgument, "upstream action"))
    } else if args.len() == 1 {
        match parse_value_spec(args[0]) {
            Ok(w) => p matches Ok(Action::Upstream(v)) && v@ == w,
            Err(f) => p matches Err(e) && value_error(e, f),
        }
    } else {
        p matches Ok(Action::Upstream(Value::Inline(t))) && t@ == join(args, ", "@)
    }
}

/// The `map.remote` action with arguments `args`.
pub open spec fn map_remote_result(args: Seq<Seq<char>>, p: Result<Action, RuleModelError>) -> bool {
    match require_one_spec(args) {
        None => p matches Err(e) && missing_one(e),
        Some(a) => match parse_value_spec(a) {
            Err(f) => p matches Err(e) && value_error(e, f),
            Ok(w) => match map_remote_spec(w) {
                Err(id) => fails_with(p, id),
                Ok(()) => p matches Ok(Action::MapRemote(v)) && v@ == w,
            },
        },
    }
}

/// The `attachment` action with arguments `args`.
pub open spec fn attachment_result(args: Seq<Seq<char>>, p: Result<Action, RuleModelError>) -> bool {
    if args.len() > 1 {
        fails_with(p, (ModelErrorKind::ConstraintViolation, "attachment action"))
    } else if args.len() == 1 && trim(args[0]).len() > 0 {
        match parse_value_spec(args[0]) {
            Ok(w) => p matches Ok(Action::Attachment(Some(v))) && v@ == w,
            Err(f) => p matches Err(e) && value_error(e, f),
        }
    } else {
        p matches Ok(Action::Attachment(None))
    }
}

/// The `url.rewrite` action with arguments `args`.
pub open spec fn url_rewrite_result(args: Seq<Seq<char>>, p: Result<Action, RuleModelError>) -> bool {
    if args.len() != 2 {
        fails_with(p, (ModelErrorKind::MissingArgument, "url.rewrite action"))
    } else {
        match url_rewrite_spec(args[0]) {
            Err(id) => fails_with(p, id),
            Ok(fv) => match parse_value_spec(args[1]) {
                Err(f) => p matches Err(e) && value_error(e, f),
                Ok(w) => p matches Ok(Action::UrlRewrite { from, to }) && from@ == fv && to@ == w,
            },
        }
    }
}

/// An action named `n` with arguments `args` whose arguments take several steps to read.
pub open spec fn composite_action_result(n: Seq<char>, args: Seq<Seq<char>>, p: Result<Action, RuleModelError>) -> bool {
    if n == "host"@ {
        host_result(args, p)
    } else if n == "upstream"@ {
        upstream_result(args, p)
    } else if n == "map.remote"@ {
        map_remote_result(args, p)
    } else if n == "status"@ || n == "res.status"@ {
        status_result(args, n == "res.status"@, p)
    } else if n == "redirect"@ {
        redirect_result(args, p)
    } else if n == "attachment"@ {
        attachment_result(args, p)
    } else if n == "url.rewrite"@ {
        url_rewrite_result(args, p)
    } else {
        match skip_run(args, args.len() as int) {
            Err(id) => fails_with(p, id),
            Ok(fs) => p matches Ok(Action::Skip(set)) && set@ == fs,
        }
    }
}

fn parse_values(args: &Vec<String>) -> (r: Result<Vec<Value>, RuleModelError>)
    ensures
        match (r, values_run(arg_texts(args@), args@.len() as int)) {
            (Ok(v), Ok(w)) => value_views(v@) == w,
            (Err(e), Err(f)) => value_error(e, f),
            _ => false,
        },
{
    let ghost a = arg_texts(args@);
    let mut out: Vec<Value> = Vec::new();
    let mut i: usize = 0;
    assert(value_views(out@) =~= Seq::<crate::rules::value::ValueView>::empty());
    while i < args.len()
        invariant
            i <= args@.len(),
            a == arg_texts(args@),
            values_run(a, i as int) == Ok::<Seq<crate::rules::value::ValueView>, crate::rules::syntax::ValueFailure>(value_views(out@)),
        decreases args@.len() - i,
    {
        assert(a[i as int] == args@[i as int]@);
        match parse_value(args[i].as_str()) {
            Ok(v) => {
                let ghost before = out@;
                out.push(v);
                assert(value_views(out@) =~= value_views(before).push(v@));
            },
            Err(e) => {
                proof {
                    lemma_values_fail(a, i + 1, a.len() as int);
                }
                return Err(e);
            },
        }
        i += 1;
    }
    Ok(out)
}

fn parse_skip(args: &Vec<String>) -> (r: Result<ActionFamilySet, RuleModelError>)
    ensures
        match (r, skip_run(arg_texts(args@), args@.len() as int)) {
            (Ok(v), Ok(w)) => v@ == w,
            (Err(e), Err(id)) => is_err(e, id),
            _ => false,
        },
{
    let ghost a = arg_texts(args@);
    let mut families = ActionFamilySet::empty();
    let mut i: usize = 0;
    while i < args.len()
        invariant
            i <= args@.len(),
            a == arg_texts(args@),
            families.wf(),
            skip_run(a, i as int) == Ok::<Set<ActionFamily>, ErrId>(families@),
        decreases args@.len() - i,
    {
        assert(a[i as int] == args@[i as int]@);
        let family = normalize_skip_family(unquote(args[i].as_str()).as_str());
        match ActionFamilySet::from_prefix(family.as_str()) {
            Some(selected) => {
                families.union(selected);
            },
            None => {
                proof {
                    lemma_skip_fail(a, i + 1, a.len() as int);
                }
                let mut message = lit("unknown skip family `");
                append_str(&mut message, family.as_str());
                append_str(
                    &mut message,
                    "`; use an action family, a parent such as `res.body`, `all`, or `*`",
                );
                return Err(RuleModelError::UnsupportedInput { context: "skip action family", message });
            },
        }
        i += 1;
    }
    Ok(families)
}

fn parse_status_code(args: &Vec<String>, response: bool) -> (r: Result<Action, RuleModelError>)
    ensures
        status_result(arg_texts(args@), response, r),
{
    assert(arg_texts(args@) =~= args@.map_values(|x: String| x@));
    let ctx: &'static str = if response {
        "response status code"
    } else {
        "status code"
    };
    let raw = require_one(args.as_slice(), if response { "res.status" } else { "status" })?;
    let code = match parse_unsigned(&chars_of(raw.as_str()), 65535) {
        Some(c) => c as u16,
        None => {
            return Err(RuleModelError::InvalidInteger {
                context: ctx,
                input: raw,
                message: if response {
                    lit("res.status code must be numeric")
                } else {
                    lit("status code must be numeric")
                },
            });
        },
    };
    validate_status_range(code, MIN_FINAL_HTTP_STATUS, MAX_HTTP_STATUS, ctx, "200..599")?;
    if response {
        Ok(Action::ResStatus(code))
    } else {
        Ok(Action::Status(code))
    }
}

fn parse_redirect(args: &Vec<String>) -> (r: Result<Action, RuleModelError>)
    ensures
        redirect_result(arg_texts(args@), r),
{
    if args.len() == 0 {
        return Err(RuleModelError::MissingArgument { context: "redirect action", message: lit("redirect requires URL") });
    }
    let code: u16 = if args.len() > 1 {
        match parse_unsigned(&chars_of(args[1].as_str()), 65535) {
            Some(c) => c as u16,
            None => {
                return Err(RuleModelError::InvalidInteger {
                    context: "redirect code",
                    input: args[1].clone(),
                    message: lit("redirect code must be numeric"),
                });
            },
        }
    } else {
        302
    };
    if args.len() > 2 {
        return Err(RuleModelError::ConstraintViolation {
            context: "redirect action",
            message: lit("redirect accepts URL and at most one status code"),
        });
    }
    if !(code == 301 || code == 302 || code == 303 || code == 307 || code == 308) {
        return Err(RuleModelError::ConstraintViolation {
            context: "redirect code",
            message: lit("redirect code must be one of 301, 302, 303, 307, or 308"),
        });
    }
    let url = parse_value(args[0].as_str())?;
    match &url {
        Value::Inline(location) => {
            if !contains_char(&chars_of(location.as_str()), '$') {
                validate_redirect_location(location.as_str())?;
            }
        },
        _ => {},
    }
    Ok(Action::Redirect { url, code })
}

fn parse_host(args: &Vec<String>) -> (r: Result<Action, RuleModelError>)
    ensures
        host_result(arg_texts(args@), r),
{
    let values = parse_values(args)?;
    Ok(Action::Host(HostPool::new(values)?))
}

fn parse_upstream(args: &Vec<String>) -> (r: Result<Action, RuleModelError>)
    ensures
        upstream_result(arg_texts(args@), r),
{
    let ghost a = arg_texts(args@);
    if args.len() == 0 {
        return Err(RuleModelError::MissingArgument {
            context: "upstream action",
            message: lit("upstream requires at least one argument"),
        });
    }
    if args.len() == 1 {
        assert(a[0] == args@[0]@);
        Ok(Action::Upstream(parse_value(args[0].as_str())?))
    } else {
        let joined = join_strings(args, ", ");
        assert(views(args@) =~= a);
        Ok(Action::Upstream(Value::Inline(joined)))
    }
}

fn parse_map_remote(args: &Vec<String>) -> (r: Result<Action, RuleModelError>)
    ensures
        map_remote_result(arg_texts(args@), r),
{
    assert(arg_texts(args@) =~= args@.map_values(|x: String| x@));
    let one = require_one(args.as_slice(), "map.remote")?;
    let value = parse_value(one.as_str())?;
    validate_map_remote_target(&value)?;
    Ok(Action::MapRemote(value))
}

fn parse_attachment(args: &Vec<String>) -> (r: Result<Action, RuleModelError>)
    ensures
        attachment_result(arg_texts(args@), r),
{
    let ghost a = arg_texts(args@);
    if args.len() > 1 {
        return Err(RuleModelError::ConstraintViolation {
            context: "attachment action",
            message: lit("attachment accepts at most one filename"),
        });
    }
    if args.len() == 1 && !trim_str(args[0].as_str()).as_str().is_empty() {
        assert(a[0] == args@[0]@);
        Ok(Action::Attachment(Some(parse_value(args[0].as_str())?)))
    } else {
        Ok(Action::Attachment(None))
    }
}

fn parse_url_rewrite(args: &Vec<String>) -> (r: Result<Action, RuleModelError>)
    ensures
        url_rewrite_result(arg_texts(args@), r),
{
    let ghost a = arg_texts(args@);
    if args.len() != 2 {
        return Err(RuleModelError::MissingArgument {
            context: "url.rewrite action",
            message: lit("url.rewrite requires from and to"),
        });
    }
    assert(a[0] == args@[0]@ && a[1] == args@[1]@);
    let from = parse_url_rewrite_pattern(args[0].as_str())?;
    let to = parse_value(args[1].as_str())?;
    Ok(Action::UrlRewrite { from, to })
}

/// Parses an action whose arguments take several steps to read.
fn composite_action(name: &str, args: &Vec<String>) -> (r: Result<Action, RuleModelError>)
    requires
        composite_action_name(name@),
    ensures
        composite_action_result(name@, arg_texts(args@), r),
{
    if str_eq(name, "host") {
        let r = parse_host(args);
        assert(composite_action_result(name@, arg_texts(args@), r));
        r
    } else if str_eq(name, "upstream") {
        let r = parse_upstream(args);
        assert(composite_action_result(name@, arg_texts(args@), r));
        r
    } else if str_eq(name, "map.remote") {
        let r = parse_map_remote(args);
        assert(composite_action_result(name@, arg_texts(args@), r));
        r
    } else if str_eq(name, "status") {
        proof {
            reveal_strlit("status");
            reveal_strlit("res.status");
            assert("status"@.len() != "res.status"@.len());
            assert(name@ != "res.status"@);
        }
        let r = parse_status_code(args, false);
        assert(composite_action_result(name@, arg_texts(args@), r));
        r
    } else if str_eq(name, "res.status") {
        let r = parse_status_code(args, true);
        assert(composite_action_result(name@, arg_texts(args@), r));
        r
    } else if str_eq(name, "redirect") {
        let r = parse_redirect(args);
        assert(composite_action_result(name@, arg_texts(args@), r));
        r
    } else if str_eq(name, "attachment") {
        let r = parse_attachment(args);
        assert(composite_action_result(name@, arg_texts(args@), r));
        r
    } else if str_eq(name, "url.rewrite") {
        let r = parse_url_rewrite(args);
        assert(composite_action_result(name@, arg_texts(args@), r));
        r
    } else {
        Ok(Action::Skip(parse_skip(args)?))
    }
}

/// The actions that need a caller-supplied step.
pub open spec fn hooked_action_name(n: Seq<char>) -> bool {
    n == "tls"@ || n == "res.trailer"@ || n == "delay"@ || n == "throttle"@
}

/// What an amount text reads as: a `delay` duration as [`parse_duration_ms`] reads it, with
/// `read` for texts in seconds; a `throttle` speed as `read` reads it.
pub open spec fn amount_read<F: Fn(&str) -> Result<u64, RuleModelError>>(
    delay: bool,
    t: Seq<char>,
    read: F,
    x: Result<u64, RuleModelError>,
) -> bool {
    if delay {
        duration_result(t, read, x)
    } else {
        exists|u: &str| u@ == t && #[trigger] call_ensures(read, (u,), x)
    }
}

/// A `delay` or `throttle` action: a phase (`req` or `res`) and an amount read as [`amount_read`]
/// says from the trimmed second argument.
pub open spec fn timed_action_result<F: Fn(&str) -> Result<u64, RuleModelError>>(
    delay: bool,
    args: Seq<Seq<char>>,
    read: F,
    p: Result<Action, RuleModelError>,
) -> bool {
    if args.len() != 2 {
        fails_with(p, (ModelErrorKind::MissingArgument, if delay { "delay action" } else { "throttle action" }))
    } else {
        let ph = trim(args[0]);
        if !(ph == "req"@ || ph == "res"@) {
            fails_with(p, (ModelErrorKind::InvalidInput, if delay { "delay phase" } else { "throttle phase" }))
        } else {
            let phase = if ph == "req"@ {
                Phase::Req
            } else {
                Phase::Res
            };
            exists|x: Result<u64, RuleModelError>|
                #[trigger] amount_read(delay, trim(args[1]), read, x) && match x {
                    Ok(amount) => if delay {
                        p == Ok::<Action, RuleModelError>(Action::Delay { phase, millis: amount })
                    } else {
                        p == Ok::<Action, RuleModelError>(Action::Throttle { phase, bytes_per_sec: amount })
                    },
                    Err(e) => p == Err::<Action, RuleModelError>(e),
                }
        }
    }
}

/// A `tls` action: its options, or the caller's error for the option message.
pub open spec fn tls_action_result<T: Fn(String) -> RuleModelError>(
    args: Seq<Seq<char>>,
    tls_error: T,
    p: Result<Action, RuleModelError>,
) -> bool {
    match tls_spec(args) {
        Ok(v) => p matches Ok(Action::Tls(op)) && tls_view(op) == v,
        Err(m) => exists|msg: String, e: RuleModelError|
            msg@ == m && #[trigger] call_ensures(tls_error, (msg,), e) && p == Err::<Action, RuleModelError>(e),
    }
}

/// A `res.trailer` action: the header operation in the call body, accepted by the caller's
/// trailer check.
pub open spec fn trailer_action_result<R: Fn(&HeaderOp) -> Result<(), RuleModelError>>(
    s: Seq<char>,
    trailer: R,
    p: Result<Action, RuleModelError>,
) -> bool {
    match call_body_spec(s) {
        None => p matches Err(e) && e.is_error(ModelErrorKind::InvalidSyntax, "call"),
        Some(b) => if b.len() == 0 {
            p matches Err(e) && missing_one(e)
        } else {
            match header_op_spec(b) {
                Err(id) => fails_with(p, id),
                Ok(v) => exists|op: HeaderOp, x: Result<(), RuleModelError>|
                    op@ == v && #[trigger] call_ensures(trailer, (&op,), x) && match x {
                        Ok(()) => p == Ok::<Action, RuleModelError>(Action::ResTrailer(op)),
                        Err(e) => p == Err::<Action, RuleModelError>(e),
                    },
            }
        },
    }
}

fn parse_timed<F: Fn(&str) -> Result<u64, RuleModelError>>(
    delay: bool,
    args: &Vec<String>,
    read: &F,
) -> (r: Result<Action, RuleModelError>)
    requires
        forall|t: &str| #[trigger] call_requires(*read, (t,)),
    ensures
        timed_action_result(delay, arg_texts(args@), *read, r),
{
    let ghost a = arg_texts(args@);
    if args.len() != 2 {
        return Err(RuleModelError::MissingArgument {
            context: if delay { "delay action" } else { "throttle action" },
            message: if delay {
                lit("delay requires phase and duration")
            } else {
                lit("throttle requires phase and speed")
            },
        });
    }
    assert(a[0] == args@[0]@ && a[1] == args@[1]@);
    let ph = trim_str(args[0].as_str());
    let phase = if str_eq(ph.as_str(), "req") {
        Phase::Req
    } else if str_eq(ph.as_str(), "res") {
        Phase::Res
    } else {
        return Err(RuleModelError::InvalidInput {
            context: if delay { "delay phase" } else { "throttle phase" },
            message: if delay {
                lit("delay phase must be req or res")
            } else {
                lit("throttle phase must be req or res")
            },
        });
    };
    let amount_text = trim_str(args[1].as_str());
    let t = amount_text.as_str();
    let x = if delay {
        parse_duration_ms(t, read)
    } else {
        let y = read(t);
        assert(call_ensures(*read, (t,), y));
        y
    };
    assert(amount_read(delay, t@, *read, x));
    match x {
        Ok(amount) => if delay {
            Ok(Action::Delay { phase, millis: amount })
        } else {
            Ok(Action::Throttle { phase, bytes_per_sec: amount })
        },
        Err(e) => Err(e),
    }
}

fn parse_tls_action<T: Fn(String) -> RuleModelError>(args: &Vec<String>, tls_error: &T) -> (r: Result<
    Action,
    RuleModelError,
>)
    requires
        forall|m: String| #[trigger] call_requires(*tls_error, (m,)),
    ensures
        tls_action_result(arg_texts(args@), *tls_error, r),
{
    assert(arg_texts(args@) =~= args@.map_values(|x: String| x@));
    match parse_tls_op(args.as_slice()) {
        Ok(op) => Ok(Action::Tls(op)),
        Err(m) => {
            let ghost mv = m;
            let e = tls_error(m);
            assert(call_ensures(*tls_error, (mv,), e));
            Err(e)
        },
    }
}

fn parse_trailer_action<R: Fn(&HeaderOp) -> Result<(), RuleModelError>>(input: &str, trailer: &R) -> (r: Result<
    Action,
    RuleModelError,
>)
    requires
        parse_call_spec(input@) is Ok,
        forall|op: &HeaderOp| #[trigger] call_requires(*trailer, (op,)),
    ensures
        trailer_action_result(input@, *trailer, r),
{
    proof {
        crate::rules::syntax::lemma_call_shape(input@);
    }
    let body = require_call_body(input, "res.trailer")?;
    let op = parse_header_op(body.as_str())?;
    let x = trailer(&op);
    assert(call_ensures(*trailer, (&op,), x));
    match x {
        Ok(()) => Ok(Action::ResTrailer(op)),
        Err(e) => Err(e),
    }
}

/// What the action named `n`, called as `s` with arguments `args`, parses to before its
/// templates are checked.
#[verifier::opaque]
pub open spec fn named_action_result<
    D: Fn(&str) -> Result<u64, RuleModelError>,
    S: Fn(&str) -> Result<u64, RuleModelError>,
    R: Fn(&HeaderOp) -> Result<(), RuleModelError>,
    T: Fn(String) -> RuleModelError,
>(
    n: Seq<char>,
    s: Seq<char>,
    args: Seq<Seq<char>>,
    duration: D,
    speed: S,
    trailer: R,
    tls_error: T,
    p: Result<Action, RuleModelError>,
) -> bool {
    if value_action_name(n) {
        value_action_result(n, args, p)
    } else if helper_action_name(n) {
        helper_action_result(n, s, args, p)
    } else if composite_action_name(n) {
        composite_action_result(n, args, p)
    } else if n == "tls"@ {
        tls_action_result(args, tls_error, p)
    } else if n == "res.trailer"@ {
        trailer_action_result(s, trailer, p)
    } else if n == "delay"@ {
        timed_action_result(true, args, duration, p)
    } else if n == "throttle"@ {
        timed_action_result(false, args, speed, p)
    } else {
        fails_with(p, (ModelErrorKind::UnsupportedInput, "action"))
    }
}

/// The parsed action `p` after the caller's template check of it.
pub open spec fn validated<V: Fn(&Action) -> Result<(), RuleModelError>>(
    templates: V,
    p: Result<Action, RuleModelError>,
    r: Result<Action, RuleModelError>,
) -> bool {
    match p {
        Err(e) => r == Err::<Action, RuleModelError>(e),
        Ok(a) => exists|x: Result<(), RuleModelError>|
            #[trigger] call_ensures(templates, (&a,), x) && match x {
                Ok(()) => r == Ok::<Action, RuleModelError>(a),
                Err(e) => r == Err::<Action, RuleModelError>(e),
            },
    }
}

/// What an action text is under `profile`: the keyword actions `direct`, `bypass` and `hide`
/// as they are; a recognized Whistle spelling refused with a hint; otherwise a call whose name
/// is an accepted action spelling, its arguments parsed as that action takes them, and the
/// parsed action's templates checked.
pub open spec fn action_result<
    D: Fn(&str) -> Result<u64, RuleModelError>,
    S: Fn(&str) -> Result<u64, RuleModelError>,
    R: Fn(&HeaderOp) -> Result<(), RuleModelError>,
    T: Fn(String) -> RuleModelError,
    V: Fn(&Action) -> Result<(), RuleModelError>,
>(
    s: Seq<char>,
    profile: SyntaxProfile,
    duration: D,
    speed: S,
    trailer: R,
    tls_error: T,
    templates: V,
    r: Result<Action, RuleModelError>,
) -> bool {
    let early = canonical_action(profile, s);
    if early == Some("direct"@) {
        r matches Ok(Action::Direct)
    } else if early == Some("bypass"@) {
        r matches Ok(Action::Bypass)
    } else if early == Some("hide"@) {
        r matches Ok(Action::Hide)
    } else if whistle_hint_spec(s) is Some {
        r matches Err(e) && e.is_error(ModelErrorKind::UnsupportedInput, "action")
    } else {
        called_action_result(s, profile, duration, speed, trailer, tls_error, templates, r)
    }
}

/// What a call-form action text is: its name an accepted action spelling, its arguments parsed
/// as that action takes them, and the parsed action's templates checked.
pub open spec fn called_action_result<
    D: Fn(&str) -> Result<u64, RuleModelError>,
    S: Fn(&str) -> Result<u64, RuleModelError>,
    R: Fn(&HeaderOp) -> Result<(), RuleModelError>,
    T: Fn(String) -> RuleModelError,
    V: Fn(&Action) -> Result<(), RuleModelError>,
>(
    s: Seq<char>,
    profile: SyntaxProfile,
    duration: D,
    speed: S,
    trailer: R,
    tls_error: T,
    templates: V,
    r: Result<Action, RuleModelError>,
) -> bool {
    match parse_call_spec(s) {
        Err(f) => r matches Err(e) && call_error(e, f),
        Ok((input_name, args)) => match canonical_action(profile, input_name) {
            None => r matches Err(e) && e.is_error(ModelErrorKind::UnsupportedInput, "action"),
            Some(n) => exists|p: Result<Action, RuleModelError>|
                #[trigger] named_action_result(n, s, args, duration, speed, trailer, tls_error, p)
                    && validated(templates, p, r),
        },
    }
}

fn named_action<
    D: Fn(&str) -> Result<u64, RuleModelError>,
    S: Fn(&str) -> Result<u64, RuleModelError>,
    R: Fn(&HeaderOp) -> Result<(), RuleModelError>,
    T: Fn(String) -> RuleModelError,
>(
    name: &str,
    input: &str,
    args: &Vec<String>,
    duration: &D,
    speed: &S,
    trailer: &R,
    tls_error: &T,
) -> (r: Result<Action, RuleModelError>)
    requires
        parse_call_spec(input@) is Ok,
        forall|t: &str| #[trigger] call_requires(*duration, (t,)),
        forall|t: &str| #[trigger] call_requires(*speed, (t,)),
        forall|op: &HeaderOp| #[trigger] call_requires(*trailer, (op,)),
        forall|m: String| #[trigger] call_requires(*tls_error, (m,)),
    ensures
        named_action_result(name@, input@, arg_texts(args@), *duration, *speed, *trailer, *tls_error, r),
{
    reveal(named_action_result);
    if is_value_action_name(name) {
        value_action(name, args)
    } else if is_helper_action_name(name) {
        helper_action(name, input, args)
    } else if is_composite_action_name(name) {
        composite_action(name, args)
    } else if str_eq(name, "tls") {
        parse_tls_action(args, tls_error)
    } else if str_eq(name, "res.trailer") {
        parse_trailer_action(input, trailer)
    } else if str_eq(name, "delay") {
        parse_timed(true, args, duration)
    } else if str_eq(name, "throttle") {
        parse_timed(false, args, speed)
    } else {
        let mut message = lit("unknown action `");
        append_str(&mut message, name);
        append_str(&mut message, "`");
        Err(RuleModelError::UnsupportedInput { context: "action", message })
    }
}

fn is_value_action_name(n: &str) -> (r: bool)
    ensures
        r == value_action_name(n@),
{
    str_eq(n, "mock.raw") || str_eq(n, "req.method") || str_eq(n, "req.ua") || str_eq(n, "req.referer")
        || str_eq(n, "req.auth") || str_eq(n, "req.forwarded") || str_eq(n, "req.type") || str_eq(
        n,
        "req.charset",
    ) || str_eq(n, "res.type") || str_eq(n, "res.charset") || str_eq(n, "res.merge") || str_eq(n, "tag")
        || str_eq(n, "req.body.set") || str_eq(n, "req.body.prepend") || str_eq(n, "req.body.append")
        || str_eq(n, "res.body.set") || str_eq(n, "res.body.prepend") || str_eq(n, "res.body.append")
}

fn is_helper_action_name(n: &str) -> (r: bool)
    ensures
        r == helper_action_name(n@),
{
    str_eq(n, "mock") || str_eq(n, "req.cookie") || str_eq(n, "res.cookie") || str_eq(n, "res.cors")
        || str_eq(n, "cache") || str_eq(n, "url.query") || str_eq(n, "delete") || str_eq(n, "req.body.replace")
        || str_eq(n, "res.body.replace") || str_eq(n, "inject") || str_eq(n, "req.header") || str_eq(
        n,
        "res.header",
    )
}

fn is_composite_action_name(n: &str) -> (r: bool)
    ensures
        r == composite_action_name(n@),
{
    str_eq(n, "host") || str_eq(n, "upstream") || str_eq(n, "map.remote") || str_eq(n, "status") || str_eq(
        n,
        "res.status",
    ) || str_eq(n, "redirect") || str_eq(n, "attachment") || str_eq(n, "url.rewrite") || str_eq(n, "skip")
}

fn canonical_action_exec(profile: SyntaxProfile, s: &str) -> (r: Option<&'static str>)
    ensures
        match r {
            Some(c) => canonical_action(profile, s@) == Some(c@),
            None => canonical_action(profile, s@) is None,
        },
{
    reveal(canonical_action);
    match profile {
        SyntaxProfile::Compatible => canonical_action_name(s),
        SyntaxProfile::CanonicalV3 => canonical_v3_action_name(s),
    }
}

fn unsupported_action(input_name: &str, profile: SyntaxProfile) -> (e: RuleModelError)
    ensures
        e.is_error(ModelErrorKind::UnsupportedInput, "action"),
{
    let mut message = String::new();
    if profile == SyntaxProfile::CanonicalV3 {
        match canonical_action_name(input_name) {
            Some(canonical) => {
                append_str(&mut message, "v3 accepts canonical action names only; replace `");
                append_str(&mut message, input_name);
                append_str(&mut message, "` with `");
                append_str(&mut message, canonical);
                append_str(&mut message, "`");
                return RuleModelError::UnsupportedInput { context: "action", message };
            },
            None => {},
        }
    }
    append_str(&mut message, "unknown action `");
    append_str(&mut message, input_name);
    append_str(&mut message, "`");
    RuleModelError::UnsupportedInput { context: "action", message }
}

fn parse_called_action<
    D: Fn(&str) -> Result<u64, RuleModelError>,
    S: Fn(&str) -> Result<u64, RuleModelError>,
    R: Fn(&HeaderOp) -> Result<(), RuleModelError>,
    T: Fn(String) -> RuleModelError,
    V: Fn(&Action) -> Result<(), RuleModelError>,
>(
    input: &str,
    profile: SyntaxProfile,
    duration: &D,
    speed: &S,
    trailer: &R,
    tls_error: &T,
    templates: &V,
) -> (r: Result<Action, RuleModelError>)
    requires
        forall|t: &str| #[trigger] call_requires(*duration, (t,)),
        forall|t: &str| #[trigger] call_requires(*speed, (t,)),
        forall|op: &HeaderOp| #[trigger] call_requires(*trailer, (op,)),
        forall|m: String| #[trigger] call_requires(*tls_error, (m,)),
        forall|a: &Action| #[trigger] call_requires(*templates, (a,)),
    ensures
        called_action_result(input@, profile, *duration, *speed, *trailer, *tls_error, *templates, r),
{
    let (input_name, args) = match parse_call(input) {
        Ok(p) => p,
        Err(e) => return Err(e),
    };
    assert(arg_texts(args@) =~= args@.map_values(|x: String| x@));
    let name = match canonical_action_exec(profile, input_name.as_str()) {
        Some(n) => n,
        None => return Err(unsupported_action(input_name.as_str(), profile)),
    };
    let p = named_action(name, input, &args, duration, speed, trailer, tls_error);
    let ghost pv = p;
    let r = match p {
        Err(e) => Err(e),
        Ok(action) => {
            let x = templates(&action);
            assert(call_ensures(*templates, (&action,), x));
            match x {
                Ok(()) => Ok(action),
                Err(e) => Err(e),
            }
        },
    };
    assert(validated(*templates, pv, r));
    assert(named_action_result(name@, input@, arg_texts(args@), *duration, *speed, *trailer, *tls_error, pv));
    assert(parse_call_spec(input@) == Ok::<(Seq<char>, Seq<Seq<char>>), crate::rules::syntax::CallFailure>((input_name@, arg_texts(args@))));
    assert(canonical_action(profile, input_name@) == Some(name@));
    assert(exists|q: Result<Action, RuleModelError>|
        #[trigger] named_action_result(name@, input@, arg_texts(args@), *duration, *speed, *trailer, *tls_error, q)
            && validated(*templates, q, r));
    assert(called_action_result(input@, profile, *duration, *speed, *trailer, *tls_error, *templates, r)) by {
        let pc = parse_call_spec(input@);
        let nm = pc->Ok_0.0;
        let ag = pc->Ok_0.1;
        assert(nm == input_name@);
        assert(ag == arg_texts(args@));
        assert(canonical_action(profile, nm) == Some(name@));
        assert(named_action_result(name@, input@, ag, *duration, *speed, *trailer, *tls_error, pv));
        let n = canonical_action(profile, nm)->Some_0;
        assert(named_action_result(n, input@, ag, *duration, *speed, *trailer, *tls_error, pv) && validated(*templates, pv, r));
        assert(exists|q: Result<Action, RuleModelError>|
            #[trigger] named_action_result(n, input@, ag, *duration, *speed, *trailer, *tls_error, q)
                && validated(*templates, q, r));
    }
    r
}

/// Parses one action under `profile`. `duration` reads a `delay` amount written in seconds
/// (whole milliseconds are read here), `speed` reads a `throttle` amount, `trailer` checks a `res.trailer` operation, `tls_error` turns a `tls` option
/// message into an error, and `templates` checks the templates of the parsed action.
pub fn parse_action<
    D: Fn(&str) -> Result<u64, RuleModelError>,
    S: Fn(&str) -> Result<u64, RuleModelError>,
    R: Fn(&HeaderOp) -> Result<(), RuleModelError>,
    T: Fn(String) -> RuleModelError,
    V: Fn(&Action) -> Result<(), RuleModelError>,
>(
    input: &str,
    profile: SyntaxProfile,
    duration: &D,
    speed: &S,
    trailer: &R,
    tls_error: &T,
    templates: &V,
) -> (r: Result<Action, RuleModelError>)
    requires
        forall|t: &str| #[trigger] call_requires(*duration, (t,)),
        forall|t: &str| #[trigger] call_requires(*speed, (t,)),
        forall|op: &HeaderOp| #[trigger] call_requires(*trailer, (op,)),
        forall|m: String| #[trigger] call_requires(*tls_error, (m,)),
        forall|a: &Action| #[trigger] call_requires(*templates, (a,)),
    ensures
        action_result(input@, profile, *duration, *speed, *trailer, *tls_error, *templates, r),
{
    match canonical_action_exec(profile, input) {
        Some(n) => {
            if str_eq(n, "direct") {
                return Ok(Action::Direct);
            } else if str_eq(n, "bypass") {
                return Ok(Action::Bypass);
            } else if str_eq(n, "hide") {
                return Ok(Action::Hide);
            }
        },
        None => {},
    }
    match whistle_syntax_hint(input) {
        Some(hint) => return Err(RuleModelError::UnsupportedInput { context: "action", message: hint }),
        None => {},
    }
    parse_called_action(input, profile, duration, speed, trailer, tls_error, templates)
}

} // verus!
