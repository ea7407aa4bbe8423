//! The template texts an action carries, and checking each of them in order.
//!
//! Inline and file-path values are templates; stored-value references are not. Checking one
//! template text is the caller's step, handed in as a function.
use crate::rules::action::{
    Action, BodyOp, CacheDirective, CacheOp, CookieAttr, CookieOp, HeaderOp, QueryOp, UrlRewritePattern,
};
use crate::rules::error::RuleModelError;
use crate::rules::value::{Value, ValueKind, ValueView};
use crate::text::{lit, views};
use vstd::prelude::*;

verus! {

/// The template of a value: its text, unless it is a stored-value reference.
pub open spec fn value_templates(v: ValueView) -> Seq<Seq<char>> {
    if v.0 == ValueKind::Reference {
        seq![]
    } else {
        seq![v.1]
    }
}

/// The template of an optional value.
pub open spec fn opt_templates(v: Option<Value>) -> Seq<Seq<char>> {
    match v {
        Some(x) => value_templates(x@),
        None => seq![],
    }
}

/// The templates of a list of values, in order.
pub open spec fn list_templates(vs: Seq<ValueView>) -> Seq<Seq<char>>
    decreases vs.len(),
{
    if vs.len() == 0 {
        seq![]
    } else {
        list_templates(vs.drop_last()) + value_templates(vs.last())
    }
}

/// The templates of cookie attributes, in order.
pub open spec fn attr_templates(attrs: Seq<CookieAttr>) -> Seq<Seq<char>>
    decreases attrs.len(),
{
    if attrs.len() == 0 {
        seq![]
    } else {
        attr_templates(attrs.drop_last()) + opt_templates(attrs.last().value)
    }
}

/// The templates of cache directives, in order.
pub open spec fn directive_templates(ds: Seq<CacheDirective>) -> Seq<Seq<char>>
    decreases ds.len(),
{
    if ds.len() == 0 {
        seq![]
    } else {
        directive_templates(ds.drop_last()) + opt_templates(ds.last().value)
    }
}

/// The templates of query operations, in order.
pub open spec fn query_templates(qs: Seq<QueryOp>) -> Seq<Seq<char>>
    decreases qs.len(),
{
    if qs.len() == 0 {
        seq![]
    } else {
        query_templates(qs.drop_last()) + match qs.last() {
            QueryOp::SetValue { value, .. } => value_templates(value@),
            QueryOp::Remove { .. } => seq![],
        }
    }
}

/// The template of a header operation: the value it sets.
pub open spec fn header_templates(op: HeaderOp) -> Seq<Seq<char>> {
    match op {
        HeaderOp::SetValue { value, .. } => value_templates(value@),
        _ => seq![],
    }
}

/// The templates of a body operation: the value it writes.
pub open spec fn body_templates(op: BodyOp) -> Seq<Seq<char>> {
    match op {
        BodyOp::SetValue(v) => value_templates(v@),
        BodyOp::Prepend(v) => value_templates(v@),
        BodyOp::Append(v) => value_templates(v@),
        BodyOp::Replace { .. } => seq![],
    }
}

/// An optional text as a list of at most one.
pub open spec fn opt_text_list(t: Option<String>) -> Seq<Seq<char>> {
    match t {
        Some(x) => seq![x@],
        None => seq![],
    }
}

/// The template texts an action carries, in order: the values of the value-taking actions,
/// a host pool's addresses, a redirect's location, header and body values, a cookie's value
/// and attribute values, the CORS policy's values, cache directive values, a TLS client
/// identity's paths, a plain URL rewrite's source and target (a regex rewrite's target only
/// when it is a file path), query values and an injected value. The other actions carry none.
pub open spec fn templates_of(a: Action) -> Seq<Seq<char>> {
    match a {
        Action::Host(pool) => list_templates(pool.view()),
        Action::Upstream(v) => value_templates(v@),
        Action::ReqMethod(v) => value_templates(v@),
        Action::ReqUa(v) => value_templates(v@),
        Action::ReqReferer(v) => value_templates(v@),
        Action::ReqAuth(v) => value_templates(v@),
        Action::ReqForwarded(v) => value_templates(v@),
        Action::ReqType(v) => value_templates(v@),
        Action::ReqCharset(v) => value_templates(v@),
        Action::ResType(v) => value_templates(v@),
        Action::ResCharset(v) => value_templates(v@),
        Action::ResMerge(v) => value_templates(v@),
        Action::Tag(v) => value_templates(v@),
        Action::Mock(v) => value_templates(v@),
        Action::MockRaw(v) => value_templates(v@),
        Action::Redirect { url, .. } => value_templates(url@),
        Action::ReqHeader(op) => header_templates(op),
        Action::ResHeader(op) => header_templates(op),
        Action::ResTrailer(op) => header_templates(op),
        Action::ReqCookie(op) => match op {
            CookieOp::SetValue { value, attrs, .. } => value_templates(value@) + attr_templates(attrs@),
            CookieOp::Remove { .. } => seq![],
        },
        Action::ResCookie(op) => match op {
            CookieOp::SetValue { value, attrs, .. } => value_templates(value@) + attr_templates(attrs@),
            CookieOp::Remove { .. } => seq![],
        },
        Action::ResCors(op) => value_templates(op.origin@) + opt_templates(op.methods) + opt_templates(op.headers)
            + opt_templates(op.expose) + opt_templates(op.max_age),
        Action::Attachment(v) => opt_templates(v),
        Action::Cache(CacheOp::Directives(ds)) => directive_templates(ds@),
        Action::Tls(op) => opt_text_list(op.client_cert) + opt_text_list(op.client_key),
        Action::UrlRewrite { from, to } => match from {
            UrlRewritePattern::Plain(f) => value_templates(f@) + value_templates(to@),
            UrlRewritePattern::Regex(_) => if to@.0 == ValueKind::File {
                seq![to@.1]
            } else {
                seq![]
            },
        },
        Action::UrlQuery(qs) => query_templates(qs@),
        Action::ReqBody(op) => body_templates(op),
        Action::ResBody(op) => body_templates(op),
        Action::Inject(op) => value_templates(op.value@),
        _ => seq![],
    }
}

fn push_value(out: &mut Vec<String>, v: &Value)
    ensures
        views(final(out)@) == views(old(out)@) + value_templates(v@),
{
    let ghost before = views(out@);
    match v {
        Value::Inline(t) | Value::File(t) => {
            out.push(t.clone());
            assert(views(out@) =~= before + value_templates(v@));
        },
        Value::Reference(_) => {
            assert(views(out@) =~= before + value_templates(v@));
        },
    }
}

fn push_opt(out: &mut Vec<String>, v: &Option<Value>)
    ensures
        views(final(out)@) == views(old(out)@) + opt_templates(*v),
{
    match v {
        Some(x) => push_value(out, x),
        None => {
            assert(views(out@) =~= views(out@) + opt_templates(*v));
        },
    }
}

fn push_text(out: &mut Vec<String>, t: &Option<String>)
    ensures
        views(final(out)@) == views(old(out)@) + opt_text_list(*t),
{
    let ghost before = views(out@);
    match t {
        Some(x) => {
            out.push(x.clone());
            assert(views(out@) =~= before + opt_text_list(*t));
        },
        None => {
            assert(views(out@) =~= before + opt_text_list(*t));
        },
    }
}

fn push_values(out: &mut Vec<String>, vs: &[Value])
    ensures
        views(final(out)@) == views(old(out)@) + list_templates(crate::rules::value::value_views(vs@)),
{
    let ghost start = views(out@);
    let ghost vv = crate::rules::value::value_views(vs@);
    let mut i: usize = 0;
    while i < vs.len()
        invariant
            i <= vs@.len(),
            vv == crate::rules::value::value_views(vs@),
            views(out@) == start + list_templates(vv.take(i as int)),
        decreases vs@.len() - i,
    {
        assert(vv.take(i + 1).drop_last() =~= vv.take(i as int));
        assert(vv.take(i + 1).last() == vs@[i as int]@);
        push_value(out, &vs[i]);
        assert(start + list_templates(vv.take(i + 1)) =~= start + list_templates(vv.take(i as int)) + value_templates(vs@[i as int]@));
        i += 1;
    }
    assert(vv.take(i as int) =~= vv);
}

fn push_attrs(out: &mut Vec<String>, attrs: &Vec<CookieAttr>)
    ensures
        views(final(out)@) == views(old(out)@) + attr_templates(attrs@),
{
    let ghost start = views(out@);
    let mut i: usize = 0;
    while i < attrs.len()
        invariant
            i <= attrs@.len(),
            views(out@) == start + attr_templates(attrs@.take(i as int)),
        decreases attrs@.len() - i,
    {
        assert(attrs@.take(i + 1).drop_last() =~= attrs@.take(i as int));
        push_opt(out, &attrs[i].value);
        assert(start + attr_templates(attrs@.take(i + 1)) =~= start + attr_templates(attrs@.take(i as int))
            + opt_templates(attrs@[i as int].value));
        i += 1;
    }
    assert(attrs@.take(i as int) =~= attrs@);
}

fn push_directives(out: &mut Vec<String>, ds: &Vec<CacheDirective>)
    ensures
        views(final(out)@) == views(old(out)@) + directive_templates(ds@),
{
    let ghost start = views(out@);
    let mut i: usize = 0;
    while i < ds.len()
        invariant
            i <= ds@.len(),
            views(out@) == start + directive_templates(ds@.take(i as int)),
        decreases ds@.len() - i,
    {
        assert(ds@.take(i + 1).drop_last() =~= ds@.take(i as int));
        push_opt(out, &ds[i].value);
        assert(start + directive_templates(ds@.take(i + 1)) =~= start + directive_templates(ds@.take(i as int))
            + opt_templates(ds@[i as int].value));
        i += 1;
    }
    assert(ds@.take(i as int) =~= ds@);
}

fn push_queries(out: &mut Vec<String>, qs: &Vec<QueryOp>)
    ensures
        views(final(out)@) == views(old(out)@) + query_templates(qs@),
{
    let ghost start = views(out@);
    let mut i: usize = 0;
    while i < qs.len()
        invariant
            i <= qs@.len(),
            views(out@) == start + query_templates(qs@.take(i as int)),
        decreases qs@.len() - i,
    {
        assert(qs@.take(i + 1).drop_last() =~= qs@.take(i as int));
        let ghost mid = views(out@);
        match &qs[i] {
            QueryOp::SetValue { value, .. } => push_value(out, value),
            QueryOp::Remove { .. } => {},
        }
        assert(views(out@) =~= mid + match qs@[i as int] {
            QueryOp::SetValue { value, .. } => value_templates(value@),
            QueryOp::Remove { .. } => seq![],
        });
        assert(start + query_templates(qs@.take(i + 1)) =~= start + query_templates(qs@.take(i as int)) + match qs@[i as int] {
            QueryOp::SetValue { value, .. } => value_templates(value@),
            QueryOp::Remove { .. } => seq![],
        });
        i += 1;
    }
    assert(qs@.take(i as int) =~= qs@);
}

/// The template texts an action carries, in order.
pub fn action_templates(a: &Action) -> (r: Vec<String>)
    ensures
        views(r@) == templates_of(*a),
{
    let mut out: Vec<String> = Vec::new();
    assert(views(out@) =~= Seq::<Seq<char>>::empty());
    let ghost empty = views(out@);
    match a {
        Action::Host(pool) => push_values(&mut out, pool.addresses()),
        Action::Upstream(v) | Action::ReqMethod(v) | Action::ReqUa(v) | Action::ReqReferer(v) | Action::ReqAuth(v)
        | Action::ReqForwarded(v) | Action::ReqType(v) | Action::ReqCharset(v) | Action::ResType(v)
        | Action::ResCharset(v) | Action::ResMerge(v) | Action::Tag(v) | Action::Mock(v) | Action::MockRaw(v) => {
            push_value(&mut out, v)
        },
        Action::Redirect { url, .. } => push_value(&mut out, url),
        Action::ReqHeader(op) | Action::ResHeader(op) | Action::ResTrailer(op) => match op {
            HeaderOp::SetValue { value, .. } => push_value(&mut out, value),
            _ => {},
        },
        Action::ReqCookie(op) | Action::ResCookie(op) => match op {
            CookieOp::SetValue { value, attrs, .. } => {
                push_value(&mut out, value);
                push_attrs(&mut out, attrs);
            },
            CookieOp::Remove { .. } => {},
        },
        Action::ResCors(op) => {
            push_value(&mut out, &op.origin);
            push_opt(&mut out, &op.methods);
            push_opt(&mut out, &op.headers);
            push_opt(&mut out, &op.expose);
            push_opt(&mut out, &op.max_age);
        },
        Action::Attachment(v) => push_opt(&mut out, v),
        Action::Cache(CacheOp::Directives(ds)) => push_directives(&mut out, ds),
        Action::Tls(op) => {
            push_text(&mut out, &op.client_cert);
            push_text(&mut out, &op.client_key);
        },
        Action::UrlRewrite { from, to } => match from {
            UrlRewritePattern::Plain(f) => {
                push_value(&mut out, f);
                push_value(&mut out, to);
            },
            UrlRewritePattern::Regex(_) => match to {
                Value::File(path) => {
                    out.push(path.clone());
                },
                _ => {},
            },
        },
        Action::UrlQuery(qs) => push_queries(&mut out, qs),
        Action::ReqBody(op) | Action::ResBody(op) => match op {
            BodyOp::SetValue(v) | BodyOp::Prepend(v) | BodyOp::Append(v) => push_value(&mut out, v),
            BodyOp::Replace { .. } => {},
        },
        Action::Inject(op) => push_value(&mut out, &op.value),
        _ => {},
    }
    assert(views(out@) =~= templates_of(*a));
    out
}

/// Checking the templates `ts` from position `i` on with `check`: each accepted in turn, the
/// first refusal is the result.
pub open spec fn checked_from<F: Fn(&str) -> Result<(), RuleModelError>>(
    check: F,
    ts: Seq<Seq<char>>,
    i: int,
    r: Result<(), RuleModelError>,
) -> bool
    decreases ts.len() - i,
{
    if i >= ts.len() || i < 0 {
        r is Ok
    } else {
        exists|t: &str, x: Result<(), RuleModelError>|
            t@ == ts[i] && #[trigger] call_ensures(check, (t,), x) && match x {
                Ok(()) => checked_from(check, ts, i + 1, r),
                Err(e) => r == Err::<(), RuleModelError>(e),
            }
    }
}

impl Action {
    /// Checks every template this action carries with `check`, in order, stopping at the
    /// first refusal.
    pub fn validate_templates<F: Fn(&str) -> Result<(), RuleModelError>>(&self, check: &F) -> (r: Result<
        (),
        RuleModelError,
    >)
        requires
            forall|t: &str| #[trigger] call_requires(*check, (t,)),
        ensures
            checked_from(*check, templates_of(*self), 0, r),
    {
        let ts = action_templates(self);
        let ghost tv = views(ts@);
        let mut i: usize = 0;
        while i < ts.len()
            invariant
                i <= ts@.len(),
                tv == views(ts@),
                tv == templates_of(*self),
                forall|t: &str| #[trigger] call_requires(*check, (t,)),
                forall|r: Result<(), RuleModelError>|
                    #[trigger] checked_from(*check, tv, i as int, r) ==> checked_from(*check, tv, 0, r),
            decreases ts@.len() - i,
        {
            let t = ts[i].as_str();
            let x = check(t);
            assert(call_ensures(*check, (t,), x));
            assert(tv[i as int] == t@);
            match x {
                Ok(()) => {
                    proof {
                        assert forall|r: Result<(), RuleModelError>|
                            #[trigger] checked_from(*check, tv, i + 1, r) implies checked_from(*check, tv, 0, r) by {
                            assert(checked_from(*check, tv, i as int, r));
                        }
                    }
                },
                Err(e) => {
                    let r = Err(e);
                    assert(checked_from(*check, tv, i as int, r));
                    return r;
                },
            }
            i += 1;
        }
        assert(checked_from(*check, tv, i as int, Ok(())));
        Ok(())
    }
}

} // verus!
