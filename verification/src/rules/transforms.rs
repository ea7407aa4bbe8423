//! Parsing the structured arguments of cookie, CORS, cache, query, injection, and header
//! actions.
use crate::rules::action::{CacheDirective, CacheOp, CookieAttr, CookieOp, CorsOp, InjectMode, InjectOp, InjectTarget, QueryOp, QueryOpView};
use crate::rules::delete::literal_views;
use crate::rules::error::{ModelErrorKind, RuleModelError};
use crate::rules::language::http_token_byte;
use crate::rules::syntax::{parse_value, parse_value_spec, unquote, unquote_spec, ValueFailure};
use crate::rules::value::{opt_value_view, Value, ValueKind, ValueView};
use crate::text::{
    all_digits, chars_of, ci_eq, ci_eq_chars, contains_char, find_char, first_index, is_digit,
    join, join_strings, lit, lower_chars, lower_seq, push_char, seq_eq, slice_vec, split_char,
    split_on, split_once, split_once_exec, string_of, trim, trim_chars, upper,
};
use vstd::prelude::*;

verus! {

/// The identity of an error: its category and context.
pub type ErrId = (ModelErrorKind, &'static str);

/// `e` is the error with identity `id`.
pub open spec fn is_err(e: RuleModelError, id: ErrId) -> bool {
    e.is_error(id.0, id.1)
}

/// The identity of a value-source failure.
pub open spec fn value_err(f: ValueFailure) -> ErrId {
    match f {
        ValueFailure::Unpaired => (ModelErrorKind::InvalidSyntax, "file value"),
        ValueFailure::EmptyPath => (ModelErrorKind::EmptyInput, "file value path"),
        ValueFailure::NulPath => (ModelErrorKind::InvalidInput, "file value path"),
        ValueFailure::BadKey => (ModelErrorKind::InvalidInput, "value key"),
    }
}

/// A value source or the identity of its failure.
pub open spec fn value_result(s: Seq<char>) -> Result<ValueView, ErrId> {
    match parse_value_spec(s) {
        Ok(v) => Ok(v),
        Err(f) => Err(value_err(f)),
    }
}

fn value_of(s: &[char]) -> (r: Result<Value, RuleModelError>)
    ensures
        match (r, value_result(s@)) {
            (Ok(v), Ok(w)) => v@ == w,
            (Err(e), Err(id)) => is_err(e, id),
            _ => false,
        },
{
    let text = string_of(s);
    parse_value(text.as_str())
}

// ---------------------------------------------------------------------------
// Names
// ---------------------------------------------------------------------------

/// `s` equals one of the texts, exactly.
pub open spec fn one_of(s: Seq<char>, names: Seq<Seq<char>>) -> bool {
    names.contains(s)
}

fn is_one_of(s: &[char], names: &Vec<&'static str>) -> (r: bool)
    ensures
        r == one_of(s@, literal_views(names@)),
{
    let mut i: usize = 0;
    while i < names.len()
        invariant
            i <= names@.len(),
            forall|j: int| 0 <= j < i ==> s@ != (#[trigger] names@[j])@,
        decreases names@.len() - i,
    {
        let n = chars_of(names[i]);
        if seq_eq(s, &n) {
            assert(literal_views(names@)[i as int] == s@);
            return true;
        }
        i += 1;
    }
    assert forall|j: int| 0 <= j < names@.len() implies #[trigger] literal_views(names@)[j] != s@ by {
        assert(literal_views(names@)[j] == names@[j]@);
    }
    false
}

fn eq_lit(s: &[char], text: &str) -> (r: bool)
    ensures
        r == (s@ == text@),
{
    let t = chars_of(text);
    seq_eq(s, &t)
}

/// Upper-cases the first character of a piece.
pub open spec fn capitalize(p: Seq<char>) -> Seq<char> {
    if p.len() == 0 {
        p
    } else {
        seq![upper(p[0])] + p.drop_first()
    }
}

/// A `Set-Cookie` attribute name in its usual spelling; unknown names are capitalized at each
/// `-`-separated piece.
pub open spec fn cookie_attr_name(x: Seq<char>) -> Seq<char> {
    let l = lower_seq(trim(x));
    if l == "path"@ {
        "Path"@
    } else if l == "domain"@ {
        "Domain"@
    } else if l == "expires"@ {
        "Expires"@
    } else if l == "max-age"@ || l == "max_age"@ {
        "Max-Age"@
    } else if l == "http-only"@ || l == "httponly"@ {
        "HttpOnly"@
    } else if l == "secure"@ {
        "Secure"@
    } else if l == "samesite"@ || l == "same-site"@ || l == "same_site"@ {
        "SameSite"@
    } else if l == "partitioned"@ {
        "Partitioned"@
    } else if l == "priority"@ {
        "Priority"@
    } else {
        join(split_char(l, '-').map_values(|p: Seq<char>| capitalize(p)), "-"@)
    }
}

fn canonical_cookie_attr_name(name: &[char]) -> (r: String)
    ensures
        r@ == cookie_attr_name(name@),
{
    let t = trim_chars(name);
    let l = lower_chars(&t);
    if eq_lit(&l, "path") {
        return lit("Path");
    }
    if eq_lit(&l, "domain") {
        return lit("Domain");
    }
    if eq_lit(&l, "expires") {
        return lit("Expires");
    }
    if eq_lit(&l, "max-age") || eq_lit(&l, "max_age") {
        return lit("Max-Age");
    }
    if eq_lit(&l, "http-only") || eq_lit(&l, "httponly") {
        return lit("HttpOnly");
    }
    if eq_lit(&l, "secure") {
        return lit("Secure");
    }
    if eq_lit(&l, "samesite") || eq_lit(&l, "same-site") || eq_lit(&l, "same_site") {
        return lit("SameSite");
    }
    if eq_lit(&l, "partitioned") {
        return lit("Partitioned");
    }
    if eq_lit(&l, "priority") {
        return lit("Priority");
    }
    let pieces = split_on(&l, '-');
    let ghost ps = pieces@.map_values(|v: Vec<char>| v@);
    let mut caps: Vec<String> = Vec::new();
    let mut i: usize = 0;
    while i < pieces.len()
        invariant
            i <= pieces@.len(),
            ps == pieces@.map_values(|v: Vec<char>| v@),
            caps@.map_values(|x: String| x@) == ps.take(i as int).map_values(
                |p: Seq<char>| capitalize(p),
            ),
        decreases pieces@.len() - i,
    {
        let p = &pieces[i];
        let mut out = String::new();
        if p.len() > 0 {
            let first = crate::text::char_upper(p[0]);
            push_char(&mut out, first);
            let rest = string_of(&slice_vec(p, 1, p.len()));
            crate::text::append_str(&mut out, rest.as_str());
            assert(out@ =~= capitalize(p@));
        } else {
            assert(out@ =~= capitalize(p@));
        }
        assert(ps[i as int] == p@);
        let ghost before = caps@.map_values(|x: String| x@);
        caps.push(out);
        assert(caps@.map_values(|x: String| x@) =~= before.push(capitalize(ps[i as int])));
        assert(ps.take(i + 1).map_values(|p: Seq<char>| capitalize(p)) =~= ps.take(i as int).map_values(
            |p: Seq<char>| capitalize(p),
        ).push(capitalize(ps[i as int])));
        i += 1;
    }
    assert(ps.take(pieces@.len() as int) == ps);
    assert(crate::text::views(caps@) =~= caps@.map_values(|x: String| x@));
    join_strings(&caps, "-")
}

// ---------------------------------------------------------------------------
// Cookies
// ---------------------------------------------------------------------------

/// A cookie attribute as plain data.
pub type CookieAttrView = (Seq<char>, Option<ValueView>);

/// A cookie mutation as plain data.
pub enum CookieOpView {
    SetValue(Seq<char>, ValueView, Seq<CookieAttrView>),
    Remove(Seq<char>),
}

pub open spec fn cookie_attr_view(a: CookieAttr) -> CookieAttrView {
    (a.name@, opt_value_view(a.value))
}

pub open spec fn cookie_op_view(c: CookieOp) -> CookieOpView {
    match c {
        CookieOp::SetValue { name, value, attrs } => CookieOpView::SetValue(
            name@,
            value@,
            attrs@.map_values(|a: CookieAttr| cookie_attr_view(a)),
        ),
        CookieOp::Remove { name } => CookieOpView::Remove(name@),
    }
}

/// The attributes after the first `;`-separated piece, up to piece `n`.
pub open spec fn cookie_attrs(parts: Seq<Seq<char>>, n: int) -> Result<Seq<CookieAttrView>, ErrId>
    decreases n,
{
    if n <= 1 || n > parts.len() {
        Ok(seq![])
    } else {
        match cookie_attrs(parts, n - 1) {
            Err(e) => Err(e),
            Ok(attrs) => {
                let part = trim(parts[n - 1]);
                if part.len() == 0 {
                    Ok(attrs)
                } else {
                    match split_once(part, '=') {
                        Some((an, av)) => match value_result(av) {
                            Err(e) => Err(e),
                            Ok(v) => if cookie_attr_name(an).len() == 0 {
                                Err((ModelErrorKind::EmptyInput, "cookie attribute name"))
                            } else {
                                Ok(attrs.push((cookie_attr_name(an), Some(v))))
                            },
                        },
                        None => if cookie_attr_name(part).len() == 0 {
                            Err((ModelErrorKind::EmptyInput, "cookie attribute name"))
                        } else {
                            Ok(attrs.push((cookie_attr_name(part), None)))
                        },
                    }
                }
            },
        }
    }
}

/// A cookie operation: `-name` to remove, or `name=value; attr[=value]; ...` to set.
pub open spec fn cookie_spec(s: Seq<char>) -> Result<CookieOpView, ErrId> {
    let t = trim(s);
    if t.len() > 0 && t[0] == '-' {
        let n = trim(t.drop_first());
        if n.len() == 0 {
            Err((ModelErrorKind::MissingArgument, "cookie remove operation"))
        } else {
            Ok(CookieOpView::Remove(n))
        }
    } else {
        let parts = split_char(t, ';');
        let first = trim(parts[0]);
        if first.len() == 0 {
            Err((ModelErrorKind::InvalidSyntax, "cookie operation"))
        } else {
            match split_once(first, '=') {
                None => Err((ModelErrorKind::InvalidSyntax, "cookie operation")),
                Some((n, v)) => if trim(n).len() == 0 {
                    Err((ModelErrorKind::EmptyInput, "cookie name"))
                } else {
                    match cookie_attrs(parts, parts.len() as int) {
                        Err(e) => Err(e),
                        Ok(attrs) => match value_result(v) {
                            Err(e) => Err(e),
                            Ok(val) => Ok(CookieOpView::SetValue(trim(n), val, attrs)),
                        },
                    }
                },
            }
        }
    }
}

proof fn lemma_cookie_attrs_failure(parts: Seq<Seq<char>>, n: int, m: int)
    requires
        1 <= n <= m <= parts.len(),
        cookie_attrs(parts, n) is Err,
    ensures
        cookie_attrs(parts, m) == cookie_attrs(parts, n),
    decreases m - n,
{
    if m > n {
        lemma_cookie_attrs_failure(parts, n, m - 1);
    }
}

fn cookie_error(kind: ModelErrorKind, context: &'static str, message: &str) -> (e: RuleModelError)
    requires
        kind == ModelErrorKind::InvalidSyntax || kind == ModelErrorKind::EmptyInput || kind
            == ModelErrorKind::MissingArgument || kind == ModelErrorKind::InvalidInput || kind
            == ModelErrorKind::UnsupportedInput,
    ensures
        is_err(e, (kind, context)),
{
    match kind {
        ModelErrorKind::InvalidSyntax => RuleModelError::InvalidSyntax { context, message: lit(message) },
        ModelErrorKind::EmptyInput => RuleModelError::EmptyInput { context, message: lit(message) },
        ModelErrorKind::MissingArgument => RuleModelError::MissingArgument {
            context,
            message: lit(message),
        },
        ModelErrorKind::InvalidInput => RuleModelError::InvalidInput { context, message: lit(message) },
        _ => RuleModelError::UnsupportedInput { context, message: lit(message) },
    }
}

fn parse_cookie_attrs(parts: &Vec<Vec<char>>) -> (r: Result<Vec<CookieAttr>, RuleModelError>)
    ensures
        match (r, cookie_attrs(parts@.map_values(|v: Vec<char>| v@), parts@.len() as int)) {
            (Ok(v), Ok(w)) => v@.map_values(|a: CookieAttr| cookie_attr_view(a)) == w,
            (Err(e), Err(id)) => is_err(e, id),
            _ => false,
        },
{
    let ghost ps = parts@.map_values(|v: Vec<char>| v@);
    if parts.len() == 0 {
        let none: Vec<CookieAttr> = Vec::new();
        assert(none@.map_values(|a: CookieAttr| cookie_attr_view(a)) =~= Seq::<CookieAttrView>::empty());
        return Ok(none);
    }
    let mut attrs: Vec<CookieAttr> = Vec::new();
    let mut i: usize = 1;
    assert(attrs@.map_values(|a: CookieAttr| cookie_attr_view(a)) =~= Seq::<CookieAttrView>::empty());
    while i < parts.len()
        invariant
            1 <= i <= parts@.len(),
            ps == parts@.map_values(|v: Vec<char>| v@),
            cookie_attrs(ps, i as int) == Ok::<Seq<CookieAttrView>, ErrId>(
                attrs@.map_values(|a: CookieAttr| cookie_attr_view(a)),
            ),
        decreases parts@.len() - i,
    {
        assert(ps[i as int] == parts@[i as int]@);
        let part = trim_chars(&parts[i]);
        if part.len() > 0 {
            let ghost before = attrs@.map_values(|a: CookieAttr| cookie_attr_view(a));
            match split_once_exec(&part, '=') {
                Some((an, av)) => {
                    let value = match value_of(&av) {
                        Ok(v) => v,
                        Err(e) => {
                            proof {
                                assert(cookie_attrs(ps, i + 1) == Err::<Seq<CookieAttrView>, ErrId>(
                                    value_result(av@)->Err_0,
                                ));
                                lemma_cookie_attrs_failure(ps, i + 1, ps.len() as int);
                            }
                            return Err(e);
                        },
                    };
                    let cn = canonical_cookie_attr_name(&an);
                    if cn.as_str().is_empty() {
                        proof {
                            assert(cookie_attrs(ps, i + 1) == Err::<Seq<CookieAttrView>, ErrId>(
                                (ModelErrorKind::EmptyInput, "cookie attribute name"),
                            ));
                            lemma_cookie_attrs_failure(ps, i + 1, ps.len() as int);
                        }
                        return Err(cookie_error(
                            ModelErrorKind::EmptyInput,
                            "cookie attribute name",
                            "cookie attribute name is empty",
                        ));
                    }
                    attrs.push(CookieAttr { name: cn, value: Some(value) });
                },
                None => {
                    let cn = canonical_cookie_attr_name(&part);
                    if cn.as_str().is_empty() {
                        proof {
                            assert(cookie_attrs(ps, i + 1) == Err::<Seq<CookieAttrView>, ErrId>(
                                (ModelErrorKind::EmptyInput, "cookie attribute name"),
                            ));
                            lemma_cookie_attrs_failure(ps, i + 1, ps.len() as int);
                        }
                        return Err(cookie_error(
                            ModelErrorKind::EmptyInput,
                            "cookie attribute name",
                            "cookie attribute name is empty",
                        ));
                    }
                    attrs.push(CookieAttr { name: cn, value: None });
                },
            }
            assert(attrs@.map_values(|a: CookieAttr| cookie_attr_view(a)) =~= before.push(
                cookie_attr_view(attrs@.last()),
            ));
        }
        i += 1;
    }
    Ok(attrs)
}

/// Parses a request or response cookie operation.
pub fn parse_cookie_op(input: &str) -> (r: Result<CookieOp, RuleModelError>)
    ensures
        match (r, cookie_spec(input@)) {
            (Ok(c), Ok(v)) => cookie_op_view(c) == v,
            (Err(e), Err(id)) => is_err(e, id),
            _ => false,
        },
{
    let s = chars_of(input);
    let t = trim_chars(&s);
    if t.len() > 0 && t[0] == '-' {
        let rest = slice_vec(&t, 1, t.len());
        assert(rest@ == t@.drop_first());
        let n = trim_chars(&rest);
        if n.len() == 0 {
            return Err(cookie_error(
                ModelErrorKind::MissingArgument,
                "cookie remove operation",
                "cookie remove op needs a name",
            ));
        }
        return Ok(CookieOp::Remove { name: string_of(&n) });
    }
    let parts = split_on(&t, ';');
    let ghost ps = parts@.map_values(|v: Vec<char>| v@);
    proof {
        crate::text::lemma_split_nonempty(t@, ';');
    }
    assert(ps[0] == parts@[0]@);
    let first = trim_chars(&parts[0]);
    if first.len() == 0 {
        return Err(cookie_error(
            ModelErrorKind::InvalidSyntax,
            "cookie operation",
            "cookie op must be `name=value` or `-name`",
        ));
    }
    let (n, v) = match split_once_exec(&first, '=') {
        Some(p) => p,
        None => {
            return Err(cookie_error(
                ModelErrorKind::InvalidSyntax,
                "cookie operation",
                "cookie op must be `name=value` or `-name`",
            ));
        },
    };
    let name = trim_chars(&n);
    if name.len() == 0 {
        return Err(cookie_error(ModelErrorKind::EmptyInput, "cookie name", "cookie name is empty"));
    }
    let attrs = parse_cookie_attrs(&parts)?;
    let value = value_of(&v)?;
    Ok(CookieOp::SetValue { name: string_of(&name), value, attrs })
}

// ---------------------------------------------------------------------------
// Booleans, cache directives
// ---------------------------------------------------------------------------

/// A boolean option: `true`/`yes`/`1`/`on` or `false`/`no`/`0`/`off`, any case.
pub open spec fn bool_spec(s: Seq<char>) -> Option<bool> {
    let l = lower_seq(trim(s));
    if l == "true"@ || l == "yes"@ || l == "1"@ || l == "on"@ {
        Some(true)
    } else if l == "false"@ || l == "no"@ || l == "0"@ || l == "off"@ {
        Some(false)
    } else {
        None
    }
}

/// Parses a boolean option named `field`.
pub fn parse_bool(input: &str, field: &str) -> (r: Result<bool, RuleModelError>)
    ensures
        match (r, bool_spec(input@)) {
            (Ok(b), Some(c)) => b == c,
            (Err(e), None) => is_err(e, (ModelErrorKind::InvalidInput, "boolean option")),
            _ => false,
        },
{
    let s = chars_of(input);
    let t = trim_chars(&s);
    let l = lower_chars(&t);
    if eq_lit(&l, "true") || eq_lit(&l, "yes") || eq_lit(&l, "1") || eq_lit(&l, "on") {
        return Ok(true);
    }
    if eq_lit(&l, "false") || eq_lit(&l, "no") || eq_lit(&l, "0") || eq_lit(&l, "off") {
        return Ok(false);
    }
    Err(RuleModelError::InvalidInput {
        context: "boolean option",
        message: crate::text::concat(field, " must be true or false"),
    })
}

/// A `Cache-Control` directive name in its standard spelling.
pub open spec fn cache_name(x: Seq<char>) -> Seq<char> {
    let l = lower_seq(trim(x));
    if l == "max_age"@ {
        "max-age"@
    } else if l == "s_maxage"@ || l == "s-max-age"@ {
        "s-maxage"@
    } else if l == "stale_while_revalidate"@ || l == "stale-while-revalidate"@ {
        "stale-while-revalidate"@
    } else if l == "stale_if_error"@ || l == "stale-if-error"@ {
        "stale-if-error"@
    } else if l == "must_revalidate"@ || l == "must-revalidate"@ {
        "must-revalidate"@
    } else if l == "proxy_revalidate"@ || l == "proxy-revalidate"@ {
        "proxy-revalidate"@
    } else if l == "no_cache"@ || l == "no-cache"@ {
        "no-cache"@
    } else if l == "no_store"@ || l == "no-store"@ {
        "no-store"@
    } else if l == "no_transform"@ || l == "no-transform"@ {
        "no-transform"@
    } else {
        l
    }
}

fn canonical_cache_directive_name(name: &[char]) -> (r: String)
    ensures
        r@ == cache_name(name@),
{
    let t = trim_chars(name);
    let l = lower_chars(&t);
    if eq_lit(&l, "max_age") {
        return lit("max-age");
    }
    if eq_lit(&l, "s_maxage") || eq_lit(&l, "s-max-age") {
        return lit("s-maxage");
    }
    if eq_lit(&l, "stale_while_revalidate") || eq_lit(&l, "stale-while-revalidate") {
        return lit("stale-while-revalidate");
    }
    if eq_lit(&l, "stale_if_error") || eq_lit(&l, "stale-if-error") {
        return lit("stale-if-error");
    }
    if eq_lit(&l, "must_revalidate") || eq_lit(&l, "must-revalidate") {
        return lit("must-revalidate");
    }
    if eq_lit(&l, "proxy_revalidate") || eq_lit(&l, "proxy-revalidate") {
        return lit("proxy-revalidate");
    }
    if eq_lit(&l, "no_cache") || eq_lit(&l, "no-cache") {
        return lit("no-cache");
    }
    if eq_lit(&l, "no_store") || eq_lit(&l, "no-store") {
        return lit("no-store");
    }
    if eq_lit(&l, "no_transform") || eq_lit(&l, "no-transform") {
        return lit("no-transform");
    }
    string_of(&l)
}

/// A cache directive as plain data.
pub type CacheDirectiveView = (Seq<char>, Option<ValueView>);

pub open spec fn cache_directive_view(d: CacheDirective) -> CacheDirectiveView {
    (d.name@, opt_value_view(d.value))
}

/// A caching policy as plain data: `None` for `off`, else the directives.
pub open spec fn cache_op_view(c: CacheOp) -> Option<Seq<CacheDirectiveView>> {
    match c {
        CacheOp::Off => None,
        CacheOp::Directives(ds) => Some(ds@.map_values(|d: CacheDirective| cache_directive_view(d))),
    }
}

/// The directives of the first `n` cache arguments: blank ones are skipped, a bare number is
/// `max-age`, and `name[=value]` gives a named directive.
pub open spec fn cache_dirs(args: Seq<Seq<char>>, n: int) -> Result<Seq<CacheDirectiveView>, ErrId>
    decreases n,
{
    if n <= 0 || n > args.len() {
        Ok(seq![])
    } else {
        match cache_dirs(args, n - 1) {
            Err(e) => Err(e),
            Ok(ds) => {
                let a = trim(args[n - 1]);
                if a.len() == 0 {
                    Ok(ds)
                } else if all_digits(a) {
                    Ok(ds.push(("max-age"@, Some((ValueKind::Inline, a)))))
                } else {
                    match split_once(a, '=') {
                        Some((nm, v)) => match value_result(v) {
                            Err(e) => Err(e),
                            Ok(val) => if cache_name(nm).len() == 0 {
                                Err((ModelErrorKind::EmptyInput, "cache directive name"))
                            } else {
                                Ok(ds.push((cache_name(nm), Some(val))))
                            },
                        },
                        None => if cache_name(a).len() == 0 {
                            Err((ModelErrorKind::EmptyInput, "cache directive name"))
                        } else {
                            Ok(ds.push((cache_name(a), None)))
                        },
                    }
                }
            },
        }
    }
}

/// A `cache(...)` policy: `off` alone, or at least one directive.
pub open spec fn cache_spec(args: Seq<Seq<char>>) -> Result<Option<Seq<CacheDirectiveView>>, ErrId> {
    if args.len() == 0 {
        Err((ModelErrorKind::MissingArgument, "cache action"))
    } else if args.len() == 1 && ci_eq(trim(args[0]), "off"@) {
        Ok(None)
    } else {
        match cache_dirs(args, args.len() as int) {
            Err(e) => Err(e),
            Ok(ds) => if ds.len() == 0 {
                Err((ModelErrorKind::MissingArgument, "cache action"))
            } else {
                Ok(Some(ds))
            },
        }
    }
}

proof fn lemma_cache_dirs_failure(args: Seq<Seq<char>>, n: int, m: int)
    requires
        0 <= n <= m <= args.len(),
        cache_dirs(args, n) is Err,
    ensures
        cache_dirs(args, m) == cache_dirs(args, n),
    decreases m - n,
{
    if m > n {
        lemma_cache_dirs_failure(args, n, m - 1);
    }
}

fn all_digit_chars(s: &[char]) -> (r: bool)
    ensures
        r == all_digits(s@),
{
    let mut i: usize = 0;
    while i < s.len()
        invariant
            i <= s@.len(),
            forall|j: int| 0 <= j < i ==> is_digit(#[trigger] s@[j]),
        decreases s@.len() - i,
    {
        if !('0' <= s[i] && s[i] <= '9') {
            return false;
        }
        i += 1;
    }
    true
}

fn parse_cache_dirs(args: &[String]) -> (r: Result<Vec<CacheDirective>, RuleModelError>)
    ensures
        match (r, cache_dirs(args@.map_values(|x: String| x@), args@.len() as int)) {
            (Ok(v), Ok(w)) => v@.map_values(|d: CacheDirective| cache_directive_view(d)) == w,
            (Err(e), Err(id)) => is_err(e, id),
            _ => false,
        },
{
    let ghost a = args@.map_values(|x: String| x@);
    let mut directives: Vec<CacheDirective> = Vec::new();
    let mut i: usize = 0;
    assert(directives@.map_values(|d: CacheDirective| cache_directive_view(d)) =~= Seq::<
        CacheDirectiveView,
    >::empty());
    while i < args.len()
        invariant
            i <= args@.len(),
            a == args@.map_values(|x: String| x@),
            cache_dirs(a, i as int) == Ok::<Seq<CacheDirectiveView>, ErrId>(
                directives@.map_values(|d: CacheDirective| cache_directive_view(d)),
            ),
        decreases args@.len() - i,
    {
        assert(a[i as int] == args@[i as int]@);
        let arg = trim_chars(&chars_of(args[i].as_str()));
        if arg.len() > 0 {
            let ghost before = directives@.map_values(|d: CacheDirective| cache_directive_view(d));
            if all_digit_chars(&arg) {
                let text = string_of(&arg);
                directives.push(
                    CacheDirective { name: lit("max-age"), value: Some(Value::inline(text.as_str())) },
                );
            } else {
                match split_once_exec(&arg, '=') {
                    Some((nm, v)) => {
                        let value = match value_of(&v) {
                            Ok(x) => x,
                            Err(e) => {
                                proof {
                                    assert(cache_dirs(a, i + 1) == Err::<Seq<CacheDirectiveView>, ErrId>(
                                        value_result(v@)->Err_0,
                                    ));
                                    lemma_cache_dirs_failure(a, i + 1, a.len() as int);
                                }
                                return Err(e);
                            },
                        };
                        let name = canonical_cache_directive_name(&nm);
                        if name.as_str().is_empty() {
                            proof {
                                assert(cache_dirs(a, i + 1) == Err::<Seq<CacheDirectiveView>, ErrId>(
                                    (ModelErrorKind::EmptyInput, "cache directive name"),
                                ));
                                lemma_cache_dirs_failure(a, i + 1, a.len() as int);
                            }
                            return Err(cookie_error(
                                ModelErrorKind::EmptyInput,
                                "cache directive name",
                                "cache directive name is empty",
                            ));
                        }
                        directives.push(CacheDirective { name, value: Some(value) });
                    },
                    None => {
                        let name = canonical_cache_directive_name(&arg);
                        if name.as_str().is_empty() {
                            proof {
                                assert(cache_dirs(a, i + 1) == Err::<Seq<CacheDirectiveView>, ErrId>(
                                    (ModelErrorKind::EmptyInput, "cache directive name"),
                                ));
                                lemma_cache_dirs_failure(a, i + 1, a.len() as int);
                            }
                            return Err(cookie_error(
                                ModelErrorKind::EmptyInput,
                                "cache directive name",
                                "cache directive name is empty",
                            ));
                        }
                        directives.push(CacheDirective { name, value: None });
                    },
                }
            }
            assert(directives@.map_values(|d: CacheDirective| cache_directive_view(d)) =~= before.push(
                cache_directive_view(directives@.last()),
            ));
        }
        i += 1;
    }
    Ok(directives)
}

/// Parses the arguments of `cache(...)`.
pub fn parse_cache_op(args: &[String]) -> (r: Result<CacheOp, RuleModelError>)
    ensures
        match (r, cache_spec(args@.map_values(|x: String| x@))) {
            (Ok(c), Ok(v)) => cache_op_view(c) == v,
            (Err(e), Err(id)) => is_err(e, id),
            _ => false,
        },
{
    let ghost a = args@.map_values(|x: String| x@);
    if args.len() == 0 {
        return Err(cookie_error(
            ModelErrorKind::MissingArgument,
            "cache action",
            "cache requires at least one directive",
        ));
    }
    if args.len() == 1 {
        assert(a[0] == args@[0]@);
        let t = trim_chars(&chars_of(args[0].as_str()));
        if ci_eq_chars(&t, &chars_of("off")) {
            return Ok(CacheOp::Off);
        }
    }
    let directives = parse_cache_dirs(args)?;
    assert(directives@.map_values(|d: CacheDirective| cache_directive_view(d)).len() == directives@.len());
    if directives.len() == 0 {
        return Err(cookie_error(
            ModelErrorKind::MissingArgument,
            "cache action",
            "cache requires at least one directive",
        ));
    }
    Ok(CacheOp::Directives(directives))
}


// ---------------------------------------------------------------------------
// CORS
// ---------------------------------------------------------------------------

/// The options of `res.cors(...)` gathered so far.
pub struct CorsView {
    pub origin: Option<ValueView>,
    pub methods: Option<ValueView>,
    pub headers: Option<ValueView>,
    pub credentials: Option<bool>,
    pub expose: Option<ValueView>,
    pub max_age: Option<ValueView>,
}

pub open spec fn cors_empty() -> CorsView {
    CorsView {
        origin: None,
        methods: None,
        headers: None,
        credentials: None,
        expose: None,
        max_age: None,
    }
}

pub open spec fn cors_view(c: CorsOp) -> CorsView {
    CorsView {
        origin: Some(c.origin@),
        methods: opt_value_view(c.methods),
        headers: opt_value_view(c.headers),
        credentials: c.credentials,
        expose: opt_value_view(c.expose),
        max_age: opt_value_view(c.max_age),
    }
}

/// One `res.cors` argument applied to the options: a bare first argument is the origin, others
/// are `key=value` with the keys `origin`, `methods`, `headers`, `credentials`, `expose`, and
/// `max-age` (and their `allow-`/`expose-`/`_` spellings).
pub open spec fn cors_step(args: Seq<Seq<char>>, st: CorsView, idx: int) -> Result<CorsView, ErrId> {
    cors_arg_spec(trim(args[idx]), idx == 0, st)
}

/// One trimmed `res.cors` argument applied to the options.
pub open spec fn cors_arg_spec(a: Seq<char>, first: bool, st: CorsView) -> Result<CorsView, ErrId> {
    if a.len() == 0 {
        Ok(st)
    } else if first && !a.contains('=') {
        match value_result(a) {
            Ok(v) => Ok(CorsView { origin: Some(v), ..st }),
            Err(e) => Err(e),
        }
    } else {
        match split_once(a, '=') {
            None => Err((ModelErrorKind::InvalidSyntax, "res.cors argument")),
            Some((k, v)) => {
                let key = lower_seq(trim(k));
                if key == "origin"@ || key == "allow-origin"@ {
                    match value_result(v) {
                        Ok(x) => Ok(CorsView { origin: Some(x), ..st }),
                        Err(e) => Err(e),
                    }
                } else if key == "methods"@ || key == "allow-methods"@ {
                    match value_result(v) {
                        Ok(x) => Ok(CorsView { methods: Some(x), ..st }),
                        Err(e) => Err(e),
                    }
                } else if key == "headers"@ || key == "allow-headers"@ {
                    match value_result(v) {
                        Ok(x) => Ok(CorsView { headers: Some(x), ..st }),
                        Err(e) => Err(e),
                    }
                } else if key == "credentials"@ || key == "allow-credentials"@ {
                    match bool_spec(unquote_spec(v)) {
                        Some(b) => Ok(CorsView { credentials: Some(b), ..st }),
                        None => Err((ModelErrorKind::InvalidInput, "boolean option")),
                    }
                } else if key == "expose"@ || key == "expose-headers"@ {
                    match value_result(v) {
                        Ok(x) => Ok(CorsView { expose: Some(x), ..st }),
                        Err(e) => Err(e),
                    }
                } else if key == "max-age"@ || key == "max_age"@ {
                    match value_result(v) {
                        Ok(x) => Ok(CorsView { max_age: Some(x), ..st }),
                        Err(e) => Err(e),
                    }
                } else {
                    Err((ModelErrorKind::UnsupportedInput, "res.cors argument"))
                }
            },
        }
    }
}

/// The options after the first `n` arguments.
pub open spec fn cors_run(args: Seq<Seq<char>>, n: int) -> Result<CorsView, ErrId>
    decreases n,
{
    if n <= 0 || n > args.len() {
        Ok(cors_empty())
    } else {
        match cors_run(args, n - 1) {
            Err(e) => Err(e),
            Ok(st) => cors_step(args, st, n - 1),
        }
    }
}

/// A CORS policy: its options, of which an origin is required.
pub open spec fn cors_spec(args: Seq<Seq<char>>) -> Result<CorsView, ErrId> {
    if args.len() == 0 {
        Err((ModelErrorKind::MissingArgument, "res.cors action"))
    } else {
        match cors_run(args, args.len() as int) {
            Err(e) => Err(e),
            Ok(st) => if st.origin is None {
                Err((ModelErrorKind::MissingArgument, "res.cors origin"))
            } else {
                Ok(st)
            },
        }
    }
}

proof fn lemma_cors_failure(args: Seq<Seq<char>>, n: int, m: int)
    requires
        0 <= n <= m <= args.len(),
        cors_run(args, n) is Err,
    ensures
        cors_run(args, m) == cors_run(args, n),
    decreases m - n,
{
    if m > n {
        lemma_cors_failure(args, n, m - 1);
    }
}

pub open spec fn opt_views(o: Option<Value>) -> Option<ValueView> {
    opt_value_view(o)
}

/// The options of `res.cors(...)` gathered so far.
struct CorsOptions {
    origin: Option<Value>,
    methods: Option<Value>,
    headers: Option<Value>,
    credentials: Option<bool>,
    expose: Option<Value>,
    max_age: Option<Value>,
}

impl View for CorsOptions {
    type V = CorsView;

    closed spec fn view(&self) -> CorsView {
        CorsView {
            origin: opt_views(self.origin),
            methods: opt_views(self.methods),
            headers: opt_views(self.headers),
            credentials: self.credentials,
            expose: opt_views(self.expose),
            max_age: opt_views(self.max_age),
        }
    }
}

fn cors_apply(arg: &[char], first: bool, st: &mut CorsOptions) -> (r: Result<(), RuleModelError>)
    ensures
        match (r, cors_arg_spec(arg@, first, old(st)@)) {
            (Ok(()), Ok(v)) => final(st)@ == v,
            (Err(e), Err(id)) => is_err(e, id),
            _ => false,
        },
{
    if arg.len() == 0 {
        return Ok(());
    }
    if first && !contains_char(arg, '=') {
        st.origin = Some(value_of(arg)?);
        return Ok(());
    }
    let (k, v) = match split_once_exec(arg, '=') {
        Some(p) => p,
        None => {
            return Err(cookie_error(
                ModelErrorKind::InvalidSyntax,
                "res.cors argument",
                "res.cors detailed arguments must be key=value",
            ));
        },
    };
    let key = lower_chars(&trim_chars(&k));
    if eq_lit(&key, "origin") || eq_lit(&key, "allow-origin") {
        st.origin = Some(value_of(&v)?);
    } else if eq_lit(&key, "methods") || eq_lit(&key, "allow-methods") {
        st.methods = Some(value_of(&v)?);
    } else if eq_lit(&key, "headers") || eq_lit(&key, "allow-headers") {
        st.headers = Some(value_of(&v)?);
    } else if eq_lit(&key, "credentials") || eq_lit(&key, "allow-credentials") {
        let text = string_of(&v);
        let uq = unquote(text.as_str());
        st.credentials = Some(parse_bool(uq.as_str(), "res.cors credentials")?);
    } else if eq_lit(&key, "expose") || eq_lit(&key, "expose-headers") {
        st.expose = Some(value_of(&v)?);
    } else if eq_lit(&key, "max-age") || eq_lit(&key, "max_age") {
        st.max_age = Some(value_of(&v)?);
    } else {
        let kt = string_of(&key);
        return Err(RuleModelError::UnsupportedInput {
            context: "res.cors argument",
            message: crate::text::concat3("unknown res.cors argument `", kt.as_str(), "`"),
        });
    }
    Ok(())
}

/// Parses the arguments of `res.cors(...)`.
pub fn parse_cors_op(args: &[String]) -> (r: Result<CorsOp, RuleModelError>)
    ensures
        match (r, cors_spec(args@.map_values(|x: String| x@))) {
            (Ok(c), Ok(v)) => cors_view(c) == v,
            (Err(e), Err(id)) => is_err(e, id),
            _ => false,
        },
{
    let ghost a = args@.map_values(|x: String| x@);
    if args.len() == 0 {
        return Err(cookie_error(
            ModelErrorKind::MissingArgument,
            "res.cors action",
            "res.cors requires at least an origin",
        ));
    }
    let mut st = CorsOptions {
        origin: None,
        methods: None,
        headers: None,
        credentials: None,
        expose: None,
        max_age: None,
    };
    let mut i: usize = 0;
    while i < args.len()
        invariant
            i <= args@.len(),
            args@.len() > 0,
            a == args@.map_values(|x: String| x@),
            cors_run(a, i as int) == Ok::<CorsView, ErrId>(st@),
        decreases args@.len() - i,
    {
        assert(a[i as int] == args@[i as int]@);
        let arg = trim_chars(&chars_of(args[i].as_str()));
        match cors_apply(&arg, i == 0, &mut st) {
            Ok(()) => {},
            Err(e) => {
                proof {
                    lemma_cors_failure(a, i + 1, a.len() as int);
                }
                return Err(e);
            },
        }
        i += 1;
    }
    match st.origin {
        Some(o) => Ok(
            CorsOp {
                origin: o,
                methods: st.methods,
                headers: st.headers,
                credentials: st.credentials,
                expose: st.expose,
                max_age: st.max_age,
            },
        ),
        None => Err(cookie_error(
            ModelErrorKind::MissingArgument,
            "res.cors origin",
            "res.cors requires an origin",
        )),
    }
}

// ---------------------------------------------------------------------------
// Query operations and injections
// ---------------------------------------------------------------------------

/// The operations of the first `n` `url.query` arguments: `-name` removes, `name=value` sets.
pub open spec fn query_run(args: Seq<Seq<char>>, n: int) -> Result<Seq<QueryOpView>, ErrId>
    decreases n,
{
    if n <= 0 || n > args.len() {
        Ok(seq![])
    } else {
        match query_run(args, n - 1) {
            Err(e) => Err(e),
            Ok(ops) => {
                let a = trim(args[n - 1]);
                if a.len() > 0 && a[0] == '-' {
                    let name = trim(a.drop_first());
                    if name.len() == 0 {
                        Err((ModelErrorKind::MissingArgument, "url.query remove operation"))
                    } else {
                        Ok(ops.push((name, None)))
                    }
                } else {
                    match split_once(a, '=') {
                        None => Err((ModelErrorKind::InvalidSyntax, "url.query operation")),
                        Some((k, v)) => if trim(k).len() == 0 {
                            Err((ModelErrorKind::EmptyInput, "url.query name"))
                        } else {
                            match value_result(v) {
                                Ok(x) => Ok(ops.push((trim(k), Some(x)))),
                                Err(e) => Err(e),
                            }
                        },
                    }
                }
            },
        }
    }
}

/// The operations of `url.query(...)`.
pub open spec fn query_spec(args: Seq<Seq<char>>) -> Result<Seq<QueryOpView>, ErrId> {
    if args.len() == 0 {
        Err((ModelErrorKind::MissingArgument, "url.query action"))
    } else {
        query_run(args, args.len() as int)
    }
}

proof fn lemma_query_failure(args: Seq<Seq<char>>, n: int, m: int)
    requires
        0 <= n <= m <= args.len(),
        query_run(args, n) is Err,
    ensures
        query_run(args, m) == query_run(args, n),
    decreases m - n,
{
    if m > n {
        lemma_query_failure(args, n, m - 1);
    }
}

/// Parses the arguments of `url.query(...)`.
pub fn parse_query_ops(args: &[String]) -> (r: Result<Vec<QueryOp>, RuleModelError>)
    ensures
        match (r, query_spec(args@.map_values(|x: String| x@))) {
            (Ok(v), Ok(w)) => v@.map_values(|q: QueryOp| q@) == w,
            (Err(e), Err(id)) => is_err(e, id),
            _ => false,
        },
{
    let ghost a = args@.map_values(|x: String| x@);
    if args.len() == 0 {
        return Err(cookie_error(
            ModelErrorKind::MissingArgument,
            "url.query action",
            "url.query requires at least one operation",
        ));
    }
    let mut ops: Vec<QueryOp> = Vec::new();
    let mut i: usize = 0;
    assert(ops@.map_values(|q: QueryOp| q@) =~= Seq::<QueryOpView>::empty());
    while i < args.len()
        invariant
            i <= args@.len(),
            args@.len() > 0,
            a == args@.map_values(|x: String| x@),
            query_run(a, i as int) == Ok::<Seq<QueryOpView>, ErrId>(ops@.map_values(|q: QueryOp| q@)),
        decreases args@.len() - i,
    {
        assert(a[i as int] == args@[i as int]@);
        let arg = trim_chars(&chars_of(args[i].as_str()));
        let ghost before = ops@.map_values(|q: QueryOp| q@);
        if arg.len() > 0 && arg[0] == '-' {
            let rest = slice_vec(&arg, 1, arg.len());
            assert(rest@ == arg@.drop_first());
            let name = trim_chars(&rest);
            if name.len() == 0 {
                proof {
                    lemma_query_failure(a, i + 1, a.len() as int);
                }
                return Err(cookie_error(
                    ModelErrorKind::MissingArgument,
                    "url.query remove operation",
                    "url.query remove op needs a name",
                ));
            }
            ops.push(QueryOp::Remove { name: string_of(&name) });
        } else {
            let (k, v) = match split_once_exec(&arg, '=') {
                Some(p) => p,
                None => {
                    proof {
                        lemma_query_failure(a, i + 1, a.len() as int);
                    }
                    return Err(cookie_error(
                        ModelErrorKind::InvalidSyntax,
                        "url.query operation",
                        "url.query op must be `k=v` or `-k`",
                    ));
                },
            };
            let name = trim_chars(&k);
            if name.len() == 0 {
                proof {
                    lemma_query_failure(a, i + 1, a.len() as int);
                }
                return Err(cookie_error(
                    ModelErrorKind::EmptyInput,
                    "url.query name",
                    "url.query name is empty",
                ));
            }
            let value = match value_of(&v) {
                Ok(x) => x,
                Err(e) => {
                    proof {
                        lemma_query_failure(a, i + 1, a.len() as int);
                    }
                    return Err(e);
                },
            };
            ops.push(QueryOp::SetValue { name: string_of(&name), value });
        }
        assert(ops@.map_values(|q: QueryOp| q@) =~= before.push(ops@.last()@));
        i += 1;
    }
    Ok(ops)
}

/// An injection as plain data.
pub type InjectView = (InjectTarget, ValueView, InjectMode);

/// An injection: target, value, and optional placement.
pub open spec fn inject_spec(args: Seq<Seq<char>>) -> Result<InjectView, ErrId> {
    if args.len() < 2 || args.len() > 3 {
        Err((ModelErrorKind::MissingArgument, "inject action"))
    } else {
        let t = lower_seq(trim(args[0]));
        let target = if t == "html"@ {
            Some(InjectTarget::Html)
        } else if t == "js"@ || t == "javascript"@ {
            Some(InjectTarget::Js)
        } else if t == "css"@ {
            Some(InjectTarget::Css)
        } else {
            None
        };
        let m = if args.len() == 3 {
            lower_seq(trim(args[2]))
        } else {
            "append"@
        };
        let mode = if m == "append"@ {
            Some(InjectMode::Append)
        } else if m == "prepend"@ {
            Some(InjectMode::Prepend)
        } else if m == "replace"@ {
            Some(InjectMode::Replace)
        } else {
            None
        };
        if target is None {
            Err((ModelErrorKind::UnsupportedInput, "inject target"))
        } else if mode is None {
            Err((ModelErrorKind::UnsupportedInput, "inject mode"))
        } else {
            match value_result(args[1]) {
                Ok(v) => Ok((target->0, v, mode->0)),
                Err(e) => Err(e),
            }
        }
    }
}

/// Parses the arguments of `inject(...)`.
pub fn parse_inject_op(args: &[String]) -> (r: Result<InjectOp, RuleModelError>)
    ensures
        match (r, inject_spec(args@.map_values(|x: String| x@))) {
            (Ok(op), Ok(v)) => (op.target, op.value@, op.mode) == v,
            (Err(e), Err(id)) => is_err(e, id),
            _ => false,
        },
{
    let ghost a = args@.map_values(|x: String| x@);
    if args.len() < 2 || args.len() > 3 {
        return Err(cookie_error(
            ModelErrorKind::MissingArgument,
            "inject action",
            "inject requires target, value, and optional mode",
        ));
    }
    assert(a[0] == args@[0]@);
    assert(a[1] == args@[1]@);
    let t = lower_chars(&trim_chars(&chars_of(args[0].as_str())));
    let target = if eq_lit(&t, "html") {
        InjectTarget::Html
    } else if eq_lit(&t, "js") || eq_lit(&t, "javascript") {
        InjectTarget::Js
    } else if eq_lit(&t, "css") {
        InjectTarget::Css
    } else {
        let tt = string_of(&t);
        return Err(RuleModelError::UnsupportedInput {
            context: "inject target",
            message: crate::text::concat3("unsupported inject target `", tt.as_str(), "`"),
        });
    };
    let mode = if args.len() == 3 {
        assert(a[2] == args@[2]@);
        let m = lower_chars(&trim_chars(&chars_of(args[2].as_str())));
        if eq_lit(&m, "append") {
            InjectMode::Append
        } else if eq_lit(&m, "prepend") {
            InjectMode::Prepend
        } else if eq_lit(&m, "replace") {
            InjectMode::Replace
        } else {
            let mt = string_of(&m);
            return Err(RuleModelError::UnsupportedInput {
                context: "inject mode",
                message: crate::text::concat3("unsupported inject mode `", mt.as_str(), "`"),
            });
        }
    } else {
        proof {
            reveal_strlit("append");
        }
        InjectMode::Append
    };
    let value = parse_value(args[1].as_str())?;
    Ok(InjectOp { target, value, mode })
}

// ---------------------------------------------------------------------------
// Header names and replacement expressions
// ---------------------------------------------------------------------------

/// An ASCII HTTP token character.
pub open spec fn token_char(c: char) -> bool {
    (c as u32) < 128 && http_token_byte((c as u32) as u8)
}

/// A header name: trimmed, non-empty, all token characters; stored in lowercase.
pub open spec fn header_name_spec(s: Seq<char>) -> Option<Seq<char>> {
    let t = trim(s);
    if t.len() == 0 || exists|i: int| 0 <= i < t.len() && !token_char(t[i]) {
        None
    } else {
        Some(lower_seq(t))
    }
}

/// Normalizing a header name is idempotent: a normalized name normalizes to itself.
pub proof fn law_header_name_normalization_is_idempotent(s: Seq<char>)
    ensures
        header_name_spec(s) matches Some(n) ==> header_name_spec(n) == Some(n),
{
    if let Some(n) = header_name_spec(s) {
        let t = trim(s);
        assert(n == lower_seq(t));
        assert forall|i: int| 0 <= i < t.len() implies token_char(#[trigger] t[i]) && token_char(n[i])
            && !crate::text::is_ws(n[i]) && crate::text::lower(n[i]) == n[i] by {
            if !token_char(t[i]) {
                assert(exists|j: int| 0 <= j < t.len() && !token_char(t[j]));
            }
            let c = t[i];
            if 'A' <= c && c <= 'Z' {
                assert((c as u32) + 32 >= 97 && (c as u32) + 32 <= 122);
            }
        }
        assert(n.len() > 0);
        assert(!crate::text::is_ws(n[0]));
        assert(crate::text::trim_start(n) == n);
        assert(!crate::text::is_ws(n.last()));
        assert(crate::text::trim_end(n) == n);
        assert(trim(n) == n);
        assert(lower_seq(n) =~= n);
    }
}

/// Validates and lowercases an HTTP header name.
pub fn normalize_header_name(input: &str) -> (r: Result<String, RuleModelError>)
    ensures
        match (r, header_name_spec(input@)) {
            (Ok(n), Some(m)) => n@ == m,
            (Err(e), None) => is_err(e, (ModelErrorKind::InvalidInput, "header name")),
            _ => false,
        },
{
    let t = trim_chars(&chars_of(input));
    let mut ok = t.len() > 0;
    let mut i: usize = 0;
    while i < t.len()
        invariant
            i <= t@.len(),
            ok == (t@.len() > 0 && forall|j: int| 0 <= j < i ==> token_char(#[trigger] t@[j])),
        decreases t@.len() - i,
    {
        let c = t[i];
        let v = c as u32;
        if !(v < 128 && crate::rules::language::is_http_token_byte(v as u8)) {
            ok = false;
        }
        i += 1;
    }
    if !ok {
        let name = string_of(&t);
        return Err(RuleModelError::InvalidInput {
            context: "header name",
            message: crate::text::concat3(
                "invalid header name `",
                name.as_str(),
                "`; use an unquoted HTTP header name such as `x-debug`",
            ),
        });
    }
    Ok(string_of(&lower_chars(&t)))
}

/// The name and expression around the first `~`, unless a `:` comes before it.
pub open spec fn replace_parts_spec(s: Seq<char>) -> Option<(Seq<char>, Seq<char>)> {
    match first_index(s, '~') {
        None => None,
        Some(t) => match first_index(s, ':') {
            Some(c) => if c < t {
                None
            } else {
                Some((s.take(t), s.skip(t + 1)))
            },
            None => Some((s.take(t), s.skip(t + 1))),
        },
    }
}

/// Splits `name ~ expression` at the first `~`, unless a `:` comes before it.
pub fn header_replace_parts(input: &[char]) -> (r: Option<(Vec<char>, Vec<char>)>)
    ensures
        match (r, replace_parts_spec(input@)) {
            (Some((a, b)), Some((x, y))) => a@ == x && b@ == y,
            (None, None) => true,
            _ => false,
        },
{
    let tilde = match find_char(input, '~') {
        Some(t) => t,
        None => {
            return None;
        },
    };
    if let Some(c) = find_char(input, ':') {
        if c < tilde {
            return None;
        }
    }
    assert(input@.len() == input.len());
    let a = slice_vec(input, 0, tilde);
    let b = slice_vec(input, tilde + 1, input.len());
    assert(a@ == input@.take(tilde as int));
    assert(b@ == input@.skip(tilde + 1));
    Some((a, b))
}

/// The first unescaped `/` at or after `j`.
pub open spec fn unescaped_slash_from(s: Seq<char>, j: int, escaped: bool) -> Option<int>
    decreases s.len() - j,
{
    if j < 0 || j >= s.len() {
        None
    } else if escaped {
        unescaped_slash_from(s, j + 1, false)
    } else if s[j] == '\\' {
        unescaped_slash_from(s, j + 1, true)
    } else if s[j] == '/' {
        Some(j)
    } else {
        unescaped_slash_from(s, j + 1, false)
    }
}

/// Returns the first `/` at or after `start` that no backslash escapes.
pub fn first_unescaped_slash(input: &[char], start: usize) -> (r: Option<usize>)
    ensures
        match r {
            Some(j) => unescaped_slash_from(input@, start as int, false) == Some(j as int),
            None => unescaped_slash_from(input@, start as int, false) is None,
        },
{
    let mut j = start;
    let mut escaped = false;
    while j < input.len()
        invariant
            start <= j,
            j >= input@.len() ==> unescaped_slash_from(input@, start as int, false)
                == unescaped_slash_from(input@, j as int, escaped),
            j < input@.len() ==> unescaped_slash_from(input@, start as int, false)
                == unescaped_slash_from(input@, j as int, escaped),
        decreases input@.len() - j,
    {
        let c = input[j];
        if escaped {
            escaped = false;
        } else if c == '\\' {
            escaped = true;
        } else if c == '/' {
            return Some(j);
        }
        j += 1;
    }
    None
}

/// Replaces each `\/` with `/`.
pub open spec fn unescape_slashes_spec(s: Seq<char>) -> Seq<char>
    decreases s.len(),
{
    if s.len() == 0 {
        seq![]
    } else if s.len() >= 2 && s[0] == '\\' && s[1] == '/' {
        seq!['/'] + unescape_slashes_spec(s.skip(2))
    } else {
        seq![s[0]] + unescape_slashes_spec(s.drop_first())
    }
}

/// Replaces each escaped slash `\/` with `/`.
pub fn unescape_slashes(input: &[char]) -> (r: String)
    ensures
        r@ == unescape_slashes_spec(input@),
{
    let mut out = String::new();
    let mut i: usize = 0;
    assert(input@.skip(0) == input@);
    while i < input.len()
        invariant
            i <= input@.len(),
            out@ + unescape_slashes_spec(input@.skip(i as int)) == unescape_slashes_spec(input@),
        decreases input@.len() - i,
    {
        let ghost rest = input@.skip(i as int);
        assert(rest[0] == input@[i as int]);
        if input[i] == '\\' && i + 1 < input.len() && input[i + 1] == '/' {
            assert(rest[1] == input@[i + 1]);
            assert(rest.skip(2) == input@.skip(i + 2));
            push_char(&mut out, '/');
            i += 2;
        } else {
            assert(rest.drop_first() == input@.skip(i + 1));
            push_char(&mut out, input[i]);
            i += 1;
        }
    }
    assert(input@.skip(i as int).len() == 0);
    out
}

/// The last unescaped `/` after the first character.
pub open spec fn last_slash_from(s: Seq<char>, j: int, escaped: bool, found: Option<int>) -> Option<int>
    decreases s.len() - j,
{
    if j < 1 || j >= s.len() {
        found
    } else if escaped {
        last_slash_from(s, j + 1, false, found)
    } else if s[j] == '\\' {
        last_slash_from(s, j + 1, true, found)
    } else if s[j] == '/' {
        last_slash_from(s, j + 1, false, Some(j))
    } else {
        last_slash_from(s, j + 1, false, found)
    }
}

/// The position of the closing `/` of a `/regex/flags` literal: the last unescaped `/` after
/// the first character.
pub fn regex_literal_end(input: &[char]) -> (r: Option<usize>)
    ensures
        match r {
            Some(j) => last_slash_from(input@, 1, false, None) == Some(j as int),
            None => last_slash_from(input@, 1, false, None) is None,
        },
{
    let mut j: usize = 1;
    let mut escaped = false;
    let mut end: Option<usize> = None;
    if input.len() <= 1 {
        return None;
    }
    while j < input.len()
        invariant
            1 <= j <= input@.len(),
            last_slash_from(input@, 1, false, None) == last_slash_from(
                input@,
                j as int,
                escaped,
                match end {
                    Some(e) => Some(e as int),
                    None => None,
                },
            ),
        decreases input@.len() - j,
    {
        let c = input[j];
        if escaped {
            escaped = false;
        } else if c == '\\' {
            escaped = true;
        } else if c == '/' {
            end = Some(j);
        }
        j += 1;
    }
    end
}

} // verus!

