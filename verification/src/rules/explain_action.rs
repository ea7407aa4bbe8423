//! One action in rule syntax, as traces show it once its templates are rendered.
//!
//! Rendering a template needs the request and the rule's captures; the caller renders the
//! texts it wants shown rendered (see [`crate::rules::template_check::action_templates`]) and
//! hands them in as a table from template text to rendered text.
use crate::rules::action::{
    Action, BodyOp, BodyOpView, CacheDirective, CacheOp, CookieAttr, CookieOp, CorsOp, HeaderOp,
    HeaderOpView, InjectMode, InjectTarget, MockInlineOp, Phase, QueryOp, QueryOpView, TlsMinVersion,
    TlsOp, UrlRewritePattern,
};
use crate::rules::explain::{delete_op_text, explain_delete_op, explain_raw_value, raw_value_text};
use crate::rules::family::{ActionFamily, ActionFamilySet};
use crate::rules::value::{value_views, Value, ValueKind, ValueView};
use crate::text::{append_str, concat, decimal, decimal_text, join, join_strings, lit, str_eq, views};
use vstd::prelude::*;

verus! {

/// Template texts and their renderings, in the order they were given.
pub type RenderTable = Seq<(Seq<char>, Seq<char>)>;

/// The plain data of a rendering table.
pub open spec fn table_view(t: Seq<(String, String)>) -> RenderTable {
    t.map_values(|p: (String, String)| (p.0@, p.1@))
}

/// The rendering of template text `t`: the first entry for `t`, or `t` as written when the
/// table has none.
pub open spec fn rendered(tab: RenderTable, t: Seq<char>) -> Seq<char>
    decreases tab.len(),
{
    if tab.len() == 0 {
        t
    } else if tab[0].0 == t {
        tab[0].1
    } else {
        rendered(tab.drop_first(), t)
    }
}

fn render(tab: &Vec<(String, String)>, t: &str) -> (r: String)
    ensures
        r@ == rendered(table_view(tab@), t@),
{
    let ghost tv = table_view(tab@);
    let mut i: usize = 0;
    assert(tv.skip(0) =~= tv);
    while i < tab.len()
        invariant
            i <= tab@.len(),
            tv == table_view(tab@),
            rendered(tv, t@) == rendered(tv.skip(i as int), t@),
        decreases tab@.len() - i,
    {
        assert(tv.skip(i as int)[0] == tv[i as int]);
        if str_eq(tab[i].0.as_str(), t) {
            return lit(tab[i].1.as_str());
        }
        assert(tv.skip(i as int).drop_first() =~= tv.skip(i + 1));
        i += 1;
    }
    assert(tv.skip(i as int).len() == 0);
    lit(t)
}

/// A value as shown: inline text rendered, a file or a stored reference in rule syntax.
pub open spec fn value_text(v: ValueView, tab: RenderTable) -> Seq<char> {
    if v.0 == ValueKind::Inline {
        rendered(tab, v.1)
    } else {
        raw_value_text(v)
    }
}

fn explain_value(v: &Value, tab: &Vec<(String, String)>) -> (r: String)
    ensures
        r@ == value_text(v@, table_view(tab@)),
{
    match v {
        Value::Inline(t) => render(tab, t.as_str()),
        _ => explain_raw_value(v),
    }
}

/// `name(inner)`.
pub open spec fn call_text(name: Seq<char>, inner: Seq<char>) -> Seq<char> {
    name + "("@ + inner + ")"@
}

fn call(name: &str, inner: &str) -> (r: String)
    ensures
        r@ == call_text(name@, inner@),
{
    let mut out = lit(name);
    append_str(&mut out, "(");
    append_str(&mut out, inner);
    append_str(&mut out, ")");
    out
}

/// The values of a list as shown, in order.
pub open spec fn value_texts(vs: Seq<ValueView>, tab: RenderTable) -> Seq<Seq<char>> {
    vs.map_values(|v: ValueView| value_text(v, tab))
}

fn explain_values(vs: &[Value], tab: &Vec<(String, String)>) -> (r: Vec<String>)
    ensures
        views(r@) == value_texts(value_views(vs@), table_view(tab@)),
{
    let ghost vv = value_views(vs@);
    let ghost tv = table_view(tab@);
    let mut parts: Vec<String> = Vec::new();
    let mut i: usize = 0;
    while i < vs.len()
        invariant
            i <= vs@.len(),
            vv == value_views(vs@),
            tv == table_view(tab@),
            views(parts@) =~= value_texts(vv.take(i as int), tv),
        decreases vs@.len() - i,
    {
        let p = explain_value(&vs[i], tab);
        let ghost before = views(parts@);
        parts.push(p);
        proof {
            assert(views(parts@) =~= before.push(p@));
            assert(vv.take(i + 1) =~= vv.take(i as int).push(vv[i as int]));
        }
        i += 1;
    }
    assert(vv.take(vs@.len() as int) =~= vv);
    parts
}

/// A text with every `/` escaped as `\/`.
pub open spec fn slash_escaped(s: Seq<char>) -> Seq<char>
    decreases s.len(),
{
    if s.len() == 0 {
        seq![]
    } else {
        slash_escaped(s.drop_last()) + if s.last() == '/' {
            seq!['\\', '/']
        } else {
            seq![s.last()]
        }
    }
}

fn escape_slashes(s: &str) -> (r: String)
    ensures
        r@ == slash_escaped(s@),
{
    let cs = crate::text::chars_of(s);
    let mut out = String::new();
    let mut i: usize = 0;
    while i < cs.len()
        invariant
            i <= cs@.len(),
            cs@ == s@,
            out@ == slash_escaped(cs@.take(i as int)),
        decreases cs@.len() - i,
    {
        let c = cs[i];
        assert(cs@.take(i + 1).drop_last() =~= cs@.take(i as int));
        if c == '/' {
            crate::text::push_char(&mut out, '\\');
            crate::text::push_char(&mut out, '/');
        } else {
            crate::text::push_char(&mut out, c);
        }
        i += 1;
    }
    assert(cs@.take(cs@.len() as int) =~= cs@);
    out
}

/// A header operation as shown: `name: value`, `-name`, or `name ~ /pattern/replacement` with
/// slashes escaped.
pub open spec fn header_text(op: HeaderOpView, tab: RenderTable) -> Seq<char> {
    match op {
        HeaderOpView::SetValue(n, v) => n + ": "@ + value_text(v, tab),
        HeaderOpView::Remove(n) => "-"@ + n,
        HeaderOpView::Replace(n, p, rep) => n + " ~ /"@ + slash_escaped(p.0) + "/"@ + slash_escaped(rep),
    }
}

fn explain_header_op(op: &HeaderOp, tab: &Vec<(String, String)>) -> (r: String)
    ensures
        r@ == header_text(op@, table_view(tab@)),
{
    match op {
        HeaderOp::SetValue { name, value } => {
            let mut out = lit(name.as_str());
            append_str(&mut out, ": ");
            let v = explain_value(value, tab);
            append_str(&mut out, v.as_str());
            out
        },
        HeaderOp::Remove { name } => concat("-", name.as_str()),
        HeaderOp::Replace { name, pattern, replacement } => {
            let mut out = lit(name.as_str());
            append_str(&mut out, " ~ /");
            let p = escape_slashes(pattern.pattern());
            append_str(&mut out, p.as_str());
            append_str(&mut out, "/");
            let q = escape_slashes(replacement.as_str());
            append_str(&mut out, q.as_str());
            out
        },
    }
}

/// A body or mock value as shown: inline text rendered, a file path rendered between `<` and
/// `>`, a stored reference as `@key`.
pub open spec fn payload_text(v: ValueView, tab: RenderTable) -> Seq<char> {
    match v.0 {
        ValueKind::Inline => rendered(tab, v.1),
        ValueKind::File => "<"@ + rendered(tab, v.1) + ">"@,
        ValueKind::Reference => "@"@ + v.1,
    }
}

fn explain_payload(v: &Value, tab: &Vec<(String, String)>) -> (r: String)
    ensures
        r@ == payload_text(v@, table_view(tab@)),
{
    match v {
        Value::Inline(t) => render(tab, t.as_str()),
        Value::File(t) => {
            let mut out = lit("<");
            let x = render(tab, t.as_str());
            append_str(&mut out, x.as_str());
            append_str(&mut out, ">");
            out
        },
        Value::Reference(t) => concat("@", t.as_str()),
    }
}

/// A regex pattern in rule syntax: between slashes, with an `i` flag when case is ignored.
pub open spec fn pattern_text(p: (Seq<char>, bool)) -> Seq<char> {
    "/"@ + p.0 + if p.1 {
        "/i"@
    } else {
        "/"@
    }
}

/// A body operation as shown after `req.body.` or `res.body.`.
pub open spec fn body_text(op: BodyOpView, tab: RenderTable) -> Seq<char> {
    match op {
        BodyOpView::SetValue(v) => call_text("set"@, payload_text(v, tab)),
        BodyOpView::Prepend(v) => call_text("prepend"@, payload_text(v, tab)),
        BodyOpView::Append(v) => call_text("append"@, payload_text(v, tab)),
        BodyOpView::Replace(p, rep) => call_text("replace"@, pattern_text(p) + ", "@ + rep),
    }
}

fn explain_body_op(op: &BodyOp, tab: &Vec<(String, String)>) -> (r: String)
    ensures
        r@ == body_text(op@, table_view(tab@)),
{
    proof {
        reveal_strlit("/");
        reveal_strlit("/i");
    }
    match op {
        BodyOp::SetValue(v) => {
            let x = explain_payload(v, tab);
            call("set", x.as_str())
        },
        BodyOp::Prepend(v) => {
            let x = explain_payload(v, tab);
            call("prepend", x.as_str())
        },
        BodyOp::Append(v) => {
            let x = explain_payload(v, tab);
            call("append", x.as_str())
        },
        BodyOp::Replace { pattern, replacement } => {
            let mut inner = pattern.display();
            append_str(&mut inner, ", ");
            append_str(&mut inner, replacement.as_str());
            call("replace", inner.as_str())
        },
    }
}

/// Cookie attributes as shown: `; name` or `; name=value` each.
pub open spec fn attrs_text(attrs: Seq<CookieAttr>, tab: RenderTable) -> Seq<char>
    decreases attrs.len(),
{
    if attrs.len() == 0 {
        seq![]
    } else {
        attrs_text(attrs.drop_last(), tab) + "; "@ + attrs.last().name@ + match attrs.last().value {
            Some(v) => "="@ + value_text(v@, tab),
            None => seq![],
        }
    }
}

/// A cookie operation as shown: `name=value` with its attributes, or `-name`.
pub open spec fn cookie_text(op: CookieOp, tab: RenderTable) -> Seq<char> {
    match op {
        CookieOp::SetValue { name, value, attrs } => name@ + "="@ + value_text(value@, tab) + attrs_text(attrs@, tab),
        CookieOp::Remove { name } => "-"@ + name@,
    }
}

fn explain_cookie_op(op: &CookieOp, tab: &Vec<(String, String)>) -> (r: String)
    ensures
        r@ == cookie_text(*op, table_view(tab@)),
{
    let ghost tv = table_view(tab@);
    match op {
        CookieOp::SetValue { name, value, attrs } => {
            let mut out = lit(name.as_str());
            append_str(&mut out, "=");
            let v = explain_value(value, tab);
            append_str(&mut out, v.as_str());
            let ghost head = out@;
            let mut i: usize = 0;
            while i < attrs.len()
                invariant
                    i <= attrs@.len(),
                    tv == table_view(tab@),
                    out@ == head + attrs_text(attrs@.take(i as int), tv),
                decreases attrs@.len() - i,
            {
                let a = &attrs[i];
                assert(attrs@.take(i + 1).drop_last() =~= attrs@.take(i as int));
                assert(attrs@.take(i + 1).last() == attrs@[i as int]);
                append_str(&mut out, "; ");
                append_str(&mut out, a.name.as_str());
                match &a.value {
                    Some(x) => {
                        append_str(&mut out, "=");
                        let t = explain_value(x, tab);
                        append_str(&mut out, t.as_str());
                    },
                    None => {},
                }
                i += 1;
            }
            assert(attrs@.take(attrs@.len() as int) =~= attrs@);
            out
        },
        CookieOp::Remove { name } => concat("-", name.as_str()),
    }
}

/// An optional labelled value as a list of at most one part.
pub open spec fn opt_part(label: Seq<char>, v: Option<Value>, tab: RenderTable) -> Seq<Seq<char>> {
    match v {
        Some(x) => seq![label + value_text(x@, tab)],
        None => seq![],
    }
}

/// `true` or `false`.
pub open spec fn bool_text(b: bool) -> Seq<char> {
    if b {
        "true"@
    } else {
        "false"@
    }
}

/// The parts of a CORS policy as shown: its origin, then each option that is set.
pub open spec fn cors_parts(op: CorsOp, tab: RenderTable) -> Seq<Seq<char>> {
    seq![value_text(op.origin@, tab)] + opt_part("methods="@, op.methods, tab) + opt_part(
        "headers="@,
        op.headers,
        tab,
    ) + match op.credentials {
        Some(b) => seq!["credentials="@ + bool_text(b)],
        None => seq![],
    } + opt_part("expose="@, op.expose, tab) + opt_part("max-age="@, op.max_age, tab)
}

fn push_opt_part(parts: &mut Vec<String>, label: &str, v: &Option<Value>, tab: &Vec<(String, String)>)
    ensures
        views(final(parts)@) == views(old(parts)@) + opt_part(label@, *v, table_view(tab@)),
{
    let ghost before = views(parts@);
    match v {
        Some(x) => {
            let mut p = lit(label);
            let t = explain_value(x, tab);
            append_str(&mut p, t.as_str());
            parts.push(p);
            assert(views(parts@) =~= before + opt_part(label@, *v, table_view(tab@)));
        },
        None => {
            assert(views(parts@) =~= before + opt_part(label@, *v, table_view(tab@)));
        },
    }
}

fn explain_cors_op(op: &CorsOp, tab: &Vec<(String, String)>) -> (r: String)
    ensures
        r@ == join(cors_parts(*op, table_view(tab@)), ", "@),
{
    let ghost tv = table_view(tab@);
    let mut parts: Vec<String> = Vec::new();
    let o = explain_value(&op.origin, tab);
    parts.push(o);
    assert(views(parts@) =~= seq![value_text(op.origin@, tv)]);
    push_opt_part(&mut parts, "methods=", &op.methods, tab);
    push_opt_part(&mut parts, "headers=", &op.headers, tab);
    let ghost before = views(parts@);
    match op.credentials {
        Some(b) => {
            let p = if b {
                lit("credentials=true")
            } else {
                lit("credentials=false")
            };
            proof {
                reveal_strlit("credentials=true");
                reveal_strlit("credentials=false");
                reveal_strlit("credentials=");
                reveal_strlit("true");
                reveal_strlit("false");
                assert(p@ =~= "credentials="@ + bool_text(b));
            }
            parts.push(p);
        },
        None => {},
    }
    assert(views(parts@) =~= before + match op.credentials {
        Some(b) => seq!["credentials="@ + bool_text(b)],
        None => Seq::<Seq<char>>::empty(),
    });
    push_opt_part(&mut parts, "expose=", &op.expose, tab);
    push_opt_part(&mut parts, "max-age=", &op.max_age, tab);
    assert(views(parts@) =~= cors_parts(*op, tv));
    join_strings(&parts, ", ")
}

/// A cache directive as shown: its name, with `=value` when it has one.
pub open spec fn directive_text(d: CacheDirective, tab: RenderTable) -> Seq<char> {
    match d.value {
        Some(v) => d.name@ + "="@ + value_text(v@, tab),
        None => d.name@,
    }
}

/// A cache policy as shown: `off`, or its directives separated by `, `.
pub open spec fn cache_text(op: CacheOp, tab: RenderTable) -> Seq<char> {
    match op {
        CacheOp::Off => "off"@,
        CacheOp::Directives(ds) => join(ds@.map_values(|d: CacheDirective| directive_text(d, tab)), ", "@),
    }
}

fn explain_cache_op(op: &CacheOp, tab: &Vec<(String, String)>) -> (r: String)
    ensures
        r@ == cache_text(*op, table_view(tab@)),
{
    let ghost tv = table_view(tab@);
    match op {
        CacheOp::Off => lit("off"),
        CacheOp::Directives(ds) => {
            let ghost want = ds@.map_values(|d: CacheDirective| directive_text(d, tv));
            let mut parts: Vec<String> = Vec::new();
            let mut i: usize = 0;
            while i < ds.len()
                invariant
                    i <= ds@.len(),
                    tv == table_view(tab@),
                    want == ds@.map_values(|d: CacheDirective| directive_text(d, tv)),
                    views(parts@) =~= want.take(i as int),
                decreases ds@.len() - i,
            {
                let d = &ds[i];
                let p = match &d.value {
                    Some(v) => {
                        let mut p = lit(d.name.as_str());
                        append_str(&mut p, "=");
                        let t = explain_value(v, tab);
                        append_str(&mut p, t.as_str());
                        p
                    },
                    None => lit(d.name.as_str()),
                };
                let ghost before = views(parts@);
                parts.push(p);
                proof {
                    assert(views(parts@) =~= before.push(p@));
                    assert(want.take(i + 1) =~= want.take(i as int).push(want[i as int]));
                }
                i += 1;
            }
            assert(want.take(ds@.len() as int) =~= want);
            join_strings(&parts, ", ")
        },
    }
}

/// The name of a minimum TLS version.
pub open spec fn min_version_text(v: TlsMinVersion) -> Seq<char> {
    match v {
        TlsMinVersion::Tls12 => "1.2"@,
        TlsMinVersion::Tls13 => "1.3"@,
    }
}

/// The parts of a TLS policy as shown: the client identity, rendered, when both halves are
/// set; the minimum version; the cipher suites joined by `:`.
pub open spec fn tls_parts(op: TlsOp, tab: RenderTable) -> Seq<Seq<char>> {
    (if op.client_cert is Some && op.client_key is Some {
        seq![
            "client-cert="@ + rendered(tab, op.client_cert->Some_0@),
            "client-key="@ + rendered(tab, op.client_key->Some_0@),
        ]
    } else {
        seq![]
    }) + match op.min_version {
        Some(v) => seq!["min="@ + min_version_text(v)],
        None => seq![],
    } + if op.ciphers@.len() > 0 {
        seq!["ciphers="@ + join(op.ciphers@.map_values(|c: crate::rules::action::TlsCipherSuite| c.iana_name()), ":"@)]
    } else {
        seq![]
    }
}

fn explain_tls_op(op: &TlsOp, tab: &Vec<(String, String)>) -> (r: String)
    ensures
        r@ == call_text("tls"@, join(tls_parts(*op, table_view(tab@)), ", "@)),
{
    let ghost tv = table_view(tab@);
    let mut parts: Vec<String> = Vec::new();
    match (&op.client_cert, &op.client_key) {
        (Some(cert), Some(key)) => {
            let mut a = lit("client-cert=");
            let c = render(tab, cert.as_str());
            append_str(&mut a, c.as_str());
            let mut b = lit("client-key=");
            let k = render(tab, key.as_str());
            append_str(&mut b, k.as_str());
            parts.push(a);
            parts.push(b);
        },
        _ => {},
    }
    let ghost first = views(parts@);
    assert(first =~= (if op.client_cert is Some && op.client_key is Some {
        seq![
            "client-cert="@ + rendered(tv, op.client_cert->Some_0@),
            "client-key="@ + rendered(tv, op.client_key->Some_0@),
        ]
    } else {
        Seq::<Seq<char>>::empty()
    }));
    match op.min_version {
        Some(v) => {
            let mut m = lit("min=");
            append_str(&mut m, v.as_str());
            parts.push(m);
        },
        None => {},
    }
    let ghost second = views(parts@);
    assert(second =~= first + match op.min_version {
        Some(v) => seq!["min="@ + min_version_text(v)],
        None => Seq::<Seq<char>>::empty(),
    });
    if op.ciphers.len() > 0 {
        let ghost want = op.ciphers@.map_values(|c: crate::rules::action::TlsCipherSuite| c.iana_name());
        let mut names: Vec<String> = Vec::new();
        let mut i: usize = 0;
        while i < op.ciphers.len()
            invariant
                i <= op.ciphers@.len(),
                want == op.ciphers@.map_values(|c: crate::rules::action::TlsCipherSuite| c.iana_name()),
                views(names@) =~= want.take(i as int),
            decreases op.ciphers@.len() - i,
        {
            let n = lit(op.ciphers[i].as_str());
            let ghost before = views(names@);
            names.push(n);
            proof {
                assert(views(names@) =~= before.push(n@));
                assert(want.take(i + 1) =~= want.take(i as int).push(want[i as int]));
            }
            i += 1;
        }
        assert(want.take(op.ciphers@.len() as int) =~= want);
        let joined = join_strings(&names, ":");
        let c = concat("ciphers=", joined.as_str());
        parts.push(c);
    }
    assert(views(parts@) =~= tls_parts(*op, tv));
    let inner = join_strings(&parts, ", ");
    call("tls", inner.as_str())
}

/// An inline mock as shown: `status=`, each `header=name: value`, and `body=` with the body in
/// rule syntax, for the parts it has.
pub open spec fn mock_parts(op: MockInlineOp, tab: RenderTable) -> Seq<Seq<char>> {
    (match op.status {
        Some(c) => seq!["status="@ + decimal(c as nat)],
        None => seq![],
    }) + op.headers@.map_values(|h: (String, Value)| "header="@ + h.0@ + ": "@ + value_text(h.1@, tab))
        + match op.body {
        Some(b) => seq!["body="@ + raw_value_text(b@)],
        None => seq![],
    }
}

fn explain_mock_inline(op: &MockInlineOp, tab: &Vec<(String, String)>) -> (r: String)
    ensures
        r@ == call_text("mock"@, join(mock_parts(*op, table_view(tab@)), ", "@)),
{
    let ghost tv = table_view(tab@);
    let mut parts: Vec<String> = Vec::new();
    match op.status {
        Some(c) => {
            let d = decimal_text(c as u64);
            let p = concat("status=", d.as_str());
            parts.push(p);
        },
        None => {},
    }
    let ghost first = views(parts@);
    assert(first =~= match op.status {
        Some(c) => seq!["status="@ + decimal(c as nat)],
        None => Seq::<Seq<char>>::empty(),
    });
    let ghost want = op.headers@.map_values(|h: (String, Value)| "header="@ + h.0@ + ": "@ + value_text(h.1@, tv));
    let mut i: usize = 0;
    assert(first + want.take(0) =~= first);
    while i < op.headers.len()
        invariant
            i <= op.headers@.len(),
            tv == table_view(tab@),
            want == op.headers@.map_values(|h: (String, Value)| "header="@ + h.0@ + ": "@ + value_text(h.1@, tv)),
            views(parts@) =~= first + want.take(i as int),
        decreases op.headers@.len() - i,
    {
        let h = &op.headers[i];
        let mut p = lit("header=");
        append_str(&mut p, h.0.as_str());
        append_str(&mut p, ": ");
        let v = explain_value(&h.1, tab);
        append_str(&mut p, v.as_str());
        let ghost before = views(parts@);
        parts.push(p);
        proof {
            assert(views(parts@) =~= before.push(p@));
            assert(want.take(i + 1) =~= want.take(i as int).push(want[i as int]));
        }
        i += 1;
    }
    assert(want.take(op.headers@.len() as int) =~= want);
    let ghost second = views(parts@);
    match &op.body {
        Some(b) => {
            let t = explain_raw_value(b);
            let p = concat("body=", t.as_str());
            parts.push(p);
        },
        None => {},
    }
    assert(views(parts@) =~= second + match op.body {
        Some(b) => seq!["body="@ + raw_value_text(b@)],
        None => Seq::<Seq<char>>::empty(),
    });
    assert(views(parts@) =~= mock_parts(*op, tv));
    let inner = join_strings(&parts, ", ");
    call("mock", inner.as_str())
}

/// A query operation as shown: `name=value` or `-name`.
pub open spec fn query_text(q: QueryOpView, tab: RenderTable) -> Seq<char> {
    match q.1 {
        Some(v) => q.0 + "="@ + value_text(v, tab),
        None => "-"@ + q.0,
    }
}

fn explain_query_ops(qs: &Vec<QueryOp>, tab: &Vec<(String, String)>) -> (r: String)
    ensures
        r@ == join(qs@.map_values(|q: QueryOp| query_text(q@, table_view(tab@))), ", "@),
{
    let ghost tv = table_view(tab@);
    let ghost want = qs@.map_values(|q: QueryOp| query_text(q@, tv));
    let mut parts: Vec<String> = Vec::new();
    let mut i: usize = 0;
    while i < qs.len()
        invariant
            i <= qs@.len(),
            tv == table_view(tab@),
            want == qs@.map_values(|q: QueryOp| query_text(q@, tv)),
            views(parts@) =~= want.take(i as int),
        decreases qs@.len() - i,
    {
        let p = match &qs[i] {
            QueryOp::SetValue { name, value } => {
                let mut p = lit(name.as_str());
                append_str(&mut p, "=");
                let t = explain_value(value, tab);
                append_str(&mut p, t.as_str());
                p
            },
            QueryOp::Remove { name } => concat("-", name.as_str()),
        };
        let ghost before = views(parts@);
        parts.push(p);
        proof {
            assert(views(parts@) =~= before.push(p@));
            assert(want.take(i + 1) =~= want.take(i as int).push(want[i as int]));
        }
        i += 1;
    }
    assert(want.take(qs@.len() as int) =~= want);
    join_strings(&parts, ", ")
}

fn explain_delete_ops(ops: &Vec<crate::rules::action::DeleteOp>) -> (r: String)
    ensures
        r@ == join(ops@.map_values(|o: crate::rules::action::DeleteOp| delete_op_text(o@)), ", "@),
{
    let ghost want = ops@.map_values(|o: crate::rules::action::DeleteOp| delete_op_text(o@));
    let mut parts: Vec<String> = Vec::new();
    let mut i: usize = 0;
    while i < ops.len()
        invariant
            i <= ops@.len(),
            want == ops@.map_values(|o: crate::rules::action::DeleteOp| delete_op_text(o@)),
            views(parts@) =~= want.take(i as int),
        decreases ops@.len() - i,
    {
        let p = explain_delete_op(&ops[i]);
        let ghost before = views(parts@);
        parts.push(p);
        proof {
            assert(views(parts@) =~= before.push(p@));
            assert(want.take(i + 1) =~= want.take(i as int).push(want[i as int]));
        }
        i += 1;
    }
    assert(want.take(ops@.len() as int) =~= want);
    join_strings(&parts, ", ")
}

fn explain_families(fs: ActionFamilySet) -> (r: String)
    ensures
        r@ == join(fs.members().map_values(|f: ActionFamily| f.name()), ", "@),
{
    let members = fs.iter();
    let ghost want = members@.map_values(|f: ActionFamily| f.name());
    let mut parts: Vec<String> = Vec::new();
    let mut i: usize = 0;
    while i < members.len()
        invariant
            i <= members@.len(),
            want == members@.map_values(|f: ActionFamily| f.name()),
            views(parts@) =~= want.take(i as int),
        decreases members@.len() - i,
    {
        let p = lit(members[i].as_str());
        let ghost before = views(parts@);
        parts.push(p);
        proof {
            assert(views(parts@) =~= before.push(p@));
            assert(want.take(i + 1) =~= want.take(i as int).push(want[i as int]));
        }
        i += 1;
    }
    assert(want.take(members@.len() as int) =~= want);
    join_strings(&parts, ", ")
}

/// How the derived `Debug` writes a phase.
pub open spec fn phase_debug(p: Phase) -> Seq<char> {
    match p {
        Phase::Req => "Req"@,
        Phase::Res => "Res"@,
    }
}

/// The name of an injection target.
pub open spec fn target_text(t: InjectTarget) -> Seq<char> {
    match t {
        InjectTarget::Html => "html"@,
        InjectTarget::Js => "js"@,
        InjectTarget::Css => "css"@,
    }
}

/// The name of an injection placement.
pub open spec fn mode_text(m: InjectMode) -> Seq<char> {
    match m {
        InjectMode::Append => "append"@,
        InjectMode::Prepend => "prepend"@,
        InjectMode::Replace => "replace"@,
    }
}

/// An action in rule syntax, as traces show it, with templates rendered through `tab`.
/// Actions with no rule spelling of their own (`res.status`, `attachment()` without a name,
/// `delay`, `throttle`) are written as their derived `Debug` form.
pub open spec fn action_text(a: Action, tab: RenderTable) -> Seq<char> {
    match a {
        Action::Host(pool) => call_text("host"@, join(value_texts(pool.view(), tab), ", "@)),
        Action::Upstream(v) => call_text("upstream"@, value_text(v@, tab)),
        Action::Mock(v) => call_text("mock"@, payload_text(v@, tab)),
        Action::MockRaw(v) => call_text("mock.raw"@, payload_text(v@, tab)),
        Action::MockInline(op) => call_text("mock"@, join(mock_parts(op, tab), ", "@)),
        Action::MapRemote(v) => call_text("map.remote"@, value_text(v@, tab)),
        Action::Status(c) => call_text("status"@, decimal(c as nat)),
        Action::Redirect { url, code } => call_text(
            "redirect"@,
            value_text(url@, tab) + ", "@ + decimal(code as nat),
        ),
        Action::ReqHeader(op) => call_text("req.header"@, header_text(op@, tab)),
        Action::ResHeader(op) => call_text("res.header"@, header_text(op@, tab)),
        Action::ReqMethod(v) => call_text("req.method"@, value_text(v@, tab)),
        Action::ReqCookie(op) => call_text("req.cookie"@, cookie_text(op, tab)),
        Action::ResCookie(op) => call_text("res.cookie"@, cookie_text(op, tab)),
        Action::ReqUa(v) => call_text("req.ua"@, value_text(v@, tab)),
        Action::ReqReferer(v) => call_text("req.referer"@, value_text(v@, tab)),
        Action::ReqAuth(v) => call_text("req.auth"@, value_text(v@, tab)),
        Action::ReqForwarded(v) => call_text("req.forwarded"@, value_text(v@, tab)),
        Action::ReqType(v) => call_text("req.type"@, value_text(v@, tab)),
        Action::ReqCharset(v) => call_text("req.charset"@, value_text(v@, tab)),
        Action::ResCors(op) => call_text("res.cors"@, join(cors_parts(op, tab), ", "@)),
        Action::ResType(v) => call_text("res.type"@, value_text(v@, tab)),
        Action::ResCharset(v) => call_text("res.charset"@, value_text(v@, tab)),
        Action::ResMerge(v) => call_text("res.merge"@, value_text(v@, tab)),
        Action::ResTrailer(op) => call_text("res.trailer"@, header_text(op@, tab)),
        Action::Attachment(Some(v)) => call_text("attachment"@, value_text(v@, tab)),
        Action::Attachment(None) => "Attachment(None)"@,
        Action::Cache(op) => call_text("cache"@, cache_text(op, tab)),
        Action::Tls(op) => call_text("tls"@, join(tls_parts(op, tab), ", "@)),
        Action::UrlRewrite { from, to } => call_text(
            "url.rewrite"@,
            match from {
                UrlRewritePattern::Plain(f) => value_text(f@, tab) + ", "@ + value_text(to@, tab),
                UrlRewritePattern::Regex(p) => pattern_text(crate::rules::action::pattern_view(p)) + ", "@
                    + raw_value_text(to@),
            },
        ),
        Action::UrlQuery(qs) => call_text(
            "url.query"@,
            join(qs@.map_values(|q: QueryOp| query_text(q@, tab)), ", "@),
        ),
        Action::Delete(ops) => call_text(
            "delete"@,
            join(ops@.map_values(|o: crate::rules::action::DeleteOp| delete_op_text(o@)), ", "@),
        ),
        Action::ReqBody(op) => "req.body."@ + body_text(op@, tab),
        Action::ResBody(op) => "res.body."@ + body_text(op@, tab),
        Action::Inject(op) => call_text(
            "inject"@,
            target_text(op.target) + ", "@ + value_text(op.value@, tab) + ", "@ + mode_text(op.mode),
        ),
        Action::Direct => "direct"@,
        Action::Bypass => "bypass"@,
        Action::Hide => "hide"@,
        Action::Tag(v) => call_text("tag"@, value_text(v@, tab)),
        Action::Skip(fs) => if fs@ == Set::<ActionFamily>::empty() {
            "skip()"@
        } else {
            call_text("skip"@, join(fs.members().map_values(|f: ActionFamily| f.name()), ", "@))
        },
        Action::ResStatus(c) => "ResStatus("@ + decimal(c as nat) + ")"@,
        Action::Delay { phase, millis } => "Delay { phase: "@ + phase_debug(phase) + ", millis: "@
            + decimal(millis as nat) + " }"@,
        Action::Throttle { phase, bytes_per_sec } => "Throttle { phase: "@ + phase_debug(phase)
            + ", bytes_per_sec: "@ + decimal(bytes_per_sec as nat) + " }"@,
    }
}

fn value_call(name: &str, v: &Value, tab: &Vec<(String, String)>) -> (r: String)
    ensures
        r@ == call_text(name@, value_text(v@, table_view(tab@))),
{
    let t = explain_value(v, tab);
    call(name, t.as_str())
}

fn phase_name(p: Phase) -> (r: &'static str)
    ensures
        r@ == phase_debug(p),
{
    match p {
        Phase::Req => "Req",
        Phase::Res => "Res",
    }
}

/// Writes one action in rule syntax, as traces show it; `rendered` maps template texts to
/// their renderings, and a template it has no entry for is shown as written.
pub fn explain_action(action: &Action, rendered: &Vec<(String, String)>) -> (r: String)
    ensures
        r@ == action_text(*action, table_view(rendered@)),
{
    let tab = rendered;
    match action {
        Action::Host(pool) => {
            let parts = explain_values(pool.addresses(), tab);
            let inner = join_strings(&parts, ", ");
            call("host", inner.as_str())
        },
        Action::Upstream(v) => value_call("upstream", v, tab),
        Action::Mock(v) => {
            let t = explain_payload(v, tab);
            call("mock", t.as_str())
        },
        Action::MockRaw(v) => {
            let t = explain_payload(v, tab);
            call("mock.raw", t.as_str())
        },
        Action::MockInline(op) => explain_mock_inline(op, tab),
        Action::MapRemote(v) => value_call("map.remote", v, tab),
        Action::Status(c) => {
            let d = decimal_text(*c as u64);
            call("status", d.as_str())
        },
        Action::Redirect { url, code } => {
            let mut inner = explain_value(url, tab);
            append_str(&mut inner, ", ");
            let d = decimal_text(*code as u64);
            append_str(&mut inner, d.as_str());
            call("redirect", inner.as_str())
        },
        Action::ReqHeader(op) => {
            let t = explain_header_op(op, tab);
            call("req.header", t.as_str())
        },
        Action::ResHeader(op) => {
            let t = explain_header_op(op, tab);
            call("res.header", t.as_str())
        },
        Action::ReqMethod(v) => value_call("req.method", v, tab),
        Action::ReqCookie(op) => {
            let t = explain_cookie_op(op, tab);
            call("req.cookie", t.as_str())
        },
        Action::ResCookie(op) => {
            let t = explain_cookie_op(op, tab);
            call("res.cookie", t.as_str())
        },
        Action::ReqUa(v) => value_call("req.ua", v, tab),
        Action::ReqReferer(v) => value_call("req.referer", v, tab),
        Action::ReqAuth(v) => value_call("req.auth", v, tab),
        Action::ReqForwarded(v) => value_call("req.forwarded", v, tab),
        Action::ReqType(v) => value_call("req.type", v, tab),
        Action::ReqCharset(v) => value_call("req.charset", v, tab),
        Action::ResCors(op) => {
            let t = explain_cors_op(op, tab);
            call("res.cors", t.as_str())
        },
        Action::ResType(v) => value_call("res.type", v, tab),
        Action::ResCharset(v) => value_call("res.charset", v, tab),
        Action::ResMerge(v) => value_call("res.merge", v, tab),
        Action::ResTrailer(op) => {
            let t = explain_header_op(op, tab);
            call("res.trailer", t.as_str())
        },
        Action::Attachment(Some(v)) => value_call("attachment", v, tab),
        Action::Attachment(None) => lit("Attachment(None)"),
        Action::Cache(op) => {
            let t = explain_cache_op(op, tab);
            call("cache", t.as_str())
        },
        Action::Tls(op) => explain_tls_op(op, tab),
        Action::UrlRewrite { from, to } => {
            let mut inner = match from {
                UrlRewritePattern::Plain(f) => explain_value(f, tab),
                UrlRewritePattern::Regex(p) => p.display(),
            };
            append_str(&mut inner, ", ");
            let t = match from {
                UrlRewritePattern::Plain(_) => explain_value(to, tab),
                UrlRewritePattern::Regex(_) => explain_raw_value(to),
            };
            append_str(&mut inner, t.as_str());
            proof {
                reveal_strlit("/");
                reveal_strlit("/i");
            }
            call("url.rewrite", inner.as_str())
        },
        Action::UrlQuery(qs) => {
            let t = explain_query_ops(qs, tab);
            call("url.query", t.as_str())
        },
        Action::Delete(ops) => {
            let t = explain_delete_ops(ops);
            call("delete", t.as_str())
        },
        Action::ReqBody(op) => {
            let t = explain_body_op(op, tab);
            concat("req.body.", t.as_str())
        },
        Action::ResBody(op) => {
            let t = explain_body_op(op, tab);
            concat("res.body.", t.as_str())
        },
        Action::Inject(op) => {
            let mut inner = lit(op.target.as_str());
            append_str(&mut inner, ", ");
            let v = explain_value(&op.value, tab);
            append_str(&mut inner, v.as_str());
            append_str(&mut inner, ", ");
            append_str(&mut inner, op.mode.as_str());
            call("inject", inner.as_str())
        },
        Action::Direct => lit("direct"),
        Action::Bypass => lit("bypass"),
        Action::Hide => lit("hide"),
        Action::Tag(v) => value_call("tag", v, tab),
        Action::Skip(fs) => {
            if fs.is_empty() {
                lit("skip()")
            } else {
                let t = explain_families(*fs);
                call("skip", t.as_str())
            }
        },
        Action::ResStatus(c) => {
            let mut out = lit("ResStatus(");
            let d = decimal_text(*c as u64);
            append_str(&mut out, d.as_str());
            append_str(&mut out, ")");
            out
        },
        Action::Delay { phase, millis } => {
            let mut out = lit("Delay { phase: ");
            append_str(&mut out, phase_name(*phase));
            append_str(&mut out, ", millis: ");
            let d = decimal_text(*millis);
            append_str(&mut out, d.as_str());
            append_str(&mut out, " }");
            out
        },
        Action::Throttle { phase, bytes_per_sec } => {
            let mut out = lit("Throttle { phase: ");
            append_str(&mut out, phase_name(*phase));
            append_str(&mut out, ", bytes_per_sec: ");
            let d = decimal_text(*bytes_per_sec);
            append_str(&mut out, d.as_str());
            append_str(&mut out, " }");
            out
        },
    }
}

} // verus!
