//! Rule-syntax text for deletion targets and value sources, as shown in traces.
use crate::rules::action::{
    DeleteBodyPath, DeleteBodyPathSegment, DeleteOp, DeleteOpView, DeletePathSegment, SegmentView,
};
use crate::rules::value::{Value, ValueKind, ValueView};
use crate::text::{
    chars_of, concat, concat3, decimal, decimal_text, lit, push_char, signed_decimal,
    signed_decimal_text, string_of,
};
use vstd::prelude::*;

verus! {

/// Characters that a body-path key escapes with a backslash.
pub open spec fn escaped_key_char(c: char) -> bool {
    c == '.' || c == ',' || c == '(' || c == ')' || c == '[' || c == ']' || c == '{' || c == '}'
        || c == '<' || c == '>' || c == '#' || c == '|' || c == '&' || c == ' ' || c == '\''
        || c == '"'
}

/// How one key character is written: backslash and control escapes, the character otherwise.
pub open spec fn key_char_text(c: char) -> Seq<char> {
    if c == '\\' {
        seq!['\\', '\\']
    } else if escaped_key_char(c) {
        seq!['\\', c]
    } else if c == '\n' {
        seq!['\\', 'n']
    } else if c == '\r' {
        seq!['\\', 'r']
    } else if c == '\t' {
        seq!['\\', 't']
    } else if c == '\u{c}' {
        seq!['\\', 'f']
    } else if c == '\u{b}' {
        seq!['\\', 'v']
    } else {
        seq![c]
    }
}

/// A body-path key written with its escapes.
pub open spec fn key_text(k: Seq<char>) -> Seq<char>
    decreases k.len(),
{
    if k.len() == 0 {
        Seq::empty()
    } else {
        key_text(k.drop_last()) + key_char_text(k.last())
    }
}

/// A body path in rule syntax: keys joined by `.`, indexes as `[n]`.
pub open spec fn body_path_text(segs: Seq<SegmentView>) -> Seq<char>
    decreases segs.len(),
{
    if segs.len() == 0 {
        Seq::empty()
    } else {
        body_path_text(segs.drop_last()) + match segs.last() {
            SegmentView::Key(k) => if segs.len() > 1 {
                seq!['.'] + key_text(k)
            } else {
                key_text(k)
            },
            SegmentView::Index(n) => seq!['['] + decimal(n) + seq![']'],
        }
    }
}

fn push_key(out: &mut String, key: &str)
    ensures
        final(out)@ == old(out)@ + key_text(key@),
{
    let k = chars_of(key);
    let ghost start = out@;
    let mut i: usize = 0;
    while i < k.len()
        invariant
            i <= k@.len(),
            k@ == key@,
            out@ == start + key_text(k@.take(i as int)),
        decreases k@.len() - i,
    {
        let c = k[i];
        let ghost before = out@;
        if c == '\\' {
            push_char(out, '\\');
            push_char(out, '\\');
        } else if c == '.' || c == ',' || c == '(' || c == ')' || c == '[' || c == ']' || c == '{'
            || c == '}' || c == '<' || c == '>' || c == '#' || c == '|' || c == '&' || c == ' '
            || c == '\'' || c == '"' {
            push_char(out, '\\');
            push_char(out, c);
        } else if c == '\n' {
            push_char(out, '\\');
            push_char(out, 'n');
        } else if c == '\r' {
            push_char(out, '\\');
            push_char(out, 'r');
        } else if c == '\t' {
            push_char(out, '\\');
            push_char(out, 't');
        } else if c == '\u{c}' {
            push_char(out, '\\');
            push_char(out, 'f');
        } else if c == '\u{b}' {
            push_char(out, '\\');
            push_char(out, 'v');
        } else {
            push_char(out, c);
        }
        assert(out@ =~= before + key_char_text(c));
        assert(k@.take(i + 1).drop_last() =~= k@.take(i as int));
        i += 1;
    }
    assert(k@.take(i as int) =~= k@);
}

/// Writes a body path in rule syntax.
pub fn explain_delete_body_path(path: &DeleteBodyPath) -> (r: String)
    ensures
        r@ == body_path_text(path@),
{
    let segments = path.segments();
    let ghost segs = path@;
    let mut output = String::new();
    let mut i: usize = 0;
    while i < segments.len()
        invariant
            i <= segments@.len(),
            crate::rules::action::segment_views(segments@) == segs,
            output@ == body_path_text(segs.take(i as int)),
        decreases segments@.len() - i,
    {
        let ghost before = output@;
        assert(segs[i as int] == segments@[i as int]@);
        match &segments[i] {
            DeleteBodyPathSegment::Key(key) => {
                if i > 0 {
                    push_char(&mut output, '.');
                }
                push_key(&mut output, key.as_str());
            },
            DeleteBodyPathSegment::Index(value) => {
                push_char(&mut output, '[');
                let digits = decimal_text(*value as u64);
                crate::text::append_str(&mut output, digits.as_str());
                push_char(&mut output, ']');
            },
        }
        let ghost t = segs.take(i + 1);
        assert(t.drop_last() =~= segs.take(i as int));
        assert(t.last() == segs[i as int]);
        assert(output@ =~= body_path_text(t));
        i += 1;
    }
    assert(segs.take(i as int) =~= segs);
    output
}

/// A deletion target in rule syntax.
pub open spec fn delete_op_text(op: DeleteOpView) -> Seq<char> {
    match op {
        DeleteOpView::Pathname => "pathname"@,
        DeleteOpView::PathSegment(DeletePathSegment::Index(i)) => "pathname."@ + signed_decimal(i as int),
        DeleteOpView::PathSegment(DeletePathSegment::Last) => "pathname.last"@,
        DeleteOpView::UrlParams => "urlParams"@,
        DeleteOpView::UrlParam(n) => "urlParams."@ + n,
        DeleteOpView::ReqHeader(n) => "reqHeaders."@ + n,
        DeleteOpView::ResHeader(n) => "resHeaders."@ + n,
        DeleteOpView::ReqBody => "reqBody"@,
        DeleteOpView::ResBody => "resBody"@,
        DeleteOpView::ReqBodyPath(p) => "reqBody."@ + body_path_text(p),
        DeleteOpView::ResBodyPath(p) => "resBody."@ + body_path_text(p),
        DeleteOpView::ReqType => "reqType"@,
        DeleteOpView::ResType => "resType"@,
        DeleteOpView::ReqCharset => "reqCharset"@,
        DeleteOpView::ResCharset => "resCharset"@,
        DeleteOpView::ReqCookie(n) => "reqCookies."@ + n,
        DeleteOpView::ResCookie(n) => "resCookies."@ + n,
        DeleteOpView::ReqCookies => "reqCookies"@,
        DeleteOpView::ResCookies => "resCookies"@,
        DeleteOpView::Trailer(n) => "trailer."@ + n,
        DeleteOpView::Trailers => "trailers"@,
    }
}

/// Writes a deletion target in rule syntax.
pub fn explain_delete_op(operation: &DeleteOp) -> (r: String)
    ensures
        r@ == delete_op_text(operation@),
{
    match operation {
        DeleteOp::Pathname => lit("pathname"),
        DeleteOp::PathSegment(DeletePathSegment::Index(index)) => {
            let digits = signed_decimal_text(*index as i64);
            concat("pathname.", digits.as_str())
        },
        DeleteOp::PathSegment(DeletePathSegment::Last) => lit("pathname.last"),
        DeleteOp::UrlParams => lit("urlParams"),
        DeleteOp::UrlParam(name) => concat("urlParams.", name.as_str()),
        DeleteOp::ReqHeader(name) => concat("reqHeaders.", name.as_str()),
        DeleteOp::ResHeader(name) => concat("resHeaders.", name.as_str()),
        DeleteOp::ReqBody => lit("reqBody"),
        DeleteOp::ResBody => lit("resBody"),
        DeleteOp::ReqBodyPath(path) => concat("reqBody.", explain_delete_body_path(path).as_str()),
        DeleteOp::ResBodyPath(path) => concat("resBody.", explain_delete_body_path(path).as_str()),
        DeleteOp::ReqType => lit("reqType"),
        DeleteOp::ResType => lit("resType"),
        DeleteOp::ReqCharset => lit("reqCharset"),
        DeleteOp::ResCharset => lit("resCharset"),
        DeleteOp::ReqCookie(name) => concat("reqCookies.", name.as_str()),
        DeleteOp::ResCookie(name) => concat("resCookies.", name.as_str()),
        DeleteOp::ReqCookies => lit("reqCookies"),
        DeleteOp::ResCookies => lit("resCookies"),
        DeleteOp::Trailer(name) => concat("trailer.", name.as_str()),
        DeleteOp::Trailers => lit("trailers"),
    }
}

/// A value source in rule syntax without rendering: inline text as is, a file as `<path>`, a
/// reference as `@key`.
pub open spec fn raw_value_text(v: ValueView) -> Seq<char> {
    match v.0 {
        ValueKind::Inline => v.1,
        ValueKind::File => seq!['<'] + v.1 + seq!['>'],
        ValueKind::Reference => seq!['@'] + v.1,
    }
}

/// Writes a value source in rule syntax without rendering templates.
pub fn explain_raw_value(value: &Value) -> (r: String)
    ensures
        r@ == raw_value_text(value@),
{
    proof {
        reveal_strlit("<");
        reveal_strlit(">");
        reveal_strlit("@");
    }
    match value {
        Value::Inline(v) => v.clone(),
        Value::File(v) => concat3("<", v.as_str(), ">"),
        Value::Reference(v) => concat("@", v.as_str()),
    }
}

} // verus!
