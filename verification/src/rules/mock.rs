//! Parsing `mock(value)` and the inline `mock(status=..., header=..., body=...)` form.
use crate::rules::action::{Action, MockInlineOp};
use crate::rules::error::{ModelErrorKind, RuleModelError};
use crate::rules::conditions::validate_status_range;
use crate::rules::language::{MAX_HTTP_STATUS, MIN_FINAL_HTTP_STATUS};
use crate::rules::rewrites::arg_texts;
use crate::rules::syntax::{parse_value, require_one, require_one_spec};
use crate::rules::transforms::{header_name_spec, is_err, normalize_header_name, value_result, ErrId};
use crate::rules::value::{ValueKind, ValueView};
use crate::text::{
    chars_of, concat3, has_prefix, lit, parse_unsigned, parse_unsigned_spec, seq_eq, split_once,
    split_once_exec, starts_with_str, string_of, trim, trim_chars, trim_start,
};
use vstd::prelude::*;

verus! {

/// An inline mock as plain data: status, headers in order, and body.
pub type MockView = (Option<u16>, Seq<(Seq<char>, ValueView)>, Option<ValueView>);

/// A parsed mock action as plain data.
pub enum MockActionView {
    Mock(ValueView),
    Inline(MockView),
}

/// The plain data of a parsed mock action, where the action is one.
pub open spec fn mock_action_view(a: Action) -> Option<MockActionView> {
    match a {
        Action::Mock(v) => Some(MockActionView::Mock(v@)),
        Action::MockInline(op) => Some(MockActionView::Inline(mock_view(op))),
        _ => None,
    }
}

/// The plain data of an inline mock.
pub open spec fn mock_view(op: MockInlineOp) -> MockView {
    (
        op.status,
        op.headers@.map_values(|h: (String, crate::rules::value::Value)| (h.0@, h.1@)),
        match op.body {
            Some(b) => Some(b@),
            None => None,
        },
    )
}

/// Whether an argument starts like an inline-mock field.
pub open spec fn inline_field(a: Seq<char>) -> bool {
    let t = trim(a);
    has_prefix(t, "status="@) || has_prefix(t, "body="@) || has_prefix(t, "type="@) || has_prefix(
        t,
        "header="@,
    )
}

/// Final statuses whose responses carry no content: 204, 205, and 304.
pub open spec fn forbids_body(status: u16) -> bool {
    status == 204 || status == 205 || status == 304
}

/// The inline mock after its first `n` arguments, or the first argument's error.
pub open spec fn mock_fields(args: Seq<Seq<char>>, n: int) -> Result<MockView, ErrId>
    decreases n,
{
    if n <= 0 {
        Ok((None, Seq::empty(), None))
    } else {
        match mock_fields(args, n - 1) {
            Err(id) => Err(id),
            Ok(op) => mock_field(trim(args[n - 1]), op),
        }
    }
}

/// The effect of one trimmed `key=value` argument on an inline mock.
#[verifier::opaque]
pub open spec fn mock_field(arg: Seq<char>, op: MockView) -> Result<MockView, ErrId> {
    match split_once(arg, '=') {
        None => Err((ModelErrorKind::InvalidInput, "mock argument")),
        Some((key, value)) => {
            let k = trim(key);
            if k == "status"@ {
                match parse_unsigned_spec(trim(value), 0xffff) {
                    None => Err((ModelErrorKind::InvalidInteger, "mock status")),
                    Some(code) => if MIN_FINAL_HTTP_STATUS <= code <= MAX_HTTP_STATUS {
                        Ok((Some(code as u16), op.1, op.2))
                    } else {
                        Err((ModelErrorKind::ConstraintViolation, "mock status"))
                    },
                }
            } else if k == "type"@ {
                match value_result(value) {
                    Err(id) => Err(id),
                    Ok(v) => Ok((op.0, op.1.push(("Content-Type"@, v)), op.2)),
                }
            } else if k == "header"@ {
                match split_once(value, ':') {
                    None => Err((ModelErrorKind::InvalidInput, "mock header")),
                    Some((name, hv)) => match header_name_spec(name) {
                        None => Err((ModelErrorKind::InvalidInput, "header name")),
                        Some(n) => match value_result(trim_start(hv)) {
                            Err(id) => Err(id),
                            Ok(v) => Ok((op.0, op.1.push((n, v)), op.2)),
                        },
                    },
                }
            } else if k == "body"@ {
                match value_result(value) {
                    Err(id) => Err(id),
                    Ok(v) => Ok((op.0, op.1, Some(v))),
                }
            } else {
                Err((ModelErrorKind::UnsupportedInput, "mock argument"))
            }
        },
    }
}

/// What `mock(...)` arguments give: a plain mock of one value source, or, when there are several
/// arguments or the first starts like a field, an inline mock whose status does not forbid a
/// body it defines.
pub open spec fn mock_spec(args: Seq<Seq<char>>) -> Result<MockActionView, ErrId> {
    if !(args.len() > 1 || (args.len() > 0 && inline_field(args[0]))) {
        match require_one_spec(args) {
            None => Err((ModelErrorKind::MissingArgument, "action argument")),
            Some(a) => match value_result(a) {
                Err(id) => Err(id),
                Ok(v) => Ok(MockActionView::Mock(v)),
            },
        }
    } else {
        match mock_fields(args, args.len() as int) {
            Err(id) => Err(id),
            Ok(op) => if op.0 matches Some(s) && forbids_body(s) && op.2 is Some {
                Err((ModelErrorKind::ConstraintViolation, "inline mock body"))
            } else {
                Ok(MockActionView::Inline(op))
            },
        }
    }
}

/// Once an argument fails, the inline mock fails with that argument's error.
pub proof fn lemma_mock_fields_fail(args: Seq<Seq<char>>, k: int, n: int)
    requires
        0 < k <= n,
        mock_fields(args, k) is Err,
    ensures
        mock_fields(args, n) == mock_fields(args, k),
    decreases n - k,
{
    if k < n {
        lemma_mock_fields_fail(args, k, n - 1);
    }
}

fn starts_like_field(arg: &String) -> (r: bool)
    ensures
        r == inline_field(arg@),
{
    let t = trim_chars(&chars_of(arg.as_str()));
    starts_with_str(&t, "status=") || starts_with_str(&t, "body=") || starts_with_str(&t, "type=")
        || starts_with_str(&t, "header=")
}

/// Applies one `key=value` argument to an inline mock.
fn apply_mock_field(arg: &[char], op: &mut MockInlineOp) -> (r: Result<(), RuleModelError>)
    ensures
        match (r, mock_field(arg@, mock_view(*old(op)))) {
            (Ok(()), Ok(v)) => mock_view(*final(op)) == v,
            (Err(e), Err(id)) => is_err(e, id),
            _ => false,
        },
{
    reveal(mock_field);
    let ghost before = mock_view(*op);
    let (key, value) = match split_once_exec(arg, '=') {
        Some(p) => p,
        None => {
            let shown = string_of(arg);
            return Err(RuleModelError::InvalidInput {
                context: "mock argument",
                message: concat3(
                    "inline mock arguments use key=value form (status, type, header, body); got `",
                    shown.as_str(),
                    "`",
                ),
            });
        },
    };
    let k = trim_chars(&key);
    let value_text = string_of(&value);
    if seq_eq(&k, &chars_of("status")) {
        let v = trim_chars(&value);
        let shown = string_of(&v);
        let code = match parse_unsigned(&v, 0xffff) {
            Some(c) => c as u16,
            None => {
                return Err(RuleModelError::InvalidInteger {
                    context: "mock status",
                    input: shown,
                    message: lit("mock status must be numeric"),
                });
            },
        };
        validate_status_range(code, MIN_FINAL_HTTP_STATUS, MAX_HTTP_STATUS, "mock status", "200..599")?;
        op.status = Some(code);
        assert(mock_view(*op) == (Some(code), before.1, before.2));
        Ok(())
    } else if seq_eq(&k, &chars_of("type")) {
        let v = parse_value(value_text.as_str())?;
        let ghost hv = v@;
        op.headers.push((lit("Content-Type"), v));
        proof {
            reveal_strlit("Content-Type");
        }
        assert(mock_view(*op).1 =~= before.1.push(("Content-Type"@, hv)));
        Ok(())
    } else if seq_eq(&k, &chars_of("header")) {
        let (name, hv) = match split_once_exec(&value, ':') {
            Some(p) => p,
            None => {
                return Err(RuleModelError::InvalidInput {
                    context: "mock header",
                    message: concat3(
                        "mock header must use `header=Name: value`; got `",
                        value_text.as_str(),
                        "`",
                    ),
                });
            },
        };
        let n = normalize_header_name(string_of(&name).as_str())?;
        let rest = crate::text::trim_start_chars(&hv);
        let v = parse_value(string_of(&rest).as_str())?;
        let ghost pair = (n@, v@);
        op.headers.push((n, v));
        assert(mock_view(*op).1 =~= before.1.push(pair));
        Ok(())
    } else if seq_eq(&k, &chars_of("body")) {
        let v = parse_value(value_text.as_str())?;
        op.body = Some(v);
        Ok(())
    } else {
        let shown = string_of(&k);
        Err(RuleModelError::UnsupportedInput {
            context: "mock argument",
            message: concat3(
                "unknown inline mock argument `",
                shown.as_str(),
                "`; use status, type, header, or body",
            ),
        })
    }
}

/// Parses `mock(value)` plus the inline `mock(status=..., header=..., body=...)` form.
pub fn parse_mock(args: &[String]) -> (r: Result<Action, RuleModelError>)
    ensures
        match (r, mock_spec(arg_texts(args@))) {
            (Ok(a), Ok(v)) => mock_action_view(a) == Some(v),
            (Err(e), Err(id)) => is_err(e, id),
            _ => false,
        },
{
    let ghost texts = arg_texts(args@);
    let inline_form = args.len() > 1 || (args.len() > 0 && starts_like_field(&args[0]));
    assert(args.len() > 0 ==> texts[0] == args@[0]@);
    if !inline_form {
        let one = require_one(args, "mock")?;
        let v = parse_value(one.as_str())?;
        return Ok(Action::Mock(v));
    }
    assert(texts.len() > 1 || (texts.len() > 0 && inline_field(texts[0])));
    let mut op = MockInlineOp { status: None, headers: Vec::new(), body: None };
    assert(mock_view(op).1 =~= Seq::<(Seq<char>, ValueView)>::empty());
    let mut i: usize = 0;
    while i < args.len()
        invariant
            i <= args@.len(),
            texts == arg_texts(args@),
            texts.len() > 1 || (texts.len() > 0 && inline_field(texts[0])),
            mock_fields(texts, i as int) == Ok::<MockView, ErrId>(mock_view(op)),
        decreases args@.len() - i,
    {
        let arg = trim_chars(&chars_of(args[i].as_str()));
        assert(texts[i as int] == args@[i as int]@);
        match apply_mock_field(&arg, &mut op) {
            Ok(()) => {},
            Err(e) => {
                proof {
                    lemma_mock_fields_fail(texts, i + 1, texts.len() as int);
                }
                return Err(e);
            },
        }
        i += 1;
    }
    let forbids = match op.status {
        Some(s) => s == 204 || s == 205 || s == 304,
        None => false,
    };
    if forbids && op.body.is_some() {
        return Err(RuleModelError::ConstraintViolation {
            context: "inline mock body",
            message: lit("mock status 204, 205, or 304 must not define a body"),
        });
    }
    Ok(Action::MockInline(op))
}

} // verus!
