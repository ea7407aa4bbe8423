//! Validating the arguments of `when` conditions: methods, statuses, header and environment
//! names.
use crate::rules::error::{ModelErrorKind, RuleModelError};
use crate::rules::language::{is_http_token_byte, MAX_HTTP_STATUS, MIN_HTTP_STATUS};
use crate::rules::syntax::{unquote, unquote_spec};
use crate::rules::transforms::{is_err, token_char, ErrId};
use crate::text::{
    any_whitespace, chars_of, concat3, contains_char, decimal_text, is_ws, lit, lower_chars,
    lower_seq, parse_unsigned, parse_unsigned_spec, string_of, trim, trim_chars, upper_chars,
    upper_seq, append_str, decimal,
};
use vstd::prelude::*;

verus! {

/// Checks that a status lies in `low..=high`.
pub fn validate_status_range(code: u16, low: u16, high: u16, context: &'static str, expected: &str) -> (r:
    Result<(), RuleModelError>)
    ensures
        match r {
            Ok(()) => low <= code <= high,
            Err(e) => !(low <= code <= high) && is_err(e, (ModelErrorKind::ConstraintViolation, context))
                && e.message_spec() == context@ + " must be "@ + expected@ + "; got "@ + decimal(
                code as nat,
            ),
        },
{
    if low <= code && code <= high {
        Ok(())
    } else {
        let mut message = lit(context);
        append_str(&mut message, " must be ");
        append_str(&mut message, expected);
        append_str(&mut message, "; got ");
        let n = decimal_text(code as u64);
        append_str(&mut message, n.as_str());
        Err(RuleModelError::ConstraintViolation { context, message })
    }
}

/// All characters are ASCII HTTP token characters.
pub open spec fn all_token(s: Seq<char>) -> bool {
    forall|i: int| 0 <= i < s.len() ==> token_char(#[trigger] s[i])
}

fn all_token_chars(s: &[char]) -> (r: bool)
    ensures
        r == all_token(s@),
{
    let mut i: usize = 0;
    while i < s.len()
        invariant
            i <= s@.len(),
            forall|j: int| 0 <= j < i ==> token_char(#[trigger] s@[j]),
        decreases s@.len() - i,
    {
        let v = s[i] as u32;
        if !(v < 128 && is_http_token_byte(v as u8)) {
            return false;
        }
        i += 1;
    }
    true
}

/// The methods of `method(...)`: each unquoted, trimmed, a token, and uppercased.
pub open spec fn methods_run(args: Seq<Seq<char>>, n: int) -> Result<Seq<Seq<char>>, ErrId>
    decreases n,
{
    if n <= 0 || n > args.len() {
        Ok(seq![])
    } else {
        match methods_run(args, n - 1) {
            Err(e) => Err(e),
            Ok(ms) => {
                let v = trim(unquote_spec(args[n - 1]));
                if v.len() == 0 || !all_token(v) {
                    Err((ModelErrorKind::InvalidInput, "method condition"))
                } else {
                    Ok(ms.push(upper_seq(v)))
                }
            },
        }
    }
}

pub open spec fn methods_spec(args: Seq<Seq<char>>) -> Result<Seq<Seq<char>>, ErrId> {
    if args.len() == 0 {
        Err((ModelErrorKind::MissingArgument, "method condition"))
    } else {
        methods_run(args, args.len() as int)
    }
}

proof fn lemma_methods_failure(args: Seq<Seq<char>>, n: int, m: int)
    requires
        0 <= n <= m <= args.len(),
        methods_run(args, n) is Err,
    ensures
        methods_run(args, m) == methods_run(args, n),
    decreases m - n,
{
    if m > n {
        lemma_methods_failure(args, n, m - 1);
    }
}

/// Parses the methods of a `method(...)` condition.
pub fn parse_method_condition(args: &[String]) -> (r: Result<Vec<String>, RuleModelError>)
    ensures
        match (r, methods_spec(args@.map_values(|x: String| x@))) {
            (Ok(v), Ok(w)) => v@.map_values(|x: String| x@) == w,
            (Err(e), Err(id)) => is_err(e, id),
            _ => false,
        },
{
    let ghost a = args@.map_values(|x: String| x@);
    if args.len() == 0 {
        return Err(RuleModelError::MissingArgument {
            context: "method condition",
            message: lit("method requires at least one method"),
        });
    }
    let mut out: Vec<String> = Vec::new();
    let mut i: usize = 0;
    assert(out@.map_values(|x: String| x@) =~= Seq::<Seq<char>>::empty());
    while i < args.len()
        invariant
            i <= args@.len(),
            args@.len() > 0,
            a == args@.map_values(|x: String| x@),
            methods_run(a, i as int) == Ok::<Seq<Seq<char>>, ErrId>(out@.map_values(|x: String| x@)),
        decreases args@.len() - i,
    {
        assert(a[i as int] == args@[i as int]@);
        let u = unquote(args[i].as_str());
        let v = trim_chars(&chars_of(u.as_str()));
        if v.len() == 0 || !all_token_chars(&v) {
            proof {
                lemma_methods_failure(a, i + 1, a.len() as int);
            }
            let text = string_of(&v);
            return Err(RuleModelError::InvalidInput {
                context: "method condition",
                message: concat3("invalid method condition `", text.as_str(), "`"),
            });
        }
        let ghost before = out@.map_values(|x: String| x@);
        out.push(string_of(&upper_chars(&v)));
        assert(out@.map_values(|x: String| x@) =~= before.push(upper_seq(v@)));
        i += 1;
    }
    Ok(out)
}

/// The statuses of `status(...)`: each a `u16` in `100..=599`.
pub open spec fn statuses_run(args: Seq<Seq<char>>, n: int) -> Result<Seq<u16>, ErrId>
    decreases n,
{
    if n <= 0 || n > args.len() {
        Ok(seq![])
    } else {
        match statuses_run(args, n - 1) {
            Err(e) => Err(e),
            Ok(ss) => match parse_unsigned_spec(trim(args[n - 1]), 65535) {
                None => Err((ModelErrorKind::InvalidInteger, "status condition")),
                Some(v) => if v < MIN_HTTP_STATUS || v > MAX_HTTP_STATUS {
                    Err((ModelErrorKind::ConstraintViolation, "status condition"))
                } else {
                    Ok(ss.push(v as u16))
                },
            },
        }
    }
}

pub open spec fn statuses_spec(args: Seq<Seq<char>>) -> Result<Seq<u16>, ErrId> {
    if args.len() == 0 {
        Err((ModelErrorKind::MissingArgument, "status condition"))
    } else {
        statuses_run(args, args.len() as int)
    }
}

proof fn lemma_statuses_failure(args: Seq<Seq<char>>, n: int, m: int)
    requires
        0 <= n <= m <= args.len(),
        statuses_run(args, n) is Err,
    ensures
        statuses_run(args, m) == statuses_run(args, n),
    decreases m - n,
{
    if m > n {
        lemma_statuses_failure(args, n, m - 1);
    }
}

/// Parses the codes of a `status(...)` condition.
pub fn parse_status_condition(args: &[String]) -> (r: Result<Vec<u16>, RuleModelError>)
    ensures
        match (r, statuses_spec(args@.map_values(|x: String| x@))) {
            (Ok(v), Ok(w)) => v@ == w,
            (Err(e), Err(id)) => is_err(e, id),
            _ => false,
        },
{
    let ghost a = args@.map_values(|x: String| x@);
    if args.len() == 0 {
        return Err(RuleModelError::MissingArgument {
            context: "status condition",
            message: lit("status requires at least one code"),
        });
    }
    let mut out: Vec<u16> = Vec::new();
    let mut i: usize = 0;
    while i < args.len()
        invariant
            i <= args@.len(),
            args@.len() > 0,
            a == args@.map_values(|x: String| x@),
            statuses_run(a, i as int) == Ok::<Seq<u16>, ErrId>(out@),
        decreases args@.len() - i,
    {
        assert(a[i as int] == args@[i as int]@);
        let t = trim_chars(&chars_of(args[i].as_str()));
        let v = match parse_unsigned(&t, 65535) {
            Some(v) => v as u16,
            None => {
                proof {
                    lemma_statuses_failure(a, i + 1, a.len() as int);
                }
                let text = string_of(&t);
                return Err(RuleModelError::InvalidInteger {
                    context: "status condition",
                    input: string_of(&t),
                    message: concat3("invalid status condition `", args[i].as_str(), "`"),
                });
            },
        };
        match validate_status_range(v, MIN_HTTP_STATUS, MAX_HTTP_STATUS, "status condition", "100..599") {
            Ok(()) => {},
            Err(e) => {
                proof {
                    lemma_statuses_failure(a, i + 1, a.len() as int);
                }
                return Err(e);
            },
        }
        out.push(v);
        i += 1;
    }
    Ok(out)
}

/// A header-condition name: trimmed, non-empty tokens, lowercased.
pub open spec fn condition_header_spec(s: Seq<char>) -> Option<Seq<char>> {
    let t = trim(s);
    if t.len() == 0 || !all_token(t) {
        None
    } else {
        Some(lower_seq(t))
    }
}

/// Validates and lowercases the header name of a header condition.
pub fn validate_header_name(input: &str) -> (r: Result<String, RuleModelError>)
    ensures
        match (r, condition_header_spec(input@)) {
            (Ok(n), Some(m)) => n@ == m,
            (Err(e), None) => is_err(e, (ModelErrorKind::InvalidInput, "header condition name")),
            _ => false,
        },
{
    let t = trim_chars(&chars_of(input));
    if t.len() == 0 || !all_token_chars(&t) {
        let name = string_of(&t);
        return Err(RuleModelError::InvalidInput {
            context: "header condition name",
            message: concat3("invalid header condition name `", name.as_str(), "`"),
        });
    }
    Ok(string_of(&lower_chars(&t)))
}

/// An environment-variable name: non-empty, without `=`, NUL, or whitespace.
pub open spec fn env_name_ok(s: Seq<char>) -> bool {
    s.len() > 0 && !s.contains('=') && !s.contains('\0') && !(exists|i: int| 0 <= i < s.len() && is_ws(s[i]))
}

/// Checks an environment-variable name of an `env(...)` condition.
pub fn validate_env_name(name: &str) -> (r: Result<(), RuleModelError>)
    ensures
        match r {
            Ok(()) => env_name_ok(name@),
            Err(e) => !env_name_ok(name@) && is_err(
                e,
                (ModelErrorKind::InvalidInput, "environment condition name"),
            ),
        },
{
    let s = chars_of(name);
    if s.len() == 0 || contains_char(&s, '=') || contains_char(&s, '\0') || any_whitespace(&s) {
        Err(RuleModelError::InvalidInput {
            context: "environment condition name",
            message: lit("env condition name is empty or contains `=`, NUL, or whitespace"),
        })
    } else {
        Ok(())
    }
}

} // verus!
