//! Reading the amounts of `delay` actions.
//!
//! Whole milliseconds are integers and read here; a duration written in seconds may carry a
//! fraction, so reading it is the caller's step, handed in as a function.
use crate::rules::error::RuleModelError;
use crate::text::{append_str, chars_of, has_suffix, lit, parse_unsigned, parse_unsigned_spec, slice_vec};
use vstd::prelude::*;

verus! {

/// `r` is the error for the unreadable duration text `t`.
pub open spec fn duration_integer_error(t: Seq<char>, r: Result<u64, RuleModelError>) -> bool {
    r matches Err(RuleModelError::InvalidInteger { context, input, message }) && context == "duration"
        && input@ == t && message@ == "invalid duration `"@ + t + "`"@
}

/// What a duration text reads as, in milliseconds: `<n>ms` and a bare `<n>` are whole
/// milliseconds in the range of `u64`; a text ending in `s` is read by `seconds`.
pub open spec fn duration_result<F: Fn(&str) -> Result<u64, RuleModelError>>(
    t: Seq<char>,
    seconds: F,
    r: Result<u64, RuleModelError>,
) -> bool {
    if has_suffix(t, "ms"@) {
        match parse_unsigned_spec(t.take(t.len() - 2), u64::MAX as nat) {
            Some(n) => r == Ok::<u64, RuleModelError>(n as u64),
            None => duration_integer_error(t, r),
        }
    } else if has_suffix(t, "s"@) {
        exists|u: &str| u@ == t && #[trigger] call_ensures(seconds, (u,), r)
    } else {
        match parse_unsigned_spec(t, u64::MAX as nat) {
            Some(n) => r == Ok::<u64, RuleModelError>(n as u64),
            None => duration_integer_error(t, r),
        }
    }
}

fn duration_error(input: &str) -> (r: Result<u64, RuleModelError>)
    ensures
        duration_integer_error(input@, r),
{
    let mut message = lit("invalid duration `");
    append_str(&mut message, input);
    append_str(&mut message, "`");
    proof {
        reveal_strlit("invalid duration `");
        reveal_strlit("`");
    }
    Err(RuleModelError::InvalidInteger { context: "duration", input: lit(input), message })
}

/// Reads a `delay` duration as milliseconds: `<n>ms` and a bare `<n>` here, a text written in
/// seconds (`<x>s`) by `seconds`, which gets the whole text.
pub fn parse_duration_ms<F: Fn(&str) -> Result<u64, RuleModelError>>(input: &str, seconds: &F) -> (r:
    Result<u64, RuleModelError>)
    requires
        forall|t: &str| #[trigger] call_requires(*seconds, (t,)),
    ensures
        duration_result(input@, *seconds, r),
{
    let s = chars_of(input);
    let ms = chars_of("ms");
    let sec = chars_of("s");
    proof {
        reveal_strlit("ms");
        reveal_strlit("s");
    }
    if crate::text::ends_with(&s, &ms) {
        let digits = slice_vec(&s, 0, s.len() - 2);
        assert(digits@ =~= input@.take(input@.len() - 2));
        match parse_unsigned(&digits, u64::MAX) {
            Some(n) => Ok(n),
            None => duration_error(input),
        }
    } else if crate::text::ends_with(&s, &sec) {
        let x = seconds(input);
        assert(call_ensures(*seconds, (input,), x));
        x
    } else {
        match parse_unsigned(&s, u64::MAX) {
            Some(n) => Ok(n),
            None => duration_error(input),
        }
    }
}

} // verus!
