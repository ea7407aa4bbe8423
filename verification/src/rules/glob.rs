//! Translation of glob patterns into anchored regular expressions.
//!
//! `*` matches within one separator-delimited segment, `**` crosses separators, and `\`
//! escapes the next character. The first nine wildcards become numbered capture groups.
use crate::rules::error::{ModelErrorKind, RuleModelError};
use crate::rules::language::{MAX_RULE_GLOB_CAPTURES, MAX_RULE_SOURCE_LINE_BYTES};
use crate::rules::transforms::{is_err, ErrId};
use crate::text::{chars_of, lit, string_of, utf8_byte_len, utf8_len};
use regex::Regex;
use vstd::prelude::*;

verus! {

/// Largest glob pattern accepted, in UTF-8 bytes.
pub const MAX_GLOB_PATTERN_BYTES: usize = MAX_RULE_SOURCE_LINE_BYTES;

/// Size limit handed to the regex compiler for one glob program, in bytes.
pub const GLOB_REGEX_SIZE_LIMIT: usize = 4194304;

#[verifier::external_type_specification]
#[verifier::external_body]
pub struct ExRegex(Regex);

/// The characters the regex syntax treats as meta characters.
pub open spec fn meta_char(c: char) -> bool {
    c == '\\' || c == '.' || c == '+' || c == '*' || c == '?' || c == '(' || c == ')' || c
        == '|' || c == '[' || c == ']' || c == '{' || c == '}' || c == '^' || c == '$' || c
        == '#' || c == '&' || c == '-' || c == '~'
}

/// `regex_syntax::is_meta_character`: whether `c` must be escaped to match literally; its
/// source matches exactly the characters of [`meta_char`].
#[verifier::external_body]
fn is_meta(c: char) -> (r: bool)
    ensures
        r == meta_char(c),
{
    regex_syntax::is_meta_character(c)
}

/// Whether the regex compiler, with the glob size limit, accepts `source`.
pub uninterp spec fn glob_program_compiles(source: Seq<char>) -> bool;

/// `regex::RegexBuilder::build` with the glob size limit: the compiled program, or `None` where
/// the compiler rejects the source.
#[verifier::external_body]
pub(crate) fn build_glob_program(source: &str) -> (r: Option<Regex>)
    ensures
        r is Some == glob_program_compiles(source@),
{
    regex::RegexBuilder::new(source).size_limit(GLOB_REGEX_SIZE_LIMIT).build().ok()
}

/// A character matched literally: escaped with `\` where it is a meta character.
pub open spec fn literal(c: char) -> Seq<char> {
    if meta_char(c) {
        seq!['\\', c]
    } else {
        seq![c]
    }
}

/// `t` with `s` in front, where there is a `t`.
pub open spec fn prepend(s: Seq<char>, t: Option<Seq<char>>) -> Option<Seq<char>> {
    match t {
        Some(x) => Some(s + x),
        None => None,
    }
}

/// The regex text of one wildcard: a capture group while fewer than nine groups were opened,
/// a non-capturing group afterwards; `**` crosses separators, `*` stays within a segment.
pub open spec fn wildcard_text(double: bool, sep: char, captures: nat) -> Seq<char> {
    let open = if captures < MAX_RULE_GLOB_CAPTURES {
        seq!['(']
    } else {
        seq!['(', '?', ':']
    };
    let body = if double {
        seq!['.', '*', '?']
    } else {
        seq!['[', '^'] + literal(sep) + seq![']', '*', '?']
    };
    open + body + seq![')']
}

/// The regex text for the rest `p` of a glob, `captures` groups having been opened; `None`
/// where a trailing `\` escapes nothing.
pub open spec fn glob_body(p: Seq<char>, sep: char, captures: nat) -> Option<Seq<char>>
    decreases p.len(),
{
    if p.len() == 0 {
        Some(Seq::empty())
    } else if p[0] == '\\' {
        if p.len() < 2 {
            None
        } else {
            prepend(literal(p[1]), glob_body(p.skip(2), sep, captures))
        }
    } else if p[0] != '*' {
        prepend(literal(p[0]), glob_body(p.skip(1), sep, captures))
    } else {
        let double = p.len() >= 2 && p[1] == '*';
        let rest = if double {
            p.skip(2)
        } else {
            p.skip(1)
        };
        let next = if captures < MAX_RULE_GLOB_CAPTURES {
            (captures + 1) as nat
        } else {
            captures
        };
        prepend(wildcard_text(double, sep, captures), glob_body(rest, sep, next))
    }
}

/// The anchored, dot-matches-newline regex text of a whole glob.
pub open spec fn glob_source(p: Seq<char>, sep: char) -> Option<Seq<char>> {
    match glob_body(p, sep, 0) {
        Some(b) => Some(seq!['(', '?', 's', ')', '\\', 'A'] + b + seq!['\\', 'z']),
        None => None,
    }
}

fn push_literal(out: &mut Vec<char>, c: char)
    ensures
        final(out)@ == old(out)@ + literal(c),
{
    if is_meta(c) {
        out.push('\\');
    }
    out.push(c);
}

/// The regex text of `pattern` with `sep` as the segment separator, or `None` when the pattern
/// ends in an unpaired `\`.
pub fn glob_regex_source(pattern: &str, sep: char) -> (r: Option<String>)
    ensures
        match (r, glob_source(pattern@, sep)) {
            (Some(a), Some(b)) => a@ == b,
            (None, None) => true,
            _ => false,
        },
{
    let p = chars_of(pattern);
    let mut out: Vec<char> = Vec::new();
    let mut i: usize = 0;
    let mut captures: usize = 0;
    assert(p@.skip(0) == p@);
    while i < p.len()
        invariant
            p@ == pattern@,
            i <= p@.len(),
            captures <= MAX_RULE_GLOB_CAPTURES,
            glob_body(p@, sep, 0) == prepend(out@, glob_body(p@.skip(i as int), sep, captures as nat)),
        decreases p@.len() - i,
    {
        let ghost rest = p@.skip(i as int);
        let ghost before = out@;
        let c = p[i];
        assert(rest[0] == c);
        if c == '\\' {
            if i + 1 >= p.len() {
                return None;
            }
            let next = p[i + 1];
            assert(rest[1] == next);
            push_literal(&mut out, next);
            assert(rest.skip(2) =~= p@.skip(i + 2));
            i += 2;
        } else if c != '*' {
            push_literal(&mut out, c);
            assert(rest.skip(1) =~= p@.skip(i + 1));
            i += 1;
        } else {
            let double = i + 1 < p.len() && p[i + 1] == '*';
            if double {
                assert(rest[1] == '*');
                assert(rest.skip(2) =~= p@.skip(i + 2));
            } else {
                assert(rest.skip(1) =~= p@.skip(i + 1));
            }
            let ghost w = wildcard_text(double, sep, captures as nat);
            if captures < MAX_RULE_GLOB_CAPTURES {
                out.push('(');
                captures += 1;
            } else {
                out.push('(');
                out.push('?');
                out.push(':');
            }
            if double {
                out.push('.');
                out.push('*');
                out.push('?');
            } else {
                out.push('[');
                out.push('^');
                push_literal(&mut out, sep);
                out.push(']');
                out.push('*');
                out.push('?');
            }
            out.push(')');
            assert(out@ =~= before + w);
            i = if double {
                i + 2
            } else {
                i + 1
            };
        }
        assert(glob_body(p@, sep, 0) == prepend(out@, glob_body(p@.skip(i as int), sep, captures as nat)));
    }
    assert(p@.skip(i as int) =~= Seq::<char>::empty());
    let mut src: Vec<char> = Vec::new();
    src.push('(');
    src.push('?');
    src.push('s');
    src.push(')');
    src.push('\\');
    src.push('A');
    let mut k: usize = 0;
    while k < out.len()
        invariant
            k <= out@.len(),
            src@ == seq!['(', '?', 's', ')', '\\', 'A'] + out@.take(k as int),
        decreases out@.len() - k,
    {
        src.push(out[k]);
        k += 1;
        assert(src@ =~= seq!['(', '?', 's', ')', '\\', 'A'] + out@.take(k as int));
    }
    src.push('\\');
    src.push('z');
    assert(out@.take(out@.len() as int) =~= out@);
    assert(src@ =~= seq!['(', '?', 's', ')', '\\', 'A'] + out@ + seq!['\\', 'z']);
    Some(string_of(&src))
}

/// Compiles a glob into its anchored regex program; `None` for a trailing unpaired `\` or a
/// program the regex compiler rejects.
pub fn compile_glob_regex(pattern: &str, sep: char) -> (r: Option<Regex>)
    ensures
        r is Some <==> (glob_source(pattern@, sep) matches Some(s) && glob_program_compiles(s)),
{
    match glob_regex_source(pattern, sep) {
        Some(source) => build_glob_program(source.as_str()),
        None => None,
    }
}

/// Why a glob pattern is refused, if it is: longer than the glob byte limit, or without a
/// program the regex compiler accepts.
pub open spec fn glob_pattern_error(pattern: Seq<char>, sep: char, context: &'static str) -> Option<
    ErrId,
> {
    if utf8_len(pattern) > MAX_GLOB_PATTERN_BYTES {
        Some((ModelErrorKind::LimitExceeded, context))
    } else if !(glob_source(pattern, sep) matches Some(s) && glob_program_compiles(s)) {
        Some((ModelErrorKind::InvalidInput, context))
    } else {
        None
    }
}

/// Checks that a glob pattern fits the byte limit and compiles.
pub fn validate_glob_pattern(pattern: &str, separator: char, context: &'static str) -> (r: Result<
    (),
    RuleModelError,
>)
    ensures
        r is Ok <==> glob_pattern_error(pattern@, separator, context) is None,
        r matches Err(e) ==> is_err(e, glob_pattern_error(pattern@, separator, context)->0),
{
    if utf8_byte_len(pattern) > MAX_GLOB_PATTERN_BYTES {
        return Err(RuleModelError::LimitExceeded {
            context,
            message: lit("glob pattern exceeds 65536 bytes"),
        });
    }
    match compile_glob_regex(pattern, separator) {
        Some(_) => Ok(()),
        None => Err(RuleModelError::InvalidInput {
            context,
            message: lit("invalid or incomplete glob pattern"),
        }),
    }
}

/// Every character of `p` matched literally, in order.
pub open spec fn literal_text(p: Seq<char>) -> Seq<char>
    decreases p.len(),
{
    if p.len() == 0 {
        Seq::empty()
    } else {
        literal(p[0]) + literal_text(p.skip(1))
    }
}

/// A glob without `*` or `\` is its own text matched literally: its program opens no group
/// and escapes each meta character.
pub proof fn law_plain_glob_is_literal(p: Seq<char>, sep: char, captures: nat)
    requires
        !p.contains('*'),
        !p.contains('\\'),
    ensures
        glob_body(p, sep, captures) == Some(literal_text(p)),
    decreases p.len(),
{
    if p.len() > 0 {
        assert(p[0] != '*' && p[0] != '\\') by {
            if p[0] == '*' {
                assert(p.contains('*'));
            }
            if p[0] == '\\' {
                assert(p.contains('\\'));
            }
        }
        let rest = p.skip(1);
        assert forall|c: char| rest.contains(c) implies p.contains(c) by {
            let i = choose|i: int| 0 <= i < rest.len() && rest[i] == c;
            assert(p[i + 1] == c);
        }
        law_plain_glob_is_literal(rest, sep, captures);
    }
}

} // verus!
