//! Parsing the header, body, and URL rewrite operations that carry a regex replacement.
use crate::rules::action::{
    BodyOp, BodyOpView, HeaderOp, HeaderOpView, PatternView, UrlRewritePattern, UrlRewriteView,
};
use crate::rules::error::{ModelErrorKind, RuleModelError};
use crate::rules::replace_pattern::{case_regex_compiles, RegexReplacePattern};
use crate::rules::syntax::{parse_value, unquote, unquote_spec};
use crate::rules::transforms::{
    first_unescaped_slash, header_name_spec, header_replace_parts, is_err, last_slash_from,
    normalize_header_name, regex_literal_end, replace_parts_spec, unescape_slashes,
    unescape_slashes_spec, unescaped_slash_from, value_result, ErrId,
};
use crate::text::{
    chars_of, concat, contains_char, first_index, slice_vec, split_once, split_once_exec,
    string_of, trim, trim_chars,
};
use vstd::prelude::*;

verus! {

/// What a replacement pattern argument is: a `/regex/flags` literal whose only flag is `i`, or
/// otherwise the unquoted text as a case-sensitive regex; the regex must compile.
pub open spec fn replace_pattern_spec(s: Seq<char>) -> Result<PatternView, ErrId> {
    let t = trim(s);
    if !(t.len() > 0 && t[0] == '/') {
        let p = unquote_spec(t);
        if case_regex_compiles(p, false) {
            Ok((p, false))
        } else {
            Err((ModelErrorKind::InvalidRegex, "invalid replacement regex"))
        }
    } else {
        match last_slash_from(t, 1, false, None) {
            None => Err((ModelErrorKind::InvalidSyntax, "body.replace regex")),
            Some(e) => {
                let flags = t.skip(e + 1);
                if exists|i: int| 0 <= i < flags.len() && #[trigger] flags[i] != 'i' {
                    Err((ModelErrorKind::UnsupportedInput, "body.replace regex flags"))
                } else {
                    let ci = flags.contains('i');
                    let p = t.subrange(1, e);
                    if case_regex_compiles(p, ci) {
                        Ok((p, ci))
                    } else {
                        Err((ModelErrorKind::InvalidRegex, "invalid replacement regex"))
                    }
                }
            },
        }
    }
}

/// Compiles a replacement pattern argument.
pub fn parse_regex_replace_pattern(input: &str) -> (r: Result<RegexReplacePattern, RuleModelError>)
    ensures
        match (r, replace_pattern_spec(input@)) {
            (Ok(p), Ok(v)) => p.pattern_spec() == v.0 && p.case_insensitive_spec() == v.1,
            (Err(e), Err(id)) => is_err(e, id),
            _ => false,
        },
{
    let t = trim_chars(&chars_of(input));
    let text = string_of(&t);
    if !(t.len() > 0 && t[0] == '/') {
        let p = unquote(text.as_str());
        assert(unquote_spec(t@) == unquote_spec(text@));
        return match RegexReplacePattern::new(p, false) {
            Ok(compiled) => Ok(compiled),
            Err(source) => Err(RuleModelError::InvalidRegex {
                context: "invalid replacement regex",
                source: Box::new(source),
            }),
        };
    }
    let end = match regex_literal_end(&t) {
        Some(e) => e,
        None => {
            return Err(RuleModelError::InvalidSyntax {
                context: "body.replace regex",
                message: crate::text::lit("body.replace regex pattern must end with `/`"),
            });
        },
    };
    proof {
        lemma_last_slash_bounds(t@, 1, false, None);
    }
    let flags = slice_vec(&t, end + 1, t.len());
    assert(flags@ =~= t@.skip(end + 1));
    let mut i: usize = 0;
    while i < flags.len()
        invariant
            i <= flags@.len(),
            forall|j: int| 0 <= j < i ==> flags@[j] == 'i',
            flags@ == t@.skip(end + 1),
            t@ == trim(input@),
            t@.len() > 0 && t@[0] == '/',
            last_slash_from(t@, 1, false, None) == Some(end as int),
        decreases flags@.len() - i,
    {
        if flags[i] != 'i' {
            assert(flags@[i as int] != 'i');
            let shown = string_of(&flags);
            return Err(RuleModelError::UnsupportedInput {
                context: "body.replace regex flags",
                message: crate::text::concat3(
                    "unsupported body.replace regex flags `",
                    shown.as_str(),
                    "`",
                ),
            });
        }
        i += 1;
    }
    let ci = contains_char(&flags, 'i');
    let p = string_of(&slice_vec(&t, 1, end));
    match RegexReplacePattern::new(p, ci) {
        Ok(compiled) => Ok(compiled),
        Err(source) => Err(RuleModelError::InvalidRegex {
            context: "invalid replacement regex",
            source: Box::new(source),
        }),
    }
}

/// What a header replacement expression `/regex/replacement` yields: the unescaped pattern,
/// compiled case-sensitively, and the unescaped replacement.
pub open spec fn header_replacement_spec(s: Seq<char>) -> Result<(PatternView, Seq<char>), ErrId> {
    let e = trim(s);
    if !(e.len() > 0 && e[0] == '/') {
        Err((ModelErrorKind::InvalidSyntax, "header replacement"))
    } else {
        match unescaped_slash_from(e, 1, false) {
            None => Err((ModelErrorKind::InvalidSyntax, "header replacement")),
            Some(sep) => {
                let p = unescape_slashes_spec(e.subrange(1, sep));
                if case_regex_compiles(p, false) {
                    Ok(((p, false), unescape_slashes_spec(e.skip(sep + 1))))
                } else {
                    Err((ModelErrorKind::InvalidRegex, "invalid header replacement regex"))
                }
            },
        }
    }
}

/// Parses `/regex/replacement`, where `\/` stands for a slash in either part.
pub fn parse_header_replacement(expression: &[char]) -> (r: Result<
    (RegexReplacePattern, String),
    RuleModelError,
>)
    ensures
        match (r, header_replacement_spec(expression@)) {
            (Ok((p, rep)), Ok((v, w))) => p.pattern_spec() == v.0 && p.case_insensitive_spec()
                == v.1 && rep@ == w,
            (Err(e), Err(id)) => is_err(e, id),
            _ => false,
        },
{
    let e = trim_chars(expression);
    if !(e.len() > 0 && e[0] == '/') {
        return Err(RuleModelError::InvalidSyntax {
            context: "header replacement",
            message: crate::text::lit("header replacement must use `/regex/replacement`"),
        });
    }
    let sep = match first_unescaped_slash(&e, 1) {
        Some(j) => j,
        None => {
            return Err(RuleModelError::InvalidSyntax {
                context: "header replacement",
                message: crate::text::lit("header replacement must use `/regex/replacement`"),
            });
        },
    };
    proof {
        lemma_unescaped_slash_bounds(e@, 1, false);
    }
    let pattern = unescape_slashes(&slice_vec(&e, 1, sep));
    let rest = slice_vec(&e, sep + 1, e.len());
    assert(rest@ =~= e@.skip(sep + 1));
    let replacement = unescape_slashes(&rest);
    match RegexReplacePattern::new(pattern, false) {
        Ok(compiled) => Ok((compiled, replacement)),
        Err(source) => Err(RuleModelError::InvalidRegex {
            context: "invalid header replacement regex",
            source: Box::new(source),
        }),
    }
}

/// The closing slash of a regex literal lies after its first character and inside the text.
pub proof fn lemma_last_slash_bounds(s: Seq<char>, j: int, escaped: bool, found: Option<int>)
    requires
        found matches Some(f) ==> 1 <= f < s.len(),
        j >= 1,
    ensures
        last_slash_from(s, j, escaped, found) matches Some(k) ==> 1 <= k < s.len(),
    decreases s.len() - j,
{
    if j < s.len() {
        if escaped {
            lemma_last_slash_bounds(s, j + 1, false, found);
        } else if s[j] == '\\' {
            lemma_last_slash_bounds(s, j + 1, true, found);
        } else if s[j] == '/' {
            lemma_last_slash_bounds(s, j + 1, false, Some(j));
        } else {
            lemma_last_slash_bounds(s, j + 1, false, found);
        }
    }
}

/// A found unescaped slash lies at or after the starting position and inside the text.
pub proof fn lemma_unescaped_slash_bounds(s: Seq<char>, j: int, escaped: bool)
    ensures
        unescaped_slash_from(s, j, escaped) matches Some(k) ==> j <= k < s.len() && s[k] == '/',
    decreases s.len() - j,
{
    if 0 <= j < s.len() {
        if escaped || s[j] == '\\' || s[j] != '/' {
            lemma_unescaped_slash_bounds(s, j + 1, escaped == false && s[j] == '\\');
        }
    }
}

/// What a header operation is: `-name` removes a field, `name ~ /regex/replacement` rewrites
/// its values, and `name: value` sets it.
pub open spec fn header_op_spec(s: Seq<char>) -> Result<HeaderOpView, ErrId> {
    let input = trim(s);
    if input.len() > 0 && input[0] == '-' {
        match header_name_spec(input.drop_first()) {
            None => Err((ModelErrorKind::InvalidInput, "header name")),
            Some(n) => Ok(HeaderOpView::Remove(n)),
        }
    } else {
        match replace_parts_spec(input) {
            Some((name, expression)) => match header_name_spec(name) {
                None => Err((ModelErrorKind::InvalidInput, "header name")),
                Some(n) => match header_replacement_spec(expression) {
                    Err(id) => Err(id),
                    Ok((p, rep)) => Ok(HeaderOpView::Replace(n, p, rep)),
                },
            },
            None => match split_once(input, ':') {
                None => Err((ModelErrorKind::InvalidSyntax, "header operation")),
                Some((name, value)) => match header_name_spec(name) {
                    None => Err((ModelErrorKind::InvalidInput, "header name")),
                    Some(n) => match value_result(trim(value)) {
                        Err(id) => Err(id),
                        Ok(v) => Ok(HeaderOpView::SetValue(n, v)),
                    },
                },
            },
        }
    }
}

/// Parses `name: value`, `-name`, or `name ~ /regex/replacement`.
pub fn parse_header_op(input: &str) -> (r: Result<HeaderOp, RuleModelError>)
    ensures
        match (r, header_op_spec(input@)) {
            (Ok(op), Ok(v)) => op@ == v,
            (Err(e), Err(id)) => is_err(e, id),
            _ => false,
        },
{
    let t = trim_chars(&chars_of(input));
    if t.len() > 0 && t[0] == '-' {
        let rest = slice_vec(&t, 1, t.len());
        assert(rest@ =~= t@.drop_first());
        let name = normalize_header_name(string_of(&rest).as_str())?;
        return Ok(HeaderOp::Remove { name });
    }
    if let Some((name_part, expression)) = header_replace_parts(&t) {
        let name = normalize_header_name(string_of(&name_part).as_str())?;
        let (pattern, replacement) = parse_header_replacement(&expression)?;
        return Ok(HeaderOp::Replace { name, pattern, replacement });
    }
    let (name_part, value_part) = match split_once_exec(&t, ':') {
        Some(p) => p,
        None => {
            return Err(RuleModelError::InvalidSyntax {
                context: "header operation",
                message: crate::text::lit(
                    "header op must be `name: value`, `-name`, or `name ~ /regex/replacement`",
                ),
            });
        },
    };
    let name = normalize_header_name(string_of(&name_part).as_str())?;
    let value_text = string_of(&trim_chars(&value_part));
    let value = parse_value(value_text.as_str())?;
    Ok(HeaderOp::SetValue { name, value })
}

/// The texts of a list of arguments.
pub open spec fn arg_texts(args: Seq<String>) -> Seq<Seq<char>> {
    args.map_values(|a: String| a@)
}

/// What `body.replace(pattern, replacement)` arguments give: exactly two, a compiling pattern,
/// and the unquoted replacement.
pub open spec fn body_replace_spec(args: Seq<Seq<char>>) -> Result<BodyOpView, ErrId> {
    if args.len() != 2 {
        Err((ModelErrorKind::MissingArgument, "body replacement"))
    } else {
        match replace_pattern_spec(args[0]) {
            Err(id) => Err(id),
            Ok(p) => Ok(BodyOpView::Replace(p, unquote_spec(args[1]))),
        }
    }
}

/// Parses the pattern and replacement of a body replacement action named `action`.
pub fn parse_body_replace(args: &[String], action: &str) -> (r: Result<BodyOp, RuleModelError>)
    ensures
        match (r, body_replace_spec(arg_texts(args@))) {
            (Ok(op), Ok(v)) => op@ == v,
            (Err(e), Err(id)) => is_err(e, id),
            _ => false,
        },
{
    if args.len() != 2 {
        return Err(RuleModelError::MissingArgument {
            context: "body replacement",
            message: concat(action, " requires pattern and replacement"),
        });
    }
    let pattern = parse_regex_replace_pattern(args[0].as_str())?;
    let replacement = unquote(args[1].as_str());
    Ok(BodyOp::Replace { pattern, replacement })
}

/// What a `url.replace` pattern argument is: a regex literal when it starts with `/` and has a
/// closing `/`, otherwise a plain value source.
pub open spec fn url_rewrite_spec(s: Seq<char>) -> Result<UrlRewriteView, ErrId> {
    let t = trim(s);
    if t.len() > 0 && t[0] == '/' && last_slash_from(t, 1, false, None) is Some {
        match replace_pattern_spec(t) {
            Err(id) => Err(id),
            Ok(p) => Ok(UrlRewriteView::Regex(p)),
        }
    } else {
        match value_result(t) {
            Err(id) => Err(id),
            Ok(v) => Ok(UrlRewriteView::Plain(v)),
        }
    }
}

/// Parses the match side of a URL rewrite.
pub fn parse_url_rewrite_pattern(input: &str) -> (r: Result<UrlRewritePattern, RuleModelError>)
    ensures
        match (r, url_rewrite_spec(input@)) {
            (Ok(p), Ok(v)) => p@ == v,
            (Err(e), Err(id)) => is_err(e, id),
            _ => false,
        },
{
    let t = trim_chars(&chars_of(input));
    let text = string_of(&t);
    if t.len() > 0 && t[0] == '/' && regex_literal_end(&t).is_some() {
        let p = parse_regex_replace_pattern(text.as_str())?;
        return Ok(UrlRewritePattern::Regex(p));
    }
    let v = parse_value(text.as_str())?;
    Ok(UrlRewritePattern::Plain(v))
}

} // verus!
