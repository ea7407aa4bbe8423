//! Upgrading unversioned and v2 rule sources to canonical v3 spelling.
use crate::rules::language::{
    action_spellings, canonical_action_name, canonical_condition_name, canonical_in,
    condition_spellings, RULE_LANGUAGE_HEADER,
};
use crate::rules::syntax::{comment_at, last_nonws, strip_comment, strip_comment_spec};
use crate::rules::url::lemma_first_index_bounds;
use crate::text::{
    append_str, char_is_alnum, char_is_alpha, char_is_whitespace, chars_of, has_prefix, is_alnum,
    is_alpha, is_ws, join, lines, lines_of, lit, push_char, seq_eq, starts_with, string_of,
    substring, lemma_trim_start_skip, lemma_trim_end_take, trim, trim_chars, trim_end, trim_start, trim_bounds, find_char, first_index,
    slice_vec, join_strings, views,
};
use vstd::prelude::*;

verus! {

// ---------------------------------------------------------------------------
// Regex bodies in rule lines
// ---------------------------------------------------------------------------

/// A `/` at `i` may open a regex when preceded by nothing or one of `( , = ~ !`.
pub open spec fn begins_regex_at(s: Seq<char>, i: int) -> bool {
    match last_nonws(s.take(i)) {
        None => true,
        Some(c) => c == '(' || c == ',' || c == '=' || c == '~' || c == '!',
    }
}

/// A regex ends at `j` when the next character is absent, whitespace, `,`, or `)`.
pub open spec fn regex_boundary_after(s: Seq<char>, j: int) -> bool {
    j + 1 >= s.len() || is_ws(s[j + 1]) || s[j + 1] == ',' || s[j + 1] == ')'
}

/// Scans a regex body from `j` for its closing `/`, as in [`begins_regex_at`]'s context.
pub open spec fn regex_close_at(s: Seq<char>, j: int, escaped: bool, class: bool) -> Option<int>
    decreases s.len() - j,
{
    if j < 0 || j >= s.len() {
        None
    } else if escaped {
        regex_close_at(s, j + 1, false, class)
    } else if s[j] == '\\' {
        regex_close_at(s, j + 1, true, class)
    } else if s[j] == '[' {
        regex_close_at(s, j + 1, false, true)
    } else if s[j] == ']' && class {
        regex_close_at(s, j + 1, false, false)
    } else if s[j] == '/' && !class && regex_boundary_after(s, j) {
        Some(j)
    } else {
        regex_close_at(s, j + 1, false, class)
    }
}

fn begins_regex(s: &[char], index: usize) -> (r: bool)
    requires
        index <= s@.len(),
    ensures
        r == begins_regex_at(s@, index as int),
{
    let mut i = index;
    while i > 0 && char_is_whitespace(s[i - 1])
        invariant
            i <= index <= s@.len(),
            last_nonws(s@.take(index as int)) == last_nonws(s@.take(i as int)),
        decreases i,
    {
        assert(s@.take(i as int).drop_last() == s@.take(i - 1));
        i -= 1;
    }
    if i == 0 {
        true
    } else {
        let c = s[i - 1];
        c == '(' || c == ',' || c == '=' || c == '~' || c == '!'
    }
}

fn regex_end_at_boundary(s: &[char], start: usize) -> (r: Option<usize>)
    requires
        start < s@.len(),
    ensures
        match r {
            Some(e) => regex_close_at(s@, start + 1, false, false) == Some(e as int),
            None => regex_close_at(s@, start + 1, false, false) is None,
        },
{
    let n = s.len();
    assert(start < n);
    let mut j = start + 1;
    let mut escaped = false;
    let mut class = false;
    while j < n
        invariant
            n == s@.len(),
            start < j <= n,
            regex_close_at(s@, start + 1, false, false) == regex_close_at(s@, j as int, escaped, class),
        decreases n - j,
    {
        let c = s[j];
        if escaped {
            escaped = false;
        } else if c == '\\' {
            escaped = true;
        } else if c == '[' {
            class = true;
        } else if c == ']' && class {
            class = false;
        } else if c == '/' && !class {
            let boundary = j + 1 >= n || char_is_whitespace(s[j + 1]) || s[j + 1] == ','
                || s[j + 1] == ')';
            if boundary {
                return Some(j);
            }
        }
        j += 1;
    }
    None
}

// ---------------------------------------------------------------------------
// Canonical call names
// ---------------------------------------------------------------------------

/// Characters that continue a call name.
pub open spec fn name_char(c: char) -> bool {
    is_alnum(c) || c == '.' || c == '_' || c == '-'
}

/// The end of the run of name characters starting at `j`.
pub open spec fn name_end(s: Seq<char>, j: int) -> int
    decreases s.len() - j,
{
    if j < 0 || j >= s.len() || !name_char(s[j]) {
        j
    } else {
        name_end(s, j + 1)
    }
}

pub proof fn lemma_name_end(s: Seq<char>, j: int)
    requires
        0 <= j <= s.len(),
    ensures
        j <= name_end(s, j) <= s.len(),
    decreases s.len() - j,
{
    if j < s.len() && name_char(s[j]) {
        lemma_name_end(s, j + 1);
    }
}

/// The canonical action or condition spelling of a call name, or the name itself.
pub open spec fn canonical_call(name: Seq<char>) -> Seq<char> {
    match canonical_in(action_spellings(), name) {
        Some(c) => c,
        None => match canonical_in(condition_spellings(), name) {
            Some(c) => c,
            None => name,
        },
    }
}

/// The rewritten text of a rule line from position `i` on, in the given scanning state: call
/// names (alphabetic words directly followed by `(`) become canonical, while quoted text,
/// escapes, regex bodies, and comments are copied as written.
pub open spec fn canon_from(
    s: Seq<char>,
    i: int,
    quote: Option<char>,
    escaped: bool,
    regex_end: Option<int>,
) -> Seq<char>
    decreases s.len() - i,
{
    if i < 0 || i >= s.len() {
        seq![]
    } else {
        let ch = s[i];
        if regex_end is Some {
            seq![ch] + canon_from(
                s,
                i + 1,
                quote,
                escaped,
                if regex_end == Some(i) {
                    None
                } else {
                    regex_end
                },
            )
        } else if escaped {
            seq![ch] + canon_from(s, i + 1, quote, false, None)
        } else if ch == '\\' {
            seq![ch] + canon_from(s, i + 1, quote, true, None)
        } else if quote is Some {
            seq![ch] + canon_from(
                s,
                i + 1,
                if quote == Some(ch) {
                    None
                } else {
                    quote
                },
                false,
                None,
            )
        } else if ch == '"' || ch == '\'' {
            seq![ch] + canon_from(s, i + 1, Some(ch), false, None)
        } else if ch == '#' {
            s.skip(i)
        } else if ch == '/' && begins_regex_at(s, i) && regex_close_at(s, i + 1, false, false) is Some {
            seq![ch] + canon_from(s, i + 1, None, false, regex_close_at(s, i + 1, false, false))
        } else if is_alpha(ch) {
            proof {
                lemma_name_end(s, i + 1);
            }
            let j = name_end(s, i + 1);
            let name = s.subrange(i, j);
            (if j < s.len() && s[j] == '(' {
                canonical_call(name)
            } else {
                name
            }) + canon_from(s, j, None, false, None)
        } else {
            seq![ch] + canon_from(s, i + 1, None, false, None)
        }
    }
}

/// Rewrites known action and condition aliases to canonical spelling where they stand as call
/// names, preserving quoted values, regex bodies, and comments.
pub fn canonicalize_call_names(line: &str) -> (r: String)
    ensures
        r@ == canon_from(line@, 0, None, false, None),
{
    let s = chars_of(line);
    let mut out = String::new();
    let mut i: usize = 0;
    let mut quote: Option<char> = None;
    let mut escaped = false;
    let mut regex_end: Option<usize> = None;
    while i < s.len()
        invariant
            s@ == line@,
            i <= s@.len(),
            regex_end is Some ==> (quote is None && !escaped),
            out@ + canon_from(
                s@,
                i as int,
                quote,
                escaped,
                match regex_end {
                    Some(e) => Some(e as int),
                    None => None,
                },
            ) == canon_from(s@, 0, None, false, None),
        decreases s@.len() - i,
    {
        let ch = s[i];
        if let Some(end) = regex_end {
            push_char(&mut out, ch);
            if i == end {
                regex_end = None;
            }
            i += 1;
            continue;
        }
        if escaped {
            push_char(&mut out, ch);
            escaped = false;
            i += 1;
            continue;
        }
        if ch == '\\' {
            push_char(&mut out, ch);
            escaped = true;
            i += 1;
            continue;
        }
        if let Some(d) = quote {
            push_char(&mut out, ch);
            if ch == d {
                quote = None;
            }
            i += 1;
            continue;
        }
        if ch == '"' || ch == '\'' {
            quote = Some(ch);
            push_char(&mut out, ch);
            i += 1;
            continue;
        }
        if ch == '#' {
            let rest = substring(&s, i, s.len());
            append_str(&mut out, rest.as_str());
            assert(s@.subrange(i as int, s@.len() as int) == s@.skip(i as int));
            return out;
        }
        if ch == '/' && begins_regex(&s, i) {
            if let Some(end) = regex_end_at_boundary(&s, i) {
                regex_end = Some(end);
                push_char(&mut out, ch);
                i += 1;
                continue;
            }
        }
        if char_is_alpha(ch) {
            let start = i;
            let mut j = i + 1;
            proof {
                lemma_name_end(s@, i + 1);
            }
            while j < s.len() && (char_is_alnum(s[j]) || s[j] == '.' || s[j] == '_' || s[j] == '-')
                invariant
                    start < j <= s@.len(),
                    name_end(s@, start + 1) == name_end(s@, j as int),
                decreases s@.len() - j,
            {
                j += 1;
            }
            let name = substring(&s, start, j);
            let ghost piece = if j < s@.len() && s@[j as int] == '(' {
                canonical_call(name@)
            } else {
                name@
            };
            if j < s.len() && s[j] == '(' {
                match canonical_action_name(name.as_str()) {
                    Some(c) => append_str(&mut out, c),
                    None => match canonical_condition_name(name.as_str()) {
                        Some(c) => append_str(&mut out, c),
                        None => append_str(&mut out, name.as_str()),
                    },
                }
            } else {
                append_str(&mut out, name.as_str());
            }
            assert(out@ + canon_from(s@, j as int, None, false, None) == canon_from(
                s@,
                0,
                None,
                false,
                None,
            )) by {
                assert(canon_from(s@, start as int, None, false, None) == piece + canon_from(
                    s@,
                    j as int,
                    None,
                    false,
                    None,
                ));
            }
            i = j;
            continue;
        }
        push_char(&mut out, ch);
        i += 1;
    }
    out
}

// ---------------------------------------------------------------------------
// Language directives
// ---------------------------------------------------------------------------

/// A line whose effective text (comment removed, trimmed) is `@language` alone or followed by
/// whitespace.
pub open spec fn is_directive(line: Seq<char>) -> bool {
    match strip_comment_spec(line) {
        None => false,
        Some(e) => {
            let t = trim(e);
            t == "@language"@ || (has_prefix(t, "@language"@) && t.len() > 9 && is_ws(t[9]))
        },
    }
}

/// Reports whether a line is a language directive.
pub fn is_language_directive(line: &str) -> (r: bool)
    ensures
        r == is_directive(line@),
{
    let effective = match strip_comment(line) {
        None => {
            return false;
        },
        Some(e) => e,
    };
    let ec = chars_of(effective.as_str());
    let t = trim_chars(&ec);
    let word = chars_of("@language");
    proof {
        reveal_strlit("@language");
    }
    if seq_eq(&t, &word) {
        return true;
    }
    starts_with(&t, &word) && t.len() > 9 && char_is_whitespace(t[9])
}

/// The directive line rewritten to the current version header, keeping its indentation and any
/// comment with the whitespace before it.
pub open spec fn replaced_directive(line: Seq<char>) -> Seq<char> {
    let lead = (line.len() - trim_start(line).len()) as int;
    let leading = line.take(lead);
    match first_index(line, '#') {
        None => leading + RULE_LANGUAGE_HEADER@,
        Some(c) => {
            let gap = trim_end(line.subrange(lead, c)).len() + lead;
            leading + RULE_LANGUAGE_HEADER@ + line.skip(gap)
        },
    }
}

/// Replaces a language directive with the current version header.
pub fn replace_language_directive(line: &str) -> (r: String)
    ensures
        r@ == replaced_directive(line@),
{
    let s = chars_of(line);
    let (a, _b) = trim_bounds(&s);
    proof {
        assert(s@.skip(a as int).len() == s@.len() - a);
    }
    let leading = substring(&s, 0, a);
    assert(leading@ == s@.take(a as int));
    let mut out = leading;
    match find_char(&s, '#') {
        None => {
            append_str(&mut out, RULE_LANGUAGE_HEADER);
            assert(first_index(s@, '#') is None);
            out
        },
        Some(c) => {
            assert(first_index(s@, '#') == Some(c as int));
            if c < a {
                assert(is_ws(s@[c as int]));
                assert(false);
            }
            let directive = slice_vec(&s, a, c);
            let gap = trim_end_len(&directive) + a;
            append_str(&mut out, RULE_LANGUAGE_HEADER);
            let rest = substring(&s, gap, s.len());
            append_str(&mut out, rest.as_str());
            assert(s@.subrange(gap as int, s@.len() as int) == s@.skip(gap as int));
            out
        },
    }
}

/// Length of `s` without trailing whitespace.
fn trim_end_len(s: &[char]) -> (r: usize)
    ensures
        r == trim_end(s@).len(),
        r <= s@.len(),
{
    let mut e = s.len();
    assert(s@.take(s@.len() as int) == s@);
    while e > 0 && char_is_whitespace(s[e - 1])
        invariant
            e <= s@.len(),
            trim_end(s@) == trim_end(s@.take(e as int)),
        decreases e,
    {
        assert(s@.take(e as int).drop_last() == s@.take(e - 1));
        e -= 1;
    }
    assert(e == 0 || !is_ws(s@.take(e as int).last()));
    e
}


// ---------------------------------------------------------------------------
// Whole sources
// ---------------------------------------------------------------------------

/// The first line at or after `i` that holds more than whitespace and comments.
pub open spec fn first_effective(ls: Seq<Seq<char>>, i: int) -> Option<int>
    decreases ls.len() - i,
{
    if i < 0 || i >= ls.len() {
        None
    } else if strip_comment_spec(ls[i]) is Some {
        Some(i)
    } else {
        first_effective(ls, i + 1)
    }
}

/// The lines with the directive brought to the current version: the first effective line is
/// replaced when it is a directive; otherwise the header is inserted before it, or appended when
/// there is no effective line.
pub open spec fn with_header(ls: Seq<Seq<char>>) -> Seq<Seq<char>> {
    match first_effective(ls, 0) {
        Some(i) => if is_directive(ls[i]) {
            ls.update(i, replaced_directive(ls[i]))
        } else {
            ls.insert(i, RULE_LANGUAGE_HEADER@)
        },
        None => ls.push(RULE_LANGUAGE_HEADER@),
    }
}

/// One migrated line: directives stay, other lines get canonical call names.
pub open spec fn migrated_line(l: Seq<char>) -> Seq<char> {
    if is_directive(l) {
        l
    } else {
        canon_from(l, 0, None, false, None)
    }
}

/// The lines of a migrated source: the source's lines with the header in place, each migrated.
pub open spec fn migrated_lines(src: Seq<char>) -> Seq<Seq<char>> {
    with_header(lines(src)).map_values(|l: Seq<char>| migrated_line(l))
}

/// A whole migrated source: its lines, with the header in place and canonical call names, joined
/// by newlines, ending with a newline when the source did or was empty.
pub open spec fn migrate_spec(src: Seq<char>) -> Seq<char> {
    let ls = migrated_lines(src);
    join(ls, "\n"@) + (if src.len() == 0 || src.last() == '\n' {
        seq!['\n']
    } else {
        seq![]
    })
}

fn strings_of_lines(raw: &Vec<Vec<char>>) -> (r: Vec<String>)
    ensures
        r@.map_values(|x: String| x@) == raw@.map_values(|v: Vec<char>| v@),
{
    let ghost ls0 = raw@.map_values(|v: Vec<char>| v@);
    let mut ls: Vec<String> = Vec::new();
    let mut i: usize = 0;
    while i < raw.len()
        invariant
            i <= raw@.len(),
            ls0 == raw@.map_values(|v: Vec<char>| v@),
            ls@.map_values(|x: String| x@) == ls0.take(i as int),
        decreases raw@.len() - i,
    {
        assert(ls0[i as int] == raw@[i as int]@);
        let ghost before = ls@.map_values(|x: String| x@);
        let line = string_of(&raw[i]);
        ls.push(line);
        assert(ls@.map_values(|x: String| x@) =~= before.push(line@));
        assert(ls0.take(i + 1) =~= ls0.take(i as int).push(ls0[i as int]));
        i += 1;
    }
    assert(ls0.take(raw@.len() as int) == ls0);
    ls
}

fn first_effective_line(ls: &Vec<String>) -> (r: Option<usize>)
    ensures
        match r {
            Some(f) => first_effective(ls@.map_values(|x: String| x@), 0) == Some(f as int) && f
                < ls@.len(),
            None => first_effective(ls@.map_values(|x: String| x@), 0) is None,
        },
{
    let ghost ls0 = ls@.map_values(|x: String| x@);
    let mut k: usize = 0;
    while k < ls.len()
        invariant
            k <= ls@.len(),
            ls0 == ls@.map_values(|x: String| x@),
            first_effective(ls0, 0) == first_effective(ls0, k as int),
        decreases ls@.len() - k,
    {
        assert(ls0[k as int] == ls@[k as int]@);
        if strip_comment(ls[k].as_str()).is_some() {
            return Some(k);
        }
        k += 1;
    }
    None
}

fn place_header(ls: &mut Vec<String>)
    ensures
        final(ls)@.map_values(|x: String| x@) == with_header(old(ls)@.map_values(|x: String| x@)),
{
    let ghost ls0 = ls@.map_values(|x: String| x@);
    match first_effective_line(ls) {
        Some(f) => {
            assert(ls0[f as int] == ls@[f as int]@);
            if is_language_directive(ls[f].as_str()) {
                let replaced = replace_language_directive(ls[f].as_str());
                ls.set(f, replaced);
                assert(ls@.map_values(|x: String| x@) =~= with_header(ls0));
            } else {
                ls.insert(f, lit(RULE_LANGUAGE_HEADER));
                assert(ls@.map_values(|x: String| x@) =~= with_header(ls0));
            }
        },
        None => {
            ls.push(lit(RULE_LANGUAGE_HEADER));
            assert(ls@.map_values(|x: String| x@) =~= with_header(ls0));
        },
    }
}

fn migrate_lines(ls: &Vec<String>) -> (r: Vec<String>)
    ensures
        r@.map_values(|x: String| x@) == ls@.map_values(|x: String| x@).map_values(
            |l: Seq<char>| migrated_line(l),
        ),
{
    let ghost ls1 = ls@.map_values(|x: String| x@);
    let mut out_lines: Vec<String> = Vec::new();
    let mut j: usize = 0;
    while j < ls.len()
        invariant
            j <= ls@.len(),
            ls@.map_values(|x: String| x@) == ls1,
            out_lines@.map_values(|x: String| x@) == ls1.take(j as int).map_values(
                |l: Seq<char>| migrated_line(l),
            ),
        decreases ls@.len() - j,
    {
        assert(ls1[j as int] == ls@[j as int]@);
        let line = if is_language_directive(ls[j].as_str()) {
            ls[j].clone()
        } else {
            canonicalize_call_names(ls[j].as_str())
        };
        assert(line@ == migrated_line(ls1[j as int]));
        let ghost before = out_lines@.map_values(|x: String| x@);
        out_lines.push(line);
        assert(out_lines@.map_values(|x: String| x@) =~= before.push(line@));
        assert(ls1.take(j + 1).map_values(|l: Seq<char>| migrated_line(l)) =~= ls1.take(
            j as int,
        ).map_values(|l: Seq<char>| migrated_line(l)).push(migrated_line(ls1[j as int])));
        j += 1;
    }
    assert(ls1.take(ls@.len() as int) == ls1);
    out_lines
}

/// Upgrades an unversioned/v2 rule source to canonical v3 syntax.
///
/// The migration adds or replaces the language directive and rewrites known action/condition
/// aliases only when they occur as call names. Quoted values and regex bodies are preserved.
pub fn migrate_rule_source_v3(source: &str) -> (r: String)
    ensures
        r@ == migrate_spec(source@),
{
    let s = chars_of(source);
    let had_newline = s.len() > 0 && s[s.len() - 1] == '\n';
    let raw = lines_of(&s);
    let mut ls = strings_of_lines(&raw);
    place_header(&mut ls);
    let out_lines = migrate_lines(&ls);
    assert(views(out_lines@) =~= out_lines@.map_values(|x: String| x@));
    let mut migrated = join_strings(&out_lines, "\n");
    if had_newline || s.len() == 0 {
        push_char(&mut migrated, '\n');
    }
    migrated
}

// ---------------------------------------------------------------------------
// The version header comes first
// ---------------------------------------------------------------------------

/// A character that neither escapes, quotes, nor opens a comment.
spec fn plain(c: char) -> bool {
    c != '\\' && c != '"' && c != '\'' && c != '#'
}

proof fn lemma_comment_at_plain(s: Seq<char>, i: int, j: int)
    requires
        0 <= i <= j <= s.len(),
        forall|k: int| i <= k < j ==> plain(#[trigger] s[k]),
    ensures
        comment_at(s, i, false, None) == comment_at(s, j, false, None),
    decreases j - i,
{
    if i < j {
        assert(plain(s[i]));
        lemma_comment_at_plain(s, i + 1, j);
    }
}

proof fn lemma_comment_at_bounds(s: Seq<char>, i: int, escaped: bool, quote: Option<char>)
    requires
        0 <= i,
    ensures
        comment_at(s, i, escaped, quote) == s.len() || (i <= comment_at(s, i, escaped, quote) < s.len()
            && s[comment_at(s, i, escaped, quote)] == '#'),
    decreases s.len() - i,
{
    if i < s.len() {
        if escaped {
            lemma_comment_at_bounds(s, i + 1, false, quote);
        } else if s[i] == '\\' {
            lemma_comment_at_bounds(s, i + 1, true, quote);
        } else if quote is Some {
            lemma_comment_at_bounds(s, i + 1, false, if quote == Some(s[i]) { None } else { quote });
        } else if s[i] == '"' || s[i] == '\'' {
            lemma_comment_at_bounds(s, i + 1, false, Some(s[i]));
        } else if s[i] != '#' {
            lemma_comment_at_bounds(s, i + 1, false, None);
        }
    }
}

proof fn lemma_trim_start_shape(t: Seq<char>)
    ensures
        trim_start(t).len() <= t.len(),
        trim_start(t) == t.skip(t.len() - trim_start(t).len()),
        forall|k: int| 0 <= k < t.len() - trim_start(t).len() ==> is_ws(#[trigger] t[k]),
        trim_start(t).len() > 0 ==> !is_ws(trim_start(t)[0]),
    decreases t.len(),
{
    if t.len() > 0 && is_ws(t[0]) {
        let d = t.drop_first();
        lemma_trim_start_shape(d);
        assert forall|k: int| 0 <= k < t.len() - trim_start(t).len() implies is_ws(#[trigger] t[k]) by {
            if k > 0 {
                assert(t[k] == d[k - 1]);
            }
        }
        assert(d.skip(d.len() - trim_start(t).len()) =~= t.skip(t.len() - trim_start(t).len()));
    } else {
        assert(t.skip(0) =~= t);
    }
}

proof fn lemma_trim_end_shape(t: Seq<char>)
    ensures
        trim_end(t).len() <= t.len(),
        trim_end(t) == t.take(trim_end(t).len() as int),
        forall|k: int| trim_end(t).len() <= k < t.len() ==> is_ws(#[trigger] t[k]),
        t.len() > 0 && !is_ws(t[0]) ==> trim_end(t).len() > 0,
    decreases t.len(),
{
    if t.len() > 0 && is_ws(t.last()) {
        let d = t.drop_last();
        lemma_trim_end_shape(d);
        assert forall|k: int| trim_end(t).len() <= k < t.len() implies is_ws(#[trigger] t[k]) by {
            if k < t.len() - 1 {
                assert(t[k] == d[k]);
            }
        }
        assert(d.take(trim_end(t).len() as int) =~= t.take(trim_end(t).len() as int));
        if t.len() > 1 {
            assert(d[0] == t[0]);
        }
    } else {
        assert(t.take(t.len() as int) =~= t);
    }
}

proof fn lemma_trim_empty_all_ws(t: Seq<char>)
    requires
        trim(t).len() == 0,
    ensures
        forall|k: int| 0 <= k < t.len() ==> is_ws(#[trigger] t[k]),
{
    lemma_trim_start_shape(t);
    lemma_trim_end_shape(trim_start(t));
}

proof fn lemma_canon_blank(s: Seq<char>, i: int, c: int)
    requires
        0 <= i <= c <= s.len(),
        c == s.len() || s[c] == '#',
        forall|k: int| i <= k < c ==> is_ws(#[trigger] s[k]),
    ensures
        canon_from(s, i, None, false, None) == s.skip(i),
    decreases c - i,
{
    if i < c {
        lemma_canon_blank(s, i + 1, c);
        assert(is_ws(s[i]));
        assert(seq![s[i]] + s.skip(i + 1) =~= s.skip(i));
    } else if c == s.len() {
        assert(s.skip(i) =~= Seq::<char>::empty());
    }
}

/// A line with nothing but whitespace before its comment is no directive and migrates to
/// itself.
proof fn lemma_blank_line_kept(l: Seq<char>)
    requires
        strip_comment_spec(l) is None,
    ensures
        !is_directive(l),
        migrated_line(l) == l,
{
    let c = comment_at(l, 0, false, None);
    lemma_comment_at_bounds(l, 0, false, None);
    lemma_trim_empty_all_ws(l.take(c));
    assert forall|k: int| 0 <= k < c implies is_ws(#[trigger] l[k]) by {
        assert(l.take(c)[k] == l[k]);
    }
    lemma_canon_blank(l, 0, c);
    assert(l.skip(0) =~= l);
}

proof fn lemma_header_chars()
    ensures
        RULE_LANGUAGE_HEADER@.len() == 11,
        forall|j: int| 0 <= j < 11 ==> plain(#[trigger] RULE_LANGUAGE_HEADER@[j]),
        !is_ws(RULE_LANGUAGE_HEADER@[0]),
        !is_ws(RULE_LANGUAGE_HEADER@[10]),
        RULE_LANGUAGE_HEADER@.take(9) == "@language"@,
        is_ws(RULE_LANGUAGE_HEADER@[9]),
{
    reveal_strlit("@language 3");
    reveal_strlit("@language");
    let h = RULE_LANGUAGE_HEADER@;
    assert(h == "@language 3"@);
    assert forall|j: int| 0 <= j < 11 implies plain(#[trigger] h[j]) by {
        assert(j == 0 || j == 1 || j == 2 || j == 3 || j == 4 || j == 5 || j == 6 || j == 7 || j == 8
            || j == 9 || j == 10);
    }
    assert(h.take(9) =~= "@language"@);
}

/// The header after leading whitespace, followed by nothing or by whitespace and a comment, is a
/// directive that migrates to itself and whose text before the comment trims to the header.
proof fn lemma_header_line(lead: Seq<char>, rest: Seq<char>, h: int)
    requires
        forall|k: int| 0 <= k < lead.len() ==> is_ws(#[trigger] lead[k]),
        0 <= h <= rest.len(),
        h == rest.len() || rest[h] == '#',
        forall|k: int| 0 <= k < h ==> is_ws(#[trigger] rest[k]),
    ensures
        ({
            let line = lead + RULE_LANGUAGE_HEADER@ + rest;
            &&& strip_comment_spec(line) matches Some(e) && trim(e) == RULE_LANGUAGE_HEADER@
            &&& is_directive(line)
            &&& migrated_line(line) == line
        }),
{
    lemma_header_chars();
    reveal_strlit("@language");
    let hd = RULE_LANGUAGE_HEADER@;
    let line = lead + hd + rest;
    let n1 = lead.len() as int;
    let n2 = n1 + 11;
    assert forall|k: int| 0 <= k < n2 + h implies plain(#[trigger] line[k]) by {
        if k < n1 {
            assert(line[k] == lead[k]);
        } else if k < n2 {
            assert(line[k] == hd[k - n1]);
        } else {
            assert(line[k] == rest[k - n2]);
        }
    }
    lemma_comment_at_plain(line, 0, n2 + h);
    if h < rest.len() {
        assert(line[n2 + h] == rest[h]);
    }
    assert(comment_at(line, 0, false, None) == n2 + h);
    let e = line.take(n2 + h);
    assert forall|k: int| 0 <= k < n1 implies is_ws(#[trigger] e[k]) by {
        assert(e[k] == lead[k]);
    }
    lemma_trim_start_skip(e, n1);
    let u = e.skip(n1);
    assert(u =~= hd + rest.take(h));
    assert(u[0] == hd[0]);
    assert(trim_start(u) == u);
    assert forall|k: int| 11 <= k < u.len() implies is_ws(#[trigger] u[k]) by {
        assert(u[k] == rest[k - 11]);
    }
    lemma_trim_end_take(u, 11);
    assert(u.take(11) =~= hd);
    assert(hd.last() == hd[10]);
    assert(trim_end(hd) == hd);
    assert(trim(e) == hd);
    assert(trim(e).len() > 0);
    assert(strip_comment_spec(line) == Some(e));
    assert(has_prefix(hd, "@language"@));
    assert(hd != "@language"@) by {
        assert(hd.len() != "@language"@.len());
    }
}

/// A language directive rewritten to the header is a directive that migrates to itself and
/// whose text before any comment trims to the header.
proof fn lemma_replaced_directive(l: Seq<char>)
    ensures
        ({
            let r = replaced_directive(l);
            &&& strip_comment_spec(r) matches Some(e) && trim(e) == RULE_LANGUAGE_HEADER@
            &&& migrated_line(r) == r
        }),
{
    let lead = (l.len() - trim_start(l).len()) as int;
    lemma_trim_start_shape(l);
    let leading = l.take(lead);
    assert forall|k: int| 0 <= k < leading.len() implies is_ws(#[trigger] leading[k]) by {
        assert(leading[k] == l[k]);
    }
    lemma_first_index_bounds(l, '#');
    match first_index(l, '#') {
        None => {
            lemma_header_line(leading, Seq::<char>::empty(), 0);
            assert(leading + RULE_LANGUAGE_HEADER@ + Seq::<char>::empty() =~= leading + RULE_LANGUAGE_HEADER@);
        },
        Some(c) => {
            if c < lead {
                assert(is_ws(l[c]));
            }
            let u = l.subrange(lead, c);
            lemma_trim_end_shape(u);
            let gap = trim_end(u).len() + lead;
            let rest = l.skip(gap);
            let h = c - gap;
            assert forall|k: int| 0 <= k < h implies is_ws(#[trigger] rest[k]) by {
                assert(rest[k] == l[gap + k]);
                assert(u[gap + k - lead] == l[gap + k]);
            }
            assert(rest[h] == l[c]);
            lemma_header_line(leading, rest, h);
        },
    }
}

proof fn lemma_first_effective_at(ls: Seq<Seq<char>>, j: int, i: int)
    requires
        0 <= j <= i < ls.len(),
        strip_comment_spec(ls[i]) is Some,
        forall|k: int| j <= k < i ==> strip_comment_spec(#[trigger] ls[k]) is None,
    ensures
        first_effective(ls, j) == Some(i),
    decreases i - j,
{
    if j < i {
        lemma_first_effective_at(ls, j + 1, i);
    }
}

proof fn lemma_first_effective_shape(ls: Seq<Seq<char>>, j: int)
    requires
        0 <= j,
    ensures
        match first_effective(ls, j) {
            Some(i) => j <= i < ls.len() && strip_comment_spec(ls[i]) is Some && forall|k: int|
                j <= k < i ==> strip_comment_spec(#[trigger] ls[k]) is None,
            None => forall|k: int| j <= k < ls.len() ==> strip_comment_spec(#[trigger] ls[k]) is None,
        },
    decreases ls.len() - j,
{
    if j < ls.len() && strip_comment_spec(ls[j]) is None {
        lemma_first_effective_shape(ls, j + 1);
    }
}

/// After migration the first line holding more than whitespace and comments is the version
/// header: its text before any comment, trimmed, is the current header.
pub proof fn law_migrated_header_comes_first(src: Seq<char>)
    ensures
        first_effective(migrated_lines(src), 0) matches Some(i) && trim(
            strip_comment_spec(migrated_lines(src)[i])->Some_0,
        ) == RULE_LANGUAGE_HEADER@,
{
    let ls = lines(src);
    let w = with_header(ls);
    let m = migrated_lines(src);
    lemma_first_effective_shape(ls, 0);
    let at: int = match first_effective(ls, 0) {
        Some(i) => i,
        None => ls.len() as int,
    };
    assert(m.len() == w.len());
    assert forall|k: int| 0 <= k < at implies strip_comment_spec(#[trigger] m[k]) is None by {
        assert(w[k] == ls[k]);
        lemma_blank_line_kept(ls[k]);
    }
    match first_effective(ls, 0) {
        Some(i) => {
            if is_directive(ls[i]) {
                lemma_replaced_directive(ls[i]);
                assert(w[i] == replaced_directive(ls[i]));
            } else {
                lemma_header_line(Seq::<char>::empty(), Seq::<char>::empty(), 0);
                assert(Seq::<char>::empty() + RULE_LANGUAGE_HEADER@ + Seq::<char>::empty() =~= RULE_LANGUAGE_HEADER@);
                assert(w[i] == RULE_LANGUAGE_HEADER@);
            }
        },
        None => {
            lemma_header_line(Seq::<char>::empty(), Seq::<char>::empty(), 0);
            assert(Seq::<char>::empty() + RULE_LANGUAGE_HEADER@ + Seq::<char>::empty() =~= RULE_LANGUAGE_HEADER@);
            assert(w[at] == RULE_LANGUAGE_HEADER@);
        },
    }
    assert(m[at] == migrated_line(w[at]));
    lemma_first_effective_at(m, 0, at);
}

} // verus!

