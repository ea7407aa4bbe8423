//! Call syntax shared by actions, conditions, and properties: argument splitting, value
//! sources, quoting, and comments.
use crate::rules::error::{ModelErrorKind, RuleModelError};
use crate::rules::language::{MAX_RULE_CALL_ARGUMENTS, MAX_RULE_PARSE_NESTING};
use crate::rules::value::{valid_value_key, value_key, Value, ValueKind, ValueView};
use crate::text::{
    char_is_whitespace, chars_of, concat, concat3, contains_char, find_char, first_index, is_ws, lit,
    push_char, slice_vec, string_of, substring, trim, trim_chars, trim_str, trim_start, trim_end,
};
use vstd::prelude::*;

verus! {

// ---------------------------------------------------------------------------
// Looking around a position
// ---------------------------------------------------------------------------

/// The last non-whitespace character of `s`.
pub open spec fn last_nonws(s: Seq<char>) -> Option<char>
    decreases s.len(),
{
    if s.len() == 0 {
        None
    } else if is_ws(s.last()) {
        last_nonws(s.drop_last())
    } else {
        Some(s.last())
    }
}

/// The first non-whitespace character of `s`.
pub open spec fn first_nonws(s: Seq<char>) -> Option<char>
    decreases s.len(),
{
    if s.len() == 0 {
        None
    } else if is_ws(s[0]) {
        first_nonws(s.drop_first())
    } else {
        Some(s[0])
    }
}

/// Returns the last non-whitespace character before `index`, if any.
fn last_non_whitespace_before(s: &[char], index: usize) -> (r: Option<char>)
    requires
        index <= s@.len(),
    ensures
        r == last_nonws(s@.take(index as int)),
{
    let mut i = index;
    while i > 0 && char_is_whitespace(s[i - 1])
        invariant
            i <= index <= s@.len(),
            last_nonws(s@.take(index as int)) == last_nonws(s@.take(i as int)),
        decreases i,
    {
        assert(s@.take(i as int).drop_last() == s@.take(i - 1));
        i -= 1;
    }
    if i == 0 {
        None
    } else {
        Some(s[i - 1])
    }
}

/// Returns the first non-whitespace character at or after `index`, if any.
fn first_non_whitespace_from(s: &[char], index: usize) -> (r: Option<char>)
    requires
        index <= s@.len(),
    ensures
        r == first_nonws(s@.skip(index as int)),
{
    let mut i = index;
    while i < s.len() && char_is_whitespace(s[i])
        invariant
            index <= i <= s@.len(),
            first_nonws(s@.skip(index as int)) == first_nonws(s@.skip(i as int)),
        decreases s@.len() - i,
    {
        assert(s@.skip(i as int).drop_first() == s@.skip(i + 1));
        i += 1;
    }
    if i == s.len() {
        None
    } else {
        Some(s[i])
    }
}

/// A `<` at `i` opens a file value when nothing but whitespace, `,`, `(`, or `=` precedes it.
pub open spec fn begins_file_at(s: Seq<char>, i: int) -> bool {
    match last_nonws(s.take(i)) {
        None => true,
        Some(c) => c == ',' || c == '(' || c == '=',
    }
}

/// A `/` at `i` may open a regex value when preceded by nothing, `,`, `(`, `=`, or `~`.
pub open spec fn begins_regex_at(s: Seq<char>, i: int) -> bool {
    match last_nonws(s.take(i)) {
        None => true,
        Some(c) => c == ',' || c == '(' || c == '=' || c == '~',
    }
}

fn begins_file_value(s: &[char], index: usize) -> (r: bool)
    requires
        index <= s@.len(),
    ensures
        r == begins_file_at(s@, index as int),
{
    match last_non_whitespace_before(s, index) {
        None => true,
        Some(c) => c == ',' || c == '(' || c == '=',
    }
}

fn begins_regex_value(s: &[char], index: usize) -> (r: bool)
    requires
        index <= s@.len(),
    ensures
        r == begins_regex_at(s@, index as int),
{
    match last_non_whitespace_before(s, index) {
        None => true,
        Some(c) => c == ',' || c == '(' || c == '=' || c == '~',
    }
}

// ---------------------------------------------------------------------------
// Regex values inside call arguments
// ---------------------------------------------------------------------------

/// A `/` at `j` ends an argument regex when only whitespace stands between it and the next
/// `,` or the end of the input.
pub open spec fn argument_boundary_after(s: Seq<char>, j: int) -> bool {
    match first_nonws(s.skip(j + 1)) {
        None => true,
        Some(c) => c == ',',
    }
}

/// Scans a regex body from `j`, tracking escapes and character classes, for the first
/// unescaped `/` outside a class that stands before an argument boundary.
pub open spec fn regex_close_from(s: Seq<char>, j: int, escaped: bool, class: bool) -> Option<int>
    decreases s.len() - j,
{
    if j < 0 || j >= s.len() {
        None
    } else if escaped {
        regex_close_from(s, j + 1, false, class)
    } else if s[j] == '\\' {
        regex_close_from(s, j + 1, true, class)
    } else if s[j] == '[' {
        regex_close_from(s, j + 1, false, true)
    } else if s[j] == ']' && class {
        regex_close_from(s, j + 1, false, false)
    } else if s[j] == '/' && !class && argument_boundary_after(s, j) {
        Some(j)
    } else {
        regex_close_from(s, j + 1, false, class)
    }
}

/// Finds a closing regex delimiter only when it is followed by an argument boundary. This keeps
/// `/a,b/` as one regex value without mistaking the two ordinary path arguments in
/// `url.rewrite(/old, /new)` for one regex.
fn regex_end_at_argument_boundary(s: &[char], start: usize) -> (r: Option<usize>)
    requires
        start < s@.len(),
    ensures
        match r {
            Some(e) => regex_close_from(s@, start + 1, false, false) == Some(e as int),
            None => regex_close_from(s@, start + 1, false, false) is None,
        },
{
    let n = s.len();
    assert(start < n);
    let mut j = start + 1;
    let mut escaped = false;
    let mut class = false;
    while j < s.len()
        invariant
            start < j <= s@.len(),
            regex_close_from(s@, start + 1, false, false) == regex_close_from(s@, j as int, escaped, class),
        decreases s@.len() - j,
    {
        let c = s[j];
        if escaped {
            escaped = false;
        } else if c == '\\' {
            escaped = true;
        } else if c == '[' {
            class = true;
        } else if c == ']' && class {
            class = false;
        } else if c == '/' && !class {
            let next = first_non_whitespace_from(s, j + 1);
            let boundary = match next {
                None => true,
                Some(n) => n == ',',
            };
            if boundary {
                return Some(j);
            }
        }
        j += 1;
    }
    None
}

// ---------------------------------------------------------------------------
// Splitting call arguments
// ---------------------------------------------------------------------------

/// Why splitting call arguments failed.
#[derive(PartialEq, Eq, Structural)]
pub enum SplitFailure {
    /// Open delimiters exceeded the nesting limit.
    Nesting,
    /// A closing delimiter had no opening partner.
    Unmatched(char),
    /// A quote was never closed.
    Unterminated,
    /// An opening delimiter was never closed.
    Unclosed(char),
    /// An argument before a comma was empty.
    EmptyArgument,
    /// The last argument was empty, or the input ended with a comma.
    EmptyLast,
    /// More than the argument limit were given.
    TooMany,
}

/// State of the argument splitter after a prefix of its input.
pub struct SplitState {
    pub args: Seq<Seq<char>>,
    pub start: int,
    pub quote: Option<char>,
    pub angle: nat,
    pub brace: nat,
    pub bracket: nat,
    pub paren: nat,
    pub escaped: bool,
    pub regex_end: Option<int>,
    pub failure: Option<SplitFailure>,
}

pub open spec fn split_init() -> SplitState {
    SplitState {
        args: seq![],
        start: 0,
        quote: None,
        angle: 0,
        brace: 0,
        bracket: 0,
        paren: 0,
        escaped: false,
        regex_end: None,
        failure: None,
    }
}

/// The open delimiters of a state.
pub open spec fn split_depth(st: SplitState) -> nat {
    st.angle + st.brace + st.bracket + st.paren
}

/// After opening a delimiter: fail when nesting exceeds the limit.
pub open spec fn split_opened(st: SplitState) -> SplitState {
    if split_depth(st) > MAX_RULE_PARSE_NESTING {
        SplitState { failure: Some(SplitFailure::Nesting), ..st }
    } else {
        st
    }
}

/// Processes the character at `i`.
pub open spec fn split_step(s: Seq<char>, st: SplitState, i: int) -> SplitState {
    let ch = s[i];
    if st.failure is Some {
        st
    } else if st.regex_end is Some {
        if st.regex_end == Some(i) {
            SplitState { regex_end: None, ..st }
        } else {
            st
        }
    } else if ch == '/' && begins_regex_at(s, i) && regex_close_from(s, i + 1, false, false) is Some {
        SplitState { regex_end: regex_close_from(s, i + 1, false, false), ..st }
    } else if st.escaped {
        SplitState { escaped: false, ..st }
    } else if ch == '\\' {
        SplitState { escaped: true, ..st }
    } else if st.quote is Some {
        if st.quote == Some(ch) {
            SplitState { quote: None, ..st }
        } else {
            st
        }
    } else if ch == '"' || ch == '\'' {
        SplitState { quote: Some(ch), ..st }
    } else if ch == '(' {
        split_opened(SplitState { paren: st.paren + 1, ..st })
    } else if ch == ')' {
        if st.paren == 0 {
            SplitState { failure: Some(SplitFailure::Unmatched(')')), ..st }
        } else {
            SplitState { paren: (st.paren - 1) as nat, ..st }
        }
    } else if ch == '<' && begins_file_at(s, i) {
        split_opened(SplitState { angle: st.angle + 1, ..st })
    } else if ch == '>' && st.angle > 0 {
        SplitState { angle: (st.angle - 1) as nat, ..st }
    } else if ch == '{' {
        split_opened(SplitState { brace: st.brace + 1, ..st })
    } else if ch == '}' {
        if st.brace == 0 {
            SplitState { failure: Some(SplitFailure::Unmatched('}')), ..st }
        } else {
            SplitState { brace: (st.brace - 1) as nat, ..st }
        }
    } else if ch == '[' {
        split_opened(SplitState { bracket: st.bracket + 1, ..st })
    } else if ch == ']' {
        if st.bracket == 0 {
            SplitState { failure: Some(SplitFailure::Unmatched(']')), ..st }
        } else {
            SplitState { bracket: (st.bracket - 1) as nat, ..st }
        }
    } else if ch == ',' && split_depth(st) == 0 {
        let a = trim(s.subrange(st.start, i));
        if a.len() == 0 {
            SplitState { failure: Some(SplitFailure::EmptyArgument), ..st }
        } else if st.args.len() == MAX_RULE_CALL_ARGUMENTS {
            SplitState { failure: Some(SplitFailure::TooMany), ..st }
        } else {
            SplitState { args: st.args.push(a), start: i + 1, ..st }
        }
    } else {
        st
    }
}

/// The splitter's state after the first `n` characters of `s`.
pub open spec fn split_run(s: Seq<char>, n: nat) -> SplitState
    decreases n,
{
    if n == 0 {
        split_init()
    } else {
        split_step(s, split_run(s, (n - 1) as nat), n - 1)
    }
}

/// The top-level comma-separated arguments of a call body, each trimmed, or why there are
/// none. Quotes, escapes, regex values, and `<file>`, `{}`, `[]`, `()` groups keep their commas.
pub open spec fn split_args_spec(s: Seq<char>) -> Result<Seq<Seq<char>>, SplitFailure> {
    if trim(s).len() == 0 {
        Ok(seq![])
    } else {
        let st = split_run(s, s.len());
        let last = trim(s.subrange(st.start, s.len() as int));
        if st.failure is Some {
            Err(st.failure->0)
        } else if st.quote is Some {
            Err(SplitFailure::Unterminated)
        } else if st.angle != 0 {
            Err(SplitFailure::Unclosed('<'))
        } else if st.brace != 0 {
            Err(SplitFailure::Unclosed('{'))
        } else if st.bracket != 0 {
            Err(SplitFailure::Unclosed('['))
        } else if st.paren != 0 {
            Err(SplitFailure::Unclosed('('))
        } else if last.len() == 0 {
            Err(SplitFailure::EmptyLast)
        } else if st.args.len() == MAX_RULE_CALL_ARGUMENTS {
            Err(SplitFailure::TooMany)
        } else {
            Ok(st.args.push(last))
        }
    }
}

/// The error reported for a splitting failure.
pub open spec fn split_error(e: RuleModelError, f: SplitFailure) -> bool {
    match f {
        SplitFailure::Nesting => e.is_error(ModelErrorKind::LimitExceeded, "call nesting"),
        SplitFailure::EmptyArgument => e.is_error(ModelErrorKind::EmptyInput, "call argument"),
        SplitFailure::EmptyLast => e.is_error(ModelErrorKind::EmptyInput, "call argument"),
        SplitFailure::TooMany => e.is_error(ModelErrorKind::LimitExceeded, "call argument count"),
        _ => e.is_error(ModelErrorKind::InvalidSyntax, "call argument"),
    }
}

proof fn lemma_split_run_start(s: Seq<char>, n: nat)
    requires
        n <= s.len(),
    ensures
        0 <= split_run(s, n).start <= n,
    decreases n,
{
    if n > 0 {
        lemma_split_run_start(s, (n - 1) as nat);
    }
}

proof fn lemma_split_failure_persists(s: Seq<char>, n: nat, m: nat)
    requires
        n <= m <= s.len(),
        split_run(s, n).failure is Some,
    ensures
        split_run(s, m) == split_run(s, n),
    decreases m - n,
{
    if m > n {
        lemma_split_failure_persists(s, n, (m - 1) as nat);
    }
}

fn nesting_error() -> (e: RuleModelError)
    ensures
        split_error(e, SplitFailure::Nesting),
{
    RuleModelError::LimitExceeded {
        context: "call nesting",
        message: lit("call nesting exceeds 32 levels"),
    }
}

fn syntax_error(message: &str) -> (e: RuleModelError)
    ensures
        e.is_error(ModelErrorKind::InvalidSyntax, "call argument"),
        e.message_spec() == message@,
{
    RuleModelError::InvalidSyntax { context: "call argument", message: lit(message) }
}

/// Appends one argument, rejecting an empty one and one past the argument limit.
fn push_argument(args: &mut Vec<String>, argument: Vec<char>, last: bool) -> (r: Result<
    (),
    RuleModelError,
>)
    ensures
        argument@.len() == 0 ==> r is Err && final(args)@ == old(args)@ && split_error(
            r->Err_0,
            if last {
                SplitFailure::EmptyLast
            } else {
                SplitFailure::EmptyArgument
            },
        ),
        argument@.len() != 0 && old(args)@.len() == MAX_RULE_CALL_ARGUMENTS ==> r is Err
            && final(args)@ == old(args)@ && split_error(r->Err_0, SplitFailure::TooMany),
        argument@.len() != 0 && old(args)@.len() != MAX_RULE_CALL_ARGUMENTS ==> r is Ok
            && final(args)@.len() == old(args)@.len() + 1 && final(args)@.drop_last() == old(
            args,
        )@ && final(args)@.last()@ == argument@,
{
    if argument.len() == 0 {
        let message = if last {
            lit("call arguments must not be empty or end with a comma")
        } else {
            lit("call arguments must not be empty")
        };
        return Err(RuleModelError::EmptyInput { context: "call argument", message });
    }
    if args.len() == MAX_RULE_CALL_ARGUMENTS {
        return Err(
            RuleModelError::LimitExceeded {
                context: "call argument count",
                message: lit("call exceeds the 256-argument limit"),
            },
        );
    }
    args.push(string_of(&argument));
    Ok(())
}

/// Splits a call body into its top-level comma-separated arguments, each trimmed.
pub fn split_args(input: &str) -> (r: Result<Vec<String>, RuleModelError>)
    ensures
        match (r, split_args_spec(input@)) {
            (Ok(v), Ok(a)) => v@.map_values(|x: String| x@) == a,
            (Err(e), Err(f)) => split_error(e, f),
            _ => false,
        },
{
    let s = chars_of(input);
    let t = trim_chars(&s);
    if t.len() == 0 {
        let none: Vec<String> = Vec::new();
        assert(none@.map_values(|x: String| x@) =~= Seq::<Seq<char>>::empty());
        return Ok(none);
    }
    let mut args: Vec<String> = Vec::new();
    let mut start: usize = 0;
    let mut quote: Option<char> = None;
    let mut angle: usize = 0;
    let mut brace: usize = 0;
    let mut bracket: usize = 0;
    let mut paren: usize = 0;
    let mut escaped = false;
    let mut regex_end: Option<usize> = None;
    let mut i: usize = 0;
    assert(args@.map_values(|x: String| x@) =~= Seq::<Seq<char>>::empty());
    while i < s.len()
        invariant
            s@ == input@,
            trim(s@).len() != 0,
            i <= s@.len(),
            start <= i,
            angle + brace + bracket + paren <= MAX_RULE_PARSE_NESTING,
            split_run(s@, i as nat) == (SplitState {
                args: args@.map_values(|x: String| x@),
                start: start as int,
                quote,
                angle: angle as nat,
                brace: brace as nat,
                bracket: bracket as nat,
                paren: paren as nat,
                escaped,
                regex_end: match regex_end {
                    Some(e) => Some(e as int),
                    None => None,
                },
                failure: None,
            }),
        decreases s@.len() - i,
    {
        let ghost st = split_run(s@, i as nat);
        let ch = s[i];
        if let Some(end) = regex_end {
            if i == end {
                regex_end = None;
            }
            i += 1;
            continue;
        }
        if ch == '/' && begins_regex_value(&s, i) {
            if let Some(end) = regex_end_at_argument_boundary(&s, i) {
                regex_end = Some(end);
                i += 1;
                continue;
            }
        }
        if escaped {
            escaped = false;
            i += 1;
            continue;
        }
        if ch == '\\' {
            escaped = true;
            i += 1;
            continue;
        }
        if let Some(q) = quote {
            if ch == q {
                quote = None;
            }
            i += 1;
            continue;
        }
        if ch == '"' || ch == '\'' {
            quote = Some(ch);
        } else if ch == '(' {
            if angle + brace + bracket + paren + 1 > MAX_RULE_PARSE_NESTING {
                proof {
                    assert(split_run(s@, (i + 1) as nat).failure == Some(SplitFailure::Nesting));
                    lemma_split_failure_persists(s@, (i + 1) as nat, s@.len());
                }
                return Err(nesting_error());
            }
            paren += 1;
        } else if ch == ')' {
            if paren == 0 {
                proof {
                    lemma_split_failure_persists(s@, (i + 1) as nat, s@.len());
                }
                return Err(syntax_error("unmatched `)`"));
            }
            paren -= 1;
        } else if ch == '<' && begins_file_value(&s, i) {
            if angle + brace + bracket + paren + 1 > MAX_RULE_PARSE_NESTING {
                proof {
                    assert(split_run(s@, (i + 1) as nat).failure == Some(SplitFailure::Nesting));
                    lemma_split_failure_persists(s@, (i + 1) as nat, s@.len());
                }
                return Err(nesting_error());
            }
            angle += 1;
        } else if ch == '>' && angle > 0 {
            angle -= 1;
        } else if ch == '{' {
            if angle + brace + bracket + paren + 1 > MAX_RULE_PARSE_NESTING {
                proof {
                    assert(split_run(s@, (i + 1) as nat).failure == Some(SplitFailure::Nesting));
                    lemma_split_failure_persists(s@, (i + 1) as nat, s@.len());
                }
                return Err(nesting_error());
            }
            brace += 1;
        } else if ch == '}' {
            if brace == 0 {
                proof {
                    lemma_split_failure_persists(s@, (i + 1) as nat, s@.len());
                }
                return Err(syntax_error("unmatched `}`"));
            }
            brace -= 1;
        } else if ch == '[' {
            if angle + brace + bracket + paren + 1 > MAX_RULE_PARSE_NESTING {
                proof {
                    assert(split_run(s@, (i + 1) as nat).failure == Some(SplitFailure::Nesting));
                    lemma_split_failure_persists(s@, (i + 1) as nat, s@.len());
                }
                return Err(nesting_error());
            }
            bracket += 1;
        } else if ch == ']' {
            if bracket == 0 {
                proof {
                    lemma_split_failure_persists(s@, (i + 1) as nat, s@.len());
                }
                return Err(syntax_error("unmatched `]`"));
            }
            bracket -= 1;
        } else if ch == ',' && angle == 0 && brace == 0 && bracket == 0 && paren == 0 {
            let piece = slice_vec(&s, start, i);
            let arg = trim_chars(&piece);
            let ghost before = args@;
            match push_argument(&mut args, arg, false) {
                Ok(()) => {
                    proof {
                        assert(args@.map_values(|x: String| x@) =~= before.map_values(
                            |x: String| x@,
                        ).push(trim(s@.subrange(start as int, i as int))));
                    }
                    start = i + 1;
                },
                Err(e) => {
                    proof {
                        lemma_split_failure_persists(s@, (i + 1) as nat, s@.len());
                    }
                    return Err(e);
                },
            }
        }
        i += 1;
    }
    proof {
        lemma_split_run_start(s@, s@.len());
    }
    if quote.is_some() {
        return Err(syntax_error("unterminated quote"));
    }
    if angle != 0 {
        return Err(syntax_error("unclosed `<`"));
    }
    if brace != 0 {
        return Err(syntax_error("unclosed `{`"));
    }
    if bracket != 0 {
        return Err(syntax_error("unclosed `[`"));
    }
    if paren != 0 {
        return Err(syntax_error("unclosed `(`"));
    }
    let piece = slice_vec(&s, start, s.len());
    let arg = trim_chars(&piece);
    let ghost before = args@;
    match push_argument(&mut args, arg, true) {
        Ok(()) => {
            proof {
                assert(args@.map_values(|x: String| x@) =~= before.map_values(|x: String| x@).push(
                    trim(s@.subrange(start as int, s@.len() as int)),
                ));
            }
            Ok(args)
        },
        Err(e) => Err(e),
    }
}


// ---------------------------------------------------------------------------
// Calls
// ---------------------------------------------------------------------------

/// Why a call failed to parse.
#[derive(PartialEq, Eq, Structural)]
pub enum CallFailure {
    /// No `(` in the input.
    NoOpen,
    /// The input does not end with `)`.
    NoClose,
    /// Nothing precedes the `(`.
    EmptyName,
    /// The arguments did not split.
    Arguments(SplitFailure),
}

/// A call `name(args)`: the name before the first `(` and the split arguments between it and
/// the final `)`.
pub open spec fn parse_call_spec(s: Seq<char>) -> Result<(Seq<char>, Seq<Seq<char>>), CallFailure> {
    match first_index(s, '(') {
        None => Err(CallFailure::NoOpen),
        Some(open) => if s.len() == 0 || s.last() != ')' {
            Err(CallFailure::NoClose)
        } else if open == 0 {
            Err(CallFailure::EmptyName)
        } else {
            match split_args_spec(s.subrange(open + 1, s.len() - 1)) {
                Ok(args) => Ok((s.take(open), args)),
                Err(f) => Err(CallFailure::Arguments(f)),
            }
        },
    }
}

/// The error reported for a call failure.
pub open spec fn call_error(e: RuleModelError, f: CallFailure) -> bool {
    match f {
        CallFailure::NoOpen => e.is_error(ModelErrorKind::InvalidSyntax, "call"),
        CallFailure::NoClose => e.is_error(ModelErrorKind::InvalidSyntax, "call"),
        CallFailure::EmptyName => e.is_error(ModelErrorKind::EmptyInput, "call name"),
        CallFailure::Arguments(g) => split_error(e, g),
    }
}

/// Parses `name(arg, ...)` into its name and its trimmed top-level arguments.
pub fn parse_call(input: &str) -> (r: Result<(String, Vec<String>), RuleModelError>)
    ensures
        match (r, parse_call_spec(input@)) {
            (Ok((name, args)), Ok((n, a))) => name@ == n && args@.map_values(|x: String| x@) == a,
            (Err(e), Err(f)) => call_error(e, f),
            _ => false,
        },
{
    let s = chars_of(input);
    let open = match find_char(&s, '(') {
        Some(o) => o,
        None => {
            return Err(RuleModelError::InvalidSyntax {
                context: "call",
                message: concat("expected call syntax: ", input),
            });
        },
    };
    if s.len() == 0 || s[s.len() - 1] != ')' {
        return Err(RuleModelError::InvalidSyntax {
            context: "call",
            message: concat3("call must end with `)`: ", input, ""),
        });
    }
    if open == 0 {
        return Err(RuleModelError::EmptyInput { context: "call name", message: lit("call name is empty") });
    }
    let name = substring(&s, 0, open);
    let body = substring(&s, open + 1, s.len() - 1);
    match split_args(body.as_str()) {
        Ok(args) => Ok((name, args)),
        Err(e) => Err(e),
    }
}

/// The single non-blank argument of a call, trimmed.
pub open spec fn require_one_spec(args: Seq<Seq<char>>) -> Option<Seq<char>> {
    if args.len() == 1 && trim(args[0]).len() != 0 {
        Some(trim(args[0]))
    } else {
        None
    }
}

/// Returns the single non-blank argument of `action`, trimmed.
pub fn require_one(args: &[String], action: &str) -> (r: Result<String, RuleModelError>)
    ensures
        match (r, require_one_spec(args@.map_values(|x: String| x@))) {
            (Ok(a), Some(b)) => a@ == b,
            (Err(e), None) => e.is_error(ModelErrorKind::MissingArgument, "action argument")
                && e.message_spec() == action@ + " requires exactly one argument"@,
            _ => false,
        },
{
    if args.len() == 1 {
        let t = trim_str(args[0].as_str());
        if t.as_str().is_empty() == false {
            return Ok(t);
        }
    }
    Err(RuleModelError::MissingArgument {
        context: "action argument",
        message: concat(action, " requires exactly one argument"),
    })
}

/// A text that parses as a call ends with `)` after its first `(`, so the call body can be
/// cut out of it.
pub proof fn lemma_call_shape(s: Seq<char>)
    requires
        parse_call_spec(s) is Ok,
    ensures
        first_index(s, '(') matches Some(open) ==> open + 1 < s.len() && (s.last() as u32) < 128,
{
    crate::rules::url::lemma_first_index_bounds(s, '(');
}

/// The trimmed text between the first `(` and the final character of a call.
pub open spec fn call_body_spec(s: Seq<char>) -> Option<Seq<char>> {
    match first_index(s, '(') {
        None => None,
        Some(open) => Some(trim(s.subrange(open + 1, s.len() - 1))),
    }
}

/// Returns the whole trimmed body of a call (the text between the first `(` and the last
/// character), for actions whose single argument may itself contain top-level commas. The
/// inputs left out are those where a `(` exists but is the last character, or where the last
/// character is not ASCII: slicing at the last byte fails there.
pub fn require_call_body(input: &str, action: &str) -> (r: Result<String, RuleModelError>)
    requires
        first_index(input@, '(') matches Some(open) ==> open + 1 < input@.len() && (input@.last() as u32)
            < 128,
    ensures
        match (r, call_body_spec(input@)) {
            (Ok(b), Some(body)) => b@ == body && body.len() != 0,
            (Err(e), Some(body)) => body.len() == 0 && e.is_error(
                ModelErrorKind::MissingArgument,
                "action argument",
            ),
            (Err(e), None) => e.is_error(ModelErrorKind::InvalidSyntax, "call"),
            _ => false,
        },
{
    let s = chars_of(input);
    let open = match find_char(&s, '(') {
        Some(o) => o,
        None => {
            return Err(RuleModelError::InvalidSyntax {
                context: "call",
                message: concat("expected call syntax: ", input),
            });
        },
    };
    let inner = slice_vec(&s, open + 1, s.len() - 1);
    let body = trim_chars(&inner);
    if body.len() == 0 {
        Err(RuleModelError::MissingArgument {
            context: "action argument",
            message: concat(action, " requires exactly one argument"),
        })
    } else {
        Ok(string_of(&body))
    }
}

// ---------------------------------------------------------------------------
// Quoting, comments, and value sources
// ---------------------------------------------------------------------------

/// The character an escape sequence `\c` stands for inside quotes.
pub open spec fn escaped_char(c: char) -> char {
    if c == 'n' {
        '\n'
    } else if c == 'r' {
        '\r'
    } else if c == 't' {
        '\t'
    } else {
        c
    }
}

/// Resolves backslash escapes; a trailing lone backslash is dropped.
pub open spec fn unescape(s: Seq<char>) -> Seq<char>
    decreases s.len(),
{
    if s.len() == 0 {
        seq![]
    } else if s[0] == '\\' {
        if s.len() == 1 {
            seq![]
        } else {
            seq![escaped_char(s[1])] + unescape(s.skip(2))
        }
    } else {
        seq![s[0]] + unescape(s.drop_first())
    }
}

/// `unescape` of a text that starts just after a pending backslash when `escaped` holds.
pub open spec fn unescape_from(s: Seq<char>, escaped: bool) -> Seq<char> {
    if escaped {
        if s.len() == 0 {
            seq![]
        } else {
            seq![escaped_char(s[0])] + unescape(s.drop_first())
        }
    } else {
        unescape(s)
    }
}

/// A text trimmed and, when wrapped in matching single or double quotes, unwrapped with its
/// escapes resolved.
pub open spec fn unquote_spec(s: Seq<char>) -> Seq<char> {
    let t = trim(s);
    if t.len() >= 2 && ((t[0] == '"' && t.last() == '"') || (t[0] == '\'' && t.last() == '\'')) {
        unescape(t.subrange(1, t.len() - 1))
    } else {
        t
    }
}

proof fn lemma_unescape_plain_prefix(a: Seq<char>, b: Seq<char>)
    requires
        !a.contains('\\'),
    ensures
        unescape(a + b) == a + unescape(b),
    decreases a.len(),
{
    if a.len() > 0 {
        assert(a[0] != '\\');
        assert((a + b)[0] == a[0]);
        assert((a + b).drop_first() =~= a.drop_first() + b);
        assert(!a.drop_first().contains('\\')) by {
            if a.drop_first().contains('\\') {
                let k = choose|k: int| 0 <= k < a.drop_first().len() && a.drop_first()[k] == '\\';
                assert(a[k + 1] == '\\');
            }
        }
        lemma_unescape_plain_prefix(a.drop_first(), b);
        assert(seq![a[0]] + (a.drop_first() + unescape(b)) =~= a + unescape(b));
    } else {
        assert(a + b =~= b);
        assert(a + unescape(b) =~= unescape(b));
    }
}

/// Escapes inside quotes: text without backslashes stands as written, and a backslash with
/// the character after it stands for one character: a line feed for `n`, a carriage return for
/// `r`, a tab for `t`, and the character itself for any other. So a double- or single-quoted
/// value unquotes to its inside with those escapes resolved.
pub proof fn law_unescape(a: Seq<char>, c: char, b: Seq<char>)
    requires
        !a.contains('\\'),
    ensures
        unescape(a) == a,
        unescape(a + seq!['\\', 'n'] + b) == a + seq!['\n'] + unescape(b),
        unescape(a + seq!['\\', 'r'] + b) == a + seq!['\r'] + unescape(b),
        unescape(a + seq!['\\', 't'] + b) == a + seq!['\t'] + unescape(b),
        c != 'n' && c != 'r' && c != 't' ==> unescape(a + seq!['\\', c] + b) == a + seq![c] + unescape(b),
        unquote_spec(seq!['"'] + a + seq!['"']) == a,
        !b.contains('\\') ==> unquote_spec(seq!['"'] + a + seq!['\\', 'n'] + b + seq!['"']) == a + seq!['\n'] + b,
        !b.contains('\\') ==> unquote_spec(seq!['\''] + a + seq!['\\', 'n'] + b + seq!['\'']) == a + seq!['\n'] + b,
{
    assert(a + Seq::<char>::empty() =~= a);
    lemma_unescape_plain_prefix(a, Seq::<char>::empty());
    assert(unescape(Seq::<char>::empty()) =~= Seq::<char>::empty());
    assert forall|d: char| #![trigger escaped_char(d)] true implies unescape(a + seq!['\\', d] + b) == a + seq![escaped_char(d)] + unescape(b) by {
        let t = seq!['\\', d] + b;
        assert(a + seq!['\\', d] + b =~= a + t);
        lemma_unescape_plain_prefix(a, t);
        assert(t[0] == '\\' && t.len() >= 2 && t[1] == d);
        assert(t.skip(2) =~= b);
        assert(a + (seq![escaped_char(d)] + unescape(b)) =~= a + seq![escaped_char(d)] + unescape(b));
    }
    assert(unescape(a + seq!['\\', 'n'] + b) == a + seq![escaped_char('n')] + unescape(b));
    assert(unescape(a + seq!['\\', 'r'] + b) == a + seq![escaped_char('r')] + unescape(b));
    assert(unescape(a + seq!['\\', 't'] + b) == a + seq![escaped_char('t')] + unescape(b));
    assert(unescape(a + seq!['\\', c] + b) == a + seq![escaped_char(c)] + unescape(b));
    // quoted values
    let q = seq!['"'] + a + seq!['"'];
    lemma_quoted_trim(q);
    assert(q.subrange(1, q.len() - 1) =~= a);
    if !b.contains('\\') {
        let inner = a + seq!['\\', 'n'] + b;
        lemma_unescape_plain_prefix(b, Seq::<char>::empty());
        assert(b + Seq::<char>::empty() =~= b);
        assert(unescape(b) == b);
        let q2 = seq!['"'] + inner + seq!['"'];
        assert(seq!['"'] + a + seq!['\\', 'n'] + b + seq!['"'] =~= q2);
        lemma_quoted_trim(q2);
        assert(q2.subrange(1, q2.len() - 1) =~= inner);
        let q3 = seq!['\''] + inner + seq!['\''];
        assert(seq!['\''] + a + seq!['\\', 'n'] + b + seq!['\''] =~= q3);
        lemma_quoted_trim(q3);
        assert(q3.subrange(1, q3.len() - 1) =~= inner);
    }
}

/// A text that starts and ends with a quote is its own trim.
proof fn lemma_quoted_trim(q: Seq<char>)
    requires
        q.len() >= 2,
        q[0] == '"' || q[0] == '\'',
        q.last() == '"' || q.last() == '\'',
    ensures
        trim(q) == q,
{
    assert(!is_ws(q[0]));
    assert(trim_start(q) == q);
    assert(!is_ws(q.last()));
    assert(trim_end(q) == q);
}

/// Trims a value and removes one layer of matching quotes, resolving `\n`, `\r`, `\t`, and
/// other backslash escapes inside them.
pub fn unquote(input: &str) -> (r: String)
    ensures
        r@ == unquote_spec(input@),
{
    let s = chars_of(input);
    let t = trim_chars(&s);
    let n = t.len();
    if n < 2 || !((t[0] == '"' && t[n - 1] == '"') || (t[0] == '\'' && t[n - 1] == '\'')) {
        return string_of(&t);
    }
    let inner = slice_vec(&t, 1, n - 1);
    let mut out = String::new();
    let mut escaped = false;
    let mut i: usize = 0;
    assert(inner@.skip(0) == inner@);
    while i < inner.len()
        invariant
            i <= inner@.len(),
            out@ + unescape_from(inner@.skip(i as int), escaped) == unescape(inner@),
        decreases inner@.len() - i,
    {
        let ch = inner[i];
        let ghost rest = inner@.skip(i as int);
        assert(rest[0] == ch);
        assert(rest.drop_first() == inner@.skip(i + 1));
        if escaped {
            let e = if ch == 'n' {
                '\n'
            } else if ch == 'r' {
                '\r'
            } else if ch == 't' {
                '\t'
            } else {
                ch
            };
            push_char(&mut out, e);
            escaped = false;
        } else if ch == '\\' {
            escaped = true;
            proof {
                if rest.len() >= 2 {
                    assert(rest.skip(2) == inner@.skip(i + 1).drop_first());
                }
            }
        } else {
            push_char(&mut out, ch);
        }
        i += 1;
    }
    assert(inner@.skip(i as int).len() == 0);
    out
}

/// Position of the first `#` outside quotes and escapes, scanning from `i` in the given state;
/// the length when there is none.
pub open spec fn comment_at(s: Seq<char>, i: int, escaped: bool, quote: Option<char>) -> int
    decreases s.len() - i,
{
    if i < 0 || i >= s.len() {
        s.len() as int
    } else if escaped {
        comment_at(s, i + 1, false, quote)
    } else if s[i] == '\\' {
        comment_at(s, i + 1, true, quote)
    } else if quote is Some {
        comment_at(
            s,
            i + 1,
            false,
            if quote == Some(s[i]) {
                None
            } else {
                quote
            },
        )
    } else if s[i] == '"' || s[i] == '\'' {
        comment_at(s, i + 1, false, Some(s[i]))
    } else if s[i] == '#' {
        i
    } else {
        comment_at(s, i + 1, false, None)
    }
}

/// The text before a `#` comment, unless only whitespace remains.
pub open spec fn strip_comment_spec(s: Seq<char>) -> Option<Seq<char>> {
    let c = s.take(comment_at(s, 0, false, None));
    if trim(c).len() == 0 {
        None
    } else {
        Some(c)
    }
}

/// Removes a trailing `#` comment outside quotes; `None` when nothing but whitespace remains.
pub fn strip_comment(input: &str) -> (r: Option<String>)
    ensures
        match (r, strip_comment_spec(input@)) {
            (Some(a), Some(b)) => a@ == b,
            (None, None) => true,
            _ => false,
        },
{
    let s = chars_of(input);
    let mut escaped = false;
    let mut quote: Option<char> = None;
    let mut i: usize = 0;
    while i < s.len()
        invariant
            i <= s@.len(),
            comment_at(s@, 0, false, None) == comment_at(s@, i as int, escaped, quote),
        ensures
            i <= s@.len(),
            comment_at(s@, 0, false, None) == i,
        decreases s@.len() - i,
    {
        let ch = s[i];
        if escaped {
            escaped = false;
        } else if ch == '\\' {
            escaped = true;
        } else if let Some(q) = quote {
            if ch == q {
                quote = None;
            }
        } else if ch == '"' || ch == '\'' {
            quote = Some(ch);
        } else if ch == '#' {
            break;
        }
        i += 1;
    }
    let out = slice_vec(&s, 0, i);
    let t = trim_chars(&out);
    if t.len() == 0 {
        None
    } else {
        Some(string_of(&out))
    }
}

/// Why a value source failed to parse.
#[derive(PartialEq, Eq, Structural)]
pub enum ValueFailure {
    /// Only one of `<` and `>` delimits the value.
    Unpaired,
    /// The file path is blank.
    EmptyPath,
    /// The file path contains NUL.
    NulPath,
    /// The `@key` is not a valid value key.
    BadKey,
}

/// A value source: `<path>` for a file, `@key` for a stored value, otherwise inline text with
/// one layer of quotes removed.
pub open spec fn parse_value_spec(s: Seq<char>) -> Result<ValueView, ValueFailure> {
    let t = trim(s);
    let opens = t.len() > 0 && t[0] == '<';
    let closes = t.len() > 0 && t.last() == '>';
    if opens != closes {
        Err(ValueFailure::Unpaired)
    } else if opens {
        let path = t.subrange(1, t.len() - 1);
        if trim(path).len() == 0 {
            Err(ValueFailure::EmptyPath)
        } else if path.contains('\0') {
            Err(ValueFailure::NulPath)
        } else {
            Ok((ValueKind::File, path))
        }
    } else if t.len() > 0 && t[0] == '@' {
        if value_key(t.drop_first()) {
            Ok((ValueKind::Reference, t.drop_first()))
        } else {
            Err(ValueFailure::BadKey)
        }
    } else {
        Ok((ValueKind::Inline, unquote_spec(t)))
    }
}

/// The error reported for a value failure.
pub open spec fn value_error(e: RuleModelError, f: ValueFailure) -> bool {
    match f {
        ValueFailure::Unpaired => e.is_error(ModelErrorKind::InvalidSyntax, "file value"),
        ValueFailure::EmptyPath => e.is_error(ModelErrorKind::EmptyInput, "file value path"),
        ValueFailure::NulPath => e.is_error(ModelErrorKind::InvalidInput, "file value path"),
        ValueFailure::BadKey => e.is_error(ModelErrorKind::InvalidInput, "value key"),
    }
}

/// Parses a value source: `<path>`, `@key`, or inline text.
pub fn parse_value(input: &str) -> (r: Result<Value, RuleModelError>)
    ensures
        match (r, parse_value_spec(input@)) {
            (Ok(v), Ok(w)) => v@ == w,
            (Err(e), Err(f)) => value_error(e, f),
            _ => false,
        },
{
    let s = chars_of(input);
    let t = trim_chars(&s);
    let n = t.len();
    let opens = n > 0 && t[0] == '<';
    let closes = n > 0 && t[n - 1] == '>';
    if opens != closes {
        return Err(RuleModelError::InvalidSyntax {
            context: "file value",
            message: lit("file values must use a paired `<path>` delimiter"),
        });
    }
    if opens {
        let path = slice_vec(&t, 1, n - 1);
        let pt = trim_chars(&path);
        if pt.len() == 0 {
            return Err(RuleModelError::EmptyInput {
                context: "file value path",
                message: lit("file value path must not be empty"),
            });
        }
        if contains_char(&path, '\0') {
            return Err(RuleModelError::InvalidInput {
                context: "file value path",
                message: lit("file value path must not contain NUL"),
            });
        }
        return Ok(Value::File(string_of(&path)));
    }
    if n > 0 && t[0] == '@' {
        let key = substring(&t, 1, n);
        if valid_value_key(key.as_str()) {
            return Ok(Value::Reference(key));
        }
        return Err(RuleModelError::InvalidInput {
            context: "value key",
            message: concat3(
                "invalid value key `",
                key.as_str(),
                "`; use 1-128 ASCII letters, digits, dot, underscore, or hyphen",
            ),
        });
    }
    let text = string_of(&t);
    Ok(Value::Inline(unquote(text.as_str())))
}

} // verus!
