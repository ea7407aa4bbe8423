//! Parsing the targets of `delete(...)`: URL parts, headers, cookies, trailers, and nested
//! body paths.
use crate::rules::action::{
    delete_views, segment_views, DeleteBodyPath, DeleteBodyPathSegment, DeleteOp, DeleteOpView,
    DeletePathSegment, SegmentView,
};
use crate::rules::error::{ModelErrorKind, RuleModelError};
use crate::rules::syntax::{unquote, unquote_spec};
use crate::text::{
    any_control, chars_of, ci_eq, ci_eq_chars, ci_starts_with, is_ctrl, lit, lower_seq,
    lower_chars, parse_signed, seq_eq, parse_signed_spec, slice_vec, string_of, trim, trim_chars,
    utf8_byte_len, utf8_len, lemma_utf8_len_take, lemma_utf8_len_prefix, char_utf8_width, is_digit, digits_value, all_digits, parse_unsigned,
    parse_unsigned_spec, concat3,
};
use vstd::prelude::*;

verus! {

/// Why a deletion target failed to parse.
#[derive(PartialEq, Eq, Structural)]
pub enum DeleteFailure {
    /// `delete()` named no property.
    NoProperties,
    /// A property was blank.
    EmptyProperty,
    /// A pathname segment was neither `first`, `last`, nor an `i32`.
    BadSegment,
    /// A header, cookie, parameter, or trailer name was blank or held a control character.
    BadName,
    /// A body path was empty.
    EmptyBodyPath,
    /// A body path exceeded its byte limit.
    BodyPathTooLong,
    /// A body path ended with a lone backslash.
    TrailingEscape,
    /// A body array index did not fit in `usize`.
    IndexOverflow,
    /// A body path had more segments than allowed.
    TooManySegments,
    /// The property is not a known deletion target.
    Unknown,
}

/// The error reported for a deletion failure.
pub open spec fn delete_error(e: RuleModelError, f: DeleteFailure) -> bool {
    match f {
        DeleteFailure::NoProperties => e.is_error(ModelErrorKind::MissingArgument, "delete action"),
        DeleteFailure::EmptyProperty => e.is_error(ModelErrorKind::EmptyInput, "delete property"),
        DeleteFailure::BadSegment => e.is_error(ModelErrorKind::InvalidInteger, "pathname segment"),
        DeleteFailure::BadName => e.is_error(ModelErrorKind::InvalidInput, "delete property name"),
        DeleteFailure::EmptyBodyPath => e.is_error(ModelErrorKind::EmptyInput, "delete body path"),
        DeleteFailure::BodyPathTooLong => e.is_error(ModelErrorKind::LimitExceeded, "delete body path"),
        DeleteFailure::TrailingEscape => e.is_error(ModelErrorKind::InvalidSyntax, "delete body path"),
        DeleteFailure::IndexOverflow => e.is_error(
            ModelErrorKind::InvalidInteger,
            "delete body array index",
        ),
        DeleteFailure::TooManySegments => e.is_error(
            ModelErrorKind::LimitExceeded,
            "delete body path",
        ),
        DeleteFailure::Unknown => e.is_error(ModelErrorKind::UnsupportedInput, "delete property"),
    }
}

/// Maximum UTF-8 bytes of one body path.
pub const MAX_BODY_PATH_BYTES: usize = 16384;

/// Maximum segments of one body path.
pub const MAX_BODY_PATH_SEGMENTS: usize = 128;

// ---------------------------------------------------------------------------
// Names and prefixes
// ---------------------------------------------------------------------------

/// The rest of `s` after a case-insensitive `prefix`.
pub open spec fn suffix_of(s: Seq<char>, prefix: Seq<char>) -> Option<Seq<char>> {
    if prefix.len() <= s.len() && ci_eq(s.take(prefix.len() as int), prefix) {
        Some(s.skip(prefix.len() as int))
    } else {
        None
    }
}

/// The rest of `s` after the first of `prefixes` that it starts with, ignoring case.
pub open spec fn first_suffix(s: Seq<char>, prefixes: Seq<Seq<char>>) -> Option<Seq<char>>
    decreases prefixes.len(),
{
    if prefixes.len() == 0 {
        None
    } else {
        match suffix_of(s, prefixes[0]) {
            Some(r) => Some(r),
            None => first_suffix(s, prefixes.drop_first()),
        }
    }
}

/// `s` equals one of `names`, ignoring case.
pub open spec fn ci_any(s: Seq<char>, names: Seq<Seq<char>>) -> bool {
    exists|i: int| 0 <= i < names.len() && ci_eq(s, #[trigger] names[i])
}

/// The views of a list of literal names.
pub open spec fn literal_views(v: Seq<&'static str>) -> Seq<Seq<char>> {
    v.map_values(|x: &'static str| x@)
}

fn suffix(s: &[char], prefix: &str) -> (r: Option<Vec<char>>)
    ensures
        match r {
            Some(v) => suffix_of(s@, prefix@) == Some(v@),
            None => suffix_of(s@, prefix@) is None,
        },
{
    let p = chars_of(prefix);
    if ci_starts_with(s, &p) {
        Some(slice_vec(s, p.len(), s.len()))
    } else {
        None
    }
}

fn suffix_any(s: &[char], prefixes: &Vec<&'static str>) -> (r: Option<Vec<char>>)
    ensures
        match r {
            Some(v) => first_suffix(s@, literal_views(prefixes@)) == Some(v@),
            None => first_suffix(s@, literal_views(prefixes@)) is None,
        },
{
    let mut i: usize = 0;
    assert(literal_views(prefixes@).skip(0) == literal_views(prefixes@));
    while i < prefixes.len()
        invariant
            i <= prefixes@.len(),
            first_suffix(s@, literal_views(prefixes@)) == first_suffix(
                s@,
                literal_views(prefixes@).skip(i as int),
            ),
        decreases prefixes@.len() - i,
    {
        let ghost rest = literal_views(prefixes@).skip(i as int);
        assert(rest[0] == prefixes@[i as int]@);
        assert(rest.drop_first() == literal_views(prefixes@).skip(i + 1));
        match suffix(s, prefixes[i]) {
            Some(v) => {
                return Some(v);
            },
            None => {},
        }
        i += 1;
    }
    None
}

fn matches_name(s: &[char], names: &Vec<&'static str>) -> (r: bool)
    ensures
        r == ci_any(s@, literal_views(names@)),
{
    let mut i: usize = 0;
    while i < names.len()
        invariant
            i <= names@.len(),
            forall|j: int| 0 <= j < i ==> !ci_eq(s@, #[trigger] literal_views(names@)[j]),
        decreases names@.len() - i,
    {
        let n = chars_of(names[i]);
        if ci_eq_chars(s, &n) {
            assert(ci_eq(s@, literal_views(names@)[i as int]));
            return true;
        }
        i += 1;
    }
    false
}

/// A trimmed name without control characters.
pub open spec fn valid_name_spec(v: Seq<char>) -> Result<Seq<char>, DeleteFailure> {
    let t = trim(v);
    if t.len() == 0 || exists|i: int| 0 <= i < t.len() && is_ctrl(t[i]) {
        Err(DeleteFailure::BadName)
    } else {
        Ok(t)
    }
}

fn valid_name(kind: &str, value: &[char]) -> (r: Result<String, RuleModelError>)
    ensures
        match (r, valid_name_spec(value@)) {
            (Ok(a), Ok(b)) => a@ == b,
            (Err(e), Err(f)) => delete_error(e, f),
            _ => false,
        },
{
    let t = trim_chars(value);
    if t.len() == 0 || any_control(&t) {
        Err(RuleModelError::InvalidInput {
            context: "delete property name",
            message: concat3(kind, " name must be non-empty and contain no control characters", ""),
        })
    } else {
        Ok(string_of(&t))
    }
}

// ---------------------------------------------------------------------------
// Body paths
// ---------------------------------------------------------------------------

/// Splits a body path on unescaped `.`, keeping each escape as written; `None` when the path
/// ends with a lone backslash.
pub open spec fn split_path_from(s: Seq<char>, cur: Seq<char>) -> Option<Seq<Seq<char>>>
    decreases s.len(),
{
    if s.len() == 0 {
        Some(seq![cur])
    } else if s[0] == '\\' {
        if s.len() == 1 {
            None
        } else {
            split_path_from(s.skip(2), cur + seq!['\\', s[1]])
        }
    } else if s[0] == '.' {
        match split_path_from(s.drop_first(), seq![]) {
            Some(rest) => Some(seq![cur] + rest),
            None => None,
        }
    } else {
        split_path_from(s.drop_first(), cur.push(s[0]))
    }
}

/// Components before and after a split point, joined.
pub open spec fn prepend_parts(done: Seq<Seq<char>>, rest: Option<Seq<Seq<char>>>) -> Option<
    Seq<Seq<char>>,
> {
    match rest {
        Some(r) => Some(done + r),
        None => None,
    }
}

fn split_body_path(input: &[char]) -> (r: Result<Vec<Vec<char>>, RuleModelError>)
    ensures
        match (r, split_path_from(input@, seq![])) {
            (Ok(v), Some(parts)) => v@.map_values(|x: Vec<char>| x@) == parts,
            (Err(e), None) => delete_error(e, DeleteFailure::TrailingEscape),
            _ => false,
        },
{
    let mut components: Vec<Vec<char>> = Vec::new();
    let mut current: Vec<char> = Vec::new();
    let mut i: usize = 0;
    assert(input@.skip(0) == input@);
    assert(components@.map_values(|x: Vec<char>| x@) =~= Seq::<Seq<char>>::empty());
    while i < input.len()
        invariant
            i <= input@.len(),
            split_path_from(input@, seq![]) == prepend_parts(
                components@.map_values(|x: Vec<char>| x@),
                split_path_from(input@.skip(i as int), current@),
            ),
        decreases input@.len() - i,
    {
        let ch = input[i];
        let ghost rest = input@.skip(i as int);
        assert(rest[0] == ch);
        if ch == '\\' {
            if i + 1 >= input.len() {
                return Err(RuleModelError::InvalidSyntax {
                    context: "delete body path",
                    message: lit("delete body path ends with an escape"),
                });
            }
            let next = input[i + 1];
            assert(rest[1] == next);
            assert(rest.skip(2) == input@.skip(i + 2));
            let ghost cur = current@;
            current.push('\\');
            current.push(next);
            assert(cur + seq!['\\', next] == current@);
            i += 2;
        } else if ch == '.' {
            let ghost before = components@.map_values(|x: Vec<char>| x@);
            let ghost cur = current@;
            assert(rest.drop_first() == input@.skip(i + 1));
            components.push(current);
            current = Vec::new();
            assert(components@.map_values(|x: Vec<char>| x@) =~= before.push(cur));
            assert(before.push(cur) == before + seq![cur]);
            proof {
                match split_path_from(input@.skip(i + 1), seq![]) {
                    Some(r) => {
                        assert(before + (seq![cur] + r) == before.push(cur) + r);
                    },
                    None => {},
                }
            }
            i += 1;
        } else {
            assert(rest.drop_first() == input@.skip(i + 1));
            current.push(ch);
            i += 1;
        }
    }
    let ghost before = components@.map_values(|x: Vec<char>| x@);
    let ghost cur = current@;
    assert(input@.skip(i as int).len() == 0);
    components.push(current);
    assert(components@.map_values(|x: Vec<char>| x@) =~= before + seq![cur]);
    Ok(components)
}

/// The character an escape `\c` stands for inside a body path.
pub open spec fn path_escape(c: char) -> char {
    if c == 'n' {
        '\n'
    } else if c == 'r' {
        '\r'
    } else if c == 't' {
        '\t'
    } else if c == 'f' {
        '\u{c}'
    } else if c == 'v' {
        '\u{b}'
    } else {
        c
    }
}

/// Decodes escapes of one body-path component into characters marked as escaped or not.
pub open spec fn decode_component(s: Seq<char>) -> Option<Seq<(char, bool)>>
    decreases s.len(),
{
    if s.len() == 0 {
        Some(seq![])
    } else if s[0] == '\\' {
        if s.len() == 1 {
            None
        } else {
            match decode_component(s.skip(2)) {
                Some(r) => Some(seq![(path_escape(s[1]), true)] + r),
                None => None,
            }
        }
    } else {
        match decode_component(s.drop_first()) {
            Some(r) => Some(seq![(s[0], false)] + r),
            None => None,
        }
    }
}

pub open spec fn prepend_decoded(done: Seq<(char, bool)>, rest: Option<Seq<(char, bool)>>) -> Option<
    Seq<(char, bool)>,
> {
    match rest {
        Some(r) => Some(done + r),
        None => None,
    }
}

fn decode_body_path_component(input: &[char]) -> (r: Result<Vec<(char, bool)>, RuleModelError>)
    ensures
        match (r, decode_component(input@)) {
            (Ok(v), Some(d)) => v@ == d,
            (Err(e), None) => delete_error(e, DeleteFailure::TrailingEscape),
            _ => false,
        },
{
    let mut decoded: Vec<(char, bool)> = Vec::new();
    let mut i: usize = 0;
    assert(input@.skip(0) == input@);
    while i < input.len()
        invariant
            i <= input@.len(),
            decode_component(input@) == prepend_decoded(
                decoded@,
                decode_component(input@.skip(i as int)),
            ),
        decreases input@.len() - i,
    {
        let ch = input[i];
        let ghost rest = input@.skip(i as int);
        let ghost before = decoded@;
        assert(rest[0] == ch);
        if ch != '\\' {
            assert(rest.drop_first() == input@.skip(i + 1));
            decoded.push((ch, false));
            proof {
                match decode_component(input@.skip(i + 1)) {
                    Some(r) => {
                        assert(before + (seq![(ch, false)] + r) == decoded@ + r);
                    },
                    None => {},
                }
            }
            i += 1;
        } else {
            if i + 1 >= input.len() {
                return Err(RuleModelError::InvalidSyntax {
                    context: "delete body path",
                    message: lit("delete body path ends with an escape"),
                });
            }
            let next = input[i + 1];
            assert(rest[1] == next);
            assert(rest.skip(2) == input@.skip(i + 2));
            let e = if next == 'n' {
                '\n'
            } else if next == 'r' {
                '\r'
            } else if next == 't' {
                '\t'
            } else if next == 'f' {
                '\u{c}'
            } else if next == 'v' {
                '\u{b}'
            } else {
                next
            };
            decoded.push((e, true));
            proof {
                match decode_component(input@.skip(i + 2)) {
                    Some(r) => {
                        assert(before + (seq![(e, true)] + r) == decoded@ + r);
                    },
                    None => {},
                }
            }
            i += 2;
        }
    }
    assert(input@.skip(i as int).len() == 0);
    assert(decoded@ + seq![] == decoded@);
    Ok(decoded)
}

/// The plain characters of decoded text.
pub open spec fn plain_chars(d: Seq<(char, bool)>) -> Seq<char> {
    d.map_values(|p: (char, bool)| p.0)
}

/// An unescaped decimal digit.
pub open spec fn plain_digit(p: (char, bool)) -> bool {
    !p.1 && is_digit(p.0)
}

/// An array index `[n]`: unescaped decimal digits without a leading zero. `Ok(None)` when the
/// text is not such an index, `Err` when the number does not fit in `usize`.
pub open spec fn array_index_spec(d: Seq<(char, bool)>) -> Result<Option<nat>, DeleteFailure> {
    if d.len() == 0 || (exists|i: int| 0 <= i < d.len() && !plain_digit(#[trigger] d[i])) || (d.len()
        > 1 && d[0].0 == '0') {
        Ok(None)
    } else if digits_value(plain_chars(d)) > usize::MAX {
        Err(DeleteFailure::IndexOverflow)
    } else {
        Ok(Some(digits_value(plain_chars(d))))
    }
}

fn plain_of(d: &[(char, bool)]) -> (r: Vec<char>)
    ensures
        r@ == plain_chars(d@),
{
    let mut out: Vec<char> = Vec::new();
    let mut i: usize = 0;
    while i < d.len()
        invariant
            i <= d@.len(),
            out@ == plain_chars(d@.take(i as int)),
        decreases d@.len() - i,
    {
        out.push(d[i].0);
        assert(plain_chars(d@.take(i + 1)) =~= plain_chars(d@.take(i as int)).push(d@[i as int].0));
        i += 1;
    }
    assert(d@.take(d@.len() as int) == d@);
    out
}

fn body_array_index(d: &[(char, bool)]) -> (r: Result<Option<usize>, RuleModelError>)
    ensures
        match (r, array_index_spec(d@)) {
            (Ok(Some(a)), Ok(Some(b))) => a == b,
            (Ok(None), Ok(None)) => true,
            (Err(e), Err(f)) => delete_error(e, f),
            _ => false,
        },
{
    if d.len() == 0 {
        return Ok(None);
    }
    let mut i: usize = 0;
    while i < d.len()
        invariant
            i <= d@.len(),
            forall|j: int| 0 <= j < i ==> plain_digit(#[trigger] d@[j]),
        decreases d@.len() - i,
    {
        let c = d[i].0;
        let esc = d[i].1;
        if esc || !('0' <= c && c <= '9') {
            assert(!plain_digit(d@[i as int]));
            return Ok(None);
        }
        i += 1;
    }
    if d.len() > 1 && d[0].0 == '0' {
        return Ok(None);
    }
    let digits = plain_of(d);
    assert forall|j: int| 0 <= j < digits@.len() implies is_digit(#[trigger] digits@[j]) by {
        assert(digits@[j] == d@[j].0);
        assert(plain_digit(d@[j]));
    }
    assert(all_digits(digits@));
    assert(digits@[0] != '+');
    assert(!(exists|j: int| 0 <= j < d@.len() && !plain_digit(#[trigger] d@[j])));
    match parse_unsigned(&digits, usize::MAX as u64) {
        Some(v) => Ok(Some(v as usize)),
        None => Err(RuleModelError::InvalidInteger {
            context: "delete body array index",
            input: string_of(&digits),
            message: concat3(
                "delete body array index is out of range: `",
                string_of(&digits).as_str(),
                "`",
            ),
        }),
    }
}


/// Position of the last unescaped `[` before `end`.
pub open spec fn last_open(d: Seq<(char, bool)>, end: int) -> Option<int>
    decreases end,
{
    if end <= 0 || end > d.len() {
        None
    } else if d[end - 1] == ('[', false) {
        Some(end - 1)
    } else {
        last_open(d, end - 1)
    }
}

pub proof fn lemma_last_open(d: Seq<(char, bool)>, end: int)
    ensures
        match last_open(d, end) {
            Some(j) => 0 <= j < end && d[j] == ('[', false),
            None => true,
        },
    decreases end,
{
    if 0 < end <= d.len() && d[end - 1] != ('[', false) {
        lemma_last_open(d, end - 1);
    }
}

/// Peels `[n]` array indexes off the end of decoded text, right to left, stopping at the first
/// bracket group that is not an index. Yields where the key part ends and the indexes in order.
pub open spec fn trailing_indexes(d: Seq<(char, bool)>, end: int) -> Result<
    (int, Seq<nat>),
    DeleteFailure,
>
    decreases end,
{
    if 0 < end <= d.len() && d[end - 1] == (']', false) {
        proof {
            lemma_last_open(d, end - 1);
        }
        match last_open(d, end - 1) {
            None => Ok((end, seq![])),
            Some(open) => match array_index_spec(d.subrange(open + 1, end - 1)) {
                Err(f) => Err(f),
                Ok(None) => Ok((end, seq![])),
                Ok(Some(idx)) => match trailing_indexes(d, open) {
                    Err(f) => Err(f),
                    Ok((k, ix)) => Ok((k, ix.push(idx))),
                },
            },
        }
    } else {
        Ok((end, seq![]))
    }
}

/// A peeling result followed by more indexes.
pub open spec fn with_tail(r: Result<(int, Seq<nat>), DeleteFailure>, tail: Seq<nat>) -> Result<
    (int, Seq<nat>),
    DeleteFailure,
> {
    match r {
        Ok((k, ix)) => Ok((k, ix + tail)),
        Err(f) => Err(f),
    }
}

/// Index segments for a list of indexes.
pub open spec fn index_segments(ix: Seq<nat>) -> Seq<SegmentView> {
    ix.map_values(|n: nat| SegmentView::Index(n))
}

/// The segments of one decoded component: a key (unless the component is only array indexes)
/// followed by its trailing indexes.
pub open spec fn component_segments(d: Seq<(char, bool)>) -> Result<Seq<SegmentView>, DeleteFailure> {
    match trailing_indexes(d, d.len() as int) {
        Err(f) => Err(f),
        Ok((k, ix)) => Ok(
            (if k > 0 || ix.len() == 0 {
                seq![SegmentView::Key(plain_chars(d.take(k)))]
            } else {
                seq![]
            }) + index_segments(ix),
        ),
    }
}

proof fn lemma_trailing_bounds(d: Seq<(char, bool)>, end: int)
    requires
        0 <= end <= d.len(),
    ensures
        match trailing_indexes(d, end) {
            Ok((k, ix)) => 0 <= k <= end,
            Err(_) => true,
        },
    decreases end,
{
    if 0 < end <= d.len() && d[end - 1] == (']', false) {
        lemma_last_open(d, end - 1);
        match last_open(d, end - 1) {
            Some(open) => {
                lemma_trailing_bounds(d, open);
            },
            None => {},
        }
    }
}

fn parse_body_path_component(d: &[(char, bool)], segments: &mut Vec<DeleteBodyPathSegment>) -> (r:
    Result<(), RuleModelError>)
    ensures
        match (r, component_segments(d@)) {
            (Ok(()), Ok(more)) => segment_views(final(segments)@) == segment_views(old(segments)@)
                + more,
            (Err(e), Err(f)) => delete_error(e, f),
            _ => false,
        },
{
    let mut end: usize = d.len();
    let mut indexes: Vec<usize> = Vec::new();
    let ghost n = d@.len() as int;
    assert(with_tail(trailing_indexes(d@, n), seq![]) == trailing_indexes(d@, n)) by {
        match trailing_indexes(d@, n) {
            Ok((k, ix)) => {
                assert(ix + seq![] == ix);
            },
            Err(_) => {},
        }
    }
    while end > 0 && d[end - 1].0 == ']' && !d[end - 1].1
        invariant
            end <= d@.len(),
            n == d@.len(),
            trailing_indexes(d@, n) == with_tail(
                trailing_indexes(d@, end as int),
                indexes@.map_values(|x: usize| x as nat),
            ),
        ensures
            end <= d@.len(),
            trailing_indexes(d@, n) == with_tail(
                Ok((end as int, seq![])),
                indexes@.map_values(|x: usize| x as nat),
            ),
        decreases end,
    {
        assert(d@[end - 1] == (']', false));
        proof {
            lemma_last_open(d@, end - 1);
        }
        let mut j = end - 1;
        let mut found = false;
        while j > 0
            invariant
                j < end <= d@.len(),
                last_open(d@, end - 1) == last_open(d@, j as int),
            ensures
                last_open(d@, end - 1) == last_open(d@, j as int),
                j == 0 || d@[j - 1] == ('[', false),
            decreases j,
        {
            if d[j - 1].0 == '[' && !d[j - 1].1 {
                assert(d@[j - 1] == ('[', false));
                break;
            }
            j -= 1;
        }
        if j == 0 {
            assert(last_open(d@, 0) is None);
            assert(trailing_indexes(d@, end as int) == Ok::<(int, Seq<nat>), DeleteFailure>((end as int, seq![])));
            break;
        }
        let open = j - 1;
        assert(last_open(d@, end - 1) == Some(open as int));
        let inner = slice_slice(d, open + 1, end - 1);
        match body_array_index(&inner) {
            Err(e) => {
                return Err(e);
            },
            Ok(None) => {
                break;
            },
            Ok(Some(idx)) => {
                let ghost old_tail = indexes@.map_values(|x: usize| x as nat);
                indexes.insert(0, idx);
                assert(indexes@.map_values(|x: usize| x as nat) =~= seq![idx as nat] + old_tail);
                proof {
                    match trailing_indexes(d@, open as int) {
                        Ok((k, ix)) => {
                            assert(ix.push(idx as nat) + old_tail == ix + (seq![idx as nat] + old_tail));
                        },
                        Err(_) => {},
                    }
                }
                end = open;
            },
        }
    }
    proof {
        lemma_trailing_bounds(d@, n);
    }
    let ghost before = segment_views(segments@);
    if end > 0 || indexes.len() == 0 {
        let key = slice_slice(d, 0, end);
        let text = plain_of(&key);
        segments.push(DeleteBodyPathSegment::Key(string_of(&text)));
    }
    let ghost mid = segment_views(segments@);
    assert(mid == before + (if end > 0 || indexes@.len() == 0 {
        seq![SegmentView::Key(plain_chars(d@.take(end as int)))]
    } else {
        seq![]
    }));
    let mut i: usize = 0;
    while i < indexes.len()
        invariant
            i <= indexes@.len(),
            segment_views(segments@) == mid + index_segments(
                indexes@.map_values(|x: usize| x as nat).take(i as int),
            ),
        decreases indexes@.len() - i,
    {
        let ghost prev = segment_views(segments@);
        segments.push(DeleteBodyPathSegment::Index(indexes[i]));
        assert(segment_views(segments@) =~= prev.push(SegmentView::Index(indexes@[i as int] as nat)));
        assert(index_segments(indexes@.map_values(|x: usize| x as nat).take(i + 1)) =~= index_segments(
            indexes@.map_values(|x: usize| x as nat).take(i as int),
        ).push(SegmentView::Index(indexes@[i as int] as nat)));
        i += 1;
    }
    assert(indexes@.map_values(|x: usize| x as nat).take(indexes@.len() as int) =~= indexes@.map_values(
        |x: usize| x as nat,
    ));
    Ok(())
}

fn slice_slice(d: &[(char, bool)], a: usize, b: usize) -> (r: Vec<(char, bool)>)
    requires
        a <= b <= d@.len(),
    ensures
        r@ == d@.subrange(a as int, b as int),
{
    let mut out: Vec<(char, bool)> = Vec::new();
    let mut i: usize = a;
    while i < b
        invariant
            a <= i <= b <= d@.len(),
            out@ == d@.subrange(a as int, i as int),
        decreases b - i,
    {
        out.push(d[i]);
        assert(d@.subrange(a as int, i + 1) == d@.subrange(a as int, i as int).push(d@[i as int]));
        i += 1;
    }
    out
}


/// The segments of a whole body path, component by component, failing past the segment limit.
pub open spec fn path_segments(comps: Seq<Seq<char>>, n: nat) -> Result<Seq<SegmentView>, DeleteFailure>
    decreases n,
{
    if n == 0 {
        Ok(seq![])
    } else {
        match path_segments(comps, (n - 1) as nat) {
            Err(f) => Err(f),
            Ok(segs) => match decode_component(comps[n - 1]) {
                None => Err(DeleteFailure::TrailingEscape),
                Some(d) => match component_segments(d) {
                    Err(f) => Err(f),
                    Ok(more) => if segs.len() + more.len() > MAX_BODY_PATH_SEGMENTS {
                        Err(DeleteFailure::TooManySegments)
                    } else {
                        Ok(segs + more)
                    },
                },
            },
        }
    }
}

/// A nested body path: `.`-separated keys with `\` escapes and trailing `[n]` array indexes.
pub open spec fn body_path_spec(s: Seq<char>) -> Result<Seq<SegmentView>, DeleteFailure> {
    if s.len() == 0 {
        Err(DeleteFailure::EmptyBodyPath)
    } else if utf8_len(s) > MAX_BODY_PATH_BYTES {
        Err(DeleteFailure::BodyPathTooLong)
    } else {
        match split_path_from(s, seq![]) {
            None => Err(DeleteFailure::TrailingEscape),
            Some(comps) => match path_segments(comps, comps.len()) {
                Ok(segs) => if segs.len() == 0 {
                    Err(DeleteFailure::EmptyBodyPath)
                } else {
                    Ok(segs)
                },
                Err(f) => Err(f),
            },
        }
    }
}

/// Whether the UTF-8 encoding of `s` is longer than `limit` bytes.
fn utf8_longer_than(s: &[char], limit: usize) -> (r: bool)
    ensures
        r == (utf8_len(s@) > limit),
{
    let mut total: usize = 0;
    let mut i: usize = 0;
    assert(s@.take(0) =~= Seq::<char>::empty());
    while i < s.len()
        invariant
            i <= s@.len(),
            total == utf8_len(s@.take(i as int)),
            total <= limit,
        decreases s@.len() - i,
    {
        proof {
            lemma_utf8_len_take(s@, i as int);
        }
        let w = char_utf8_width(s[i]);
        if w > limit - total {
            proof {
                lemma_utf8_len_prefix(s@, i + 1);
            }
            return true;
        }
        total = total + w;
        i += 1;
    }
    assert(s@.take(s@.len() as int) == s@);
    false
}

fn parse_body_path(input: &[char]) -> (r: Result<DeleteBodyPath, RuleModelError>)
    ensures
        match (r, body_path_spec(input@)) {
            (Ok(p), Ok(segs)) => p@ == segs,
            (Err(e), Err(f)) => delete_error(e, f),
            _ => false,
        },
{
    if input.len() == 0 {
        return Err(RuleModelError::EmptyInput {
            context: "delete body path",
            message: lit("delete body path must not be empty"),
        });
    }
    if utf8_longer_than(input, MAX_BODY_PATH_BYTES) {
        return Err(RuleModelError::LimitExceeded {
            context: "delete body path",
            message: lit("delete body path exceeds 16384 bytes"),
        });
    }
    let components = split_body_path(input)?;
    let ghost comps = components@.map_values(|x: Vec<char>| x@);
    let mut segments: Vec<DeleteBodyPathSegment> = Vec::new();
    let mut i: usize = 0;
    assert(segment_views(segments@) =~= Seq::<SegmentView>::empty());
    while i < components.len()
        invariant
            i <= components@.len(),
            comps == components@.map_values(|x: Vec<char>| x@),
            input@.len() != 0,
            utf8_len(input@) <= MAX_BODY_PATH_BYTES,
            split_path_from(input@, seq![]) == Some(comps),
            path_segments(comps, i as nat) == Ok::<Seq<SegmentView>, DeleteFailure>(
                segment_views(segments@),
            ),
        decreases components@.len() - i,
    {
        assert(comps[i as int] == components@[i as int]@);
        let ghost segs = segment_views(segments@);
        let decoded = match decode_body_path_component(components[i].as_slice()) {
            Ok(d) => d,
            Err(e) => {
                proof {
                    assert(decode_component(comps[i as int]) is None);
                    assert(path_segments(comps, (i + 1) as nat) == Err::<Seq<SegmentView>, DeleteFailure>(
                        DeleteFailure::TrailingEscape,
                    ));
                    lemma_path_failure_persists(comps, (i + 1) as nat, comps.len());
                }
                return Err(e);
            },
        };
        assert(decode_component(comps[i as int]) == Some(decoded@));
        match parse_body_path_component(&decoded, &mut segments) {
            Ok(()) => {},
            Err(e) => {
                proof {
                    let f = component_segments(decoded@)->Err_0;
                    assert(path_segments(comps, (i + 1) as nat) == Err::<Seq<SegmentView>, DeleteFailure>(f));
                    lemma_path_failure_persists(comps, (i + 1) as nat, comps.len());
                }
                return Err(e);
            },
        }
        assert(segment_views(segments@).len() == segments@.len());
        if segments.len() > MAX_BODY_PATH_SEGMENTS {
            proof {
                assert(path_segments(comps, (i + 1) as nat) == Err::<Seq<SegmentView>, DeleteFailure>(
                    DeleteFailure::TooManySegments,
                ));
                lemma_path_failure_persists(comps, (i + 1) as nat, comps.len());
            }
            return Err(RuleModelError::LimitExceeded {
                context: "delete body path",
                message: lit("delete body path exceeds 128 segments"),
            });
        }
        assert(path_segments(comps, (i + 1) as nat) == Ok::<Seq<SegmentView>, DeleteFailure>(
            segment_views(segments@),
        ));
        i += 1;
    }
    DeleteBodyPath::new(segments)
}

proof fn lemma_path_failure_persists(comps: Seq<Seq<char>>, n: nat, m: nat)
    requires
        n <= m,
        path_segments(comps, n) is Err,
    ensures
        path_segments(comps, m) == path_segments(comps, n),
    decreases m - n,
{
    if m > n {
        lemma_path_failure_persists(comps, n, (m - 1) as nat);
    }
}


// ---------------------------------------------------------------------------
// Properties
// ---------------------------------------------------------------------------

/// A pathname segment: `first`, `last` (any case), or an `i32` position.
pub open spec fn path_segment_spec(seg: Seq<char>) -> Option<DeletePathSegment> {
    if lower_seq(seg) == "first"@ {
        Some(DeletePathSegment::Index(0))
    } else if lower_seq(seg) == "last"@ {
        Some(DeletePathSegment::Last)
    } else {
        match parse_signed_spec(seg, -2147483648, 2147483647) {
            Some(n) => Some(DeletePathSegment::Index(n as i32)),
            None => None,
        }
    }
}

/// Operations on one validated name.
pub open spec fn named(name: Seq<char>, f: spec_fn(Seq<char>) -> Seq<DeleteOpView>) -> Result<
    Seq<DeleteOpView>,
    DeleteFailure,
> {
    match valid_name_spec(name) {
        Ok(n) => Ok(f(n)),
        Err(e) => Err(e),
    }
}

/// URL and header targets; `None` when the property is none of them.
pub open spec fn delete_url_header(p: Seq<char>) -> Option<Result<Seq<DeleteOpView>, DeleteFailure>> {
    if ci_eq(p, "pathname"@) {
        Some(Ok(seq![DeleteOpView::Pathname]))
    } else if suffix_of(p, "pathname."@) is Some {
        Some(
            match path_segment_spec(suffix_of(p, "pathname."@)->0) {
                Some(x) => Ok(seq![DeleteOpView::PathSegment(x)]),
                None => Err(DeleteFailure::BadSegment),
            },
        )
    } else if ci_any(p, literal_views(seq!["urlParams", "url.params", "params", "query"])) {
        Some(Ok(seq![DeleteOpView::UrlParams]))
    } else if first_suffix(p, literal_views(seq!["urlParams.", "url.params.", "params.", "query."]))
        is Some {
        Some(
            named(
                first_suffix(p, literal_views(seq!["urlParams.", "url.params.", "params.", "query."]))->0,
                |n: Seq<char>| seq![DeleteOpView::UrlParam(n)],
            ),
        )
    } else if first_suffix(p, literal_views(req_header_prefixes())) is Some {
        Some(
            named(
                first_suffix(p, literal_views(req_header_prefixes()))->0,
                |n: Seq<char>| seq![DeleteOpView::ReqHeader(n)],
            ),
        )
    } else if first_suffix(p, literal_views(res_header_prefixes())) is Some {
        Some(
            named(
                first_suffix(p, literal_views(res_header_prefixes()))->0,
                |n: Seq<char>| seq![DeleteOpView::ResHeader(n)],
            ),
        )
    } else if suffix_of(p, "headers."@) is Some {
        Some(
            named(
                suffix_of(p, "headers."@)->0,
                |n: Seq<char>| seq![DeleteOpView::ReqHeader(n), DeleteOpView::ResHeader(n)],
            ),
        )
    } else {
        None
    }
}

pub open spec fn req_header_prefixes() -> Seq<&'static str> {
    seq!["reqHeaders.", "reqHeader.", "req.headers.", "req.header.", "reqH."]
}

pub open spec fn res_header_prefixes() -> Seq<&'static str> {
    seq!["resHeaders.", "resHeader.", "res.headers.", "res.header.", "resH."]
}

pub open spec fn req_cookie_prefixes() -> Seq<&'static str> {
    seq!["reqCookies.", "reqCookie.", "req.cookies.", "req.cookie.", "reqC."]
}

pub open spec fn res_cookie_prefixes() -> Seq<&'static str> {
    seq!["resCookies.", "resCookie.", "res.cookies.", "res.cookie.", "resC."]
}

/// Body, content-type, and charset targets; `None` when the property is none of them.
pub open spec fn delete_body(p: Seq<char>) -> Option<Result<Seq<DeleteOpView>, DeleteFailure>> {
    if ci_any(p, literal_views(seq!["reqBody", "req.body"])) {
        Some(Ok(seq![DeleteOpView::ReqBody]))
    } else if ci_any(p, literal_views(seq!["resBody", "res.body"])) {
        Some(Ok(seq![DeleteOpView::ResBody]))
    } else if ci_eq(p, "body"@) {
        Some(Ok(seq![DeleteOpView::ReqBody, DeleteOpView::ResBody]))
    } else if first_suffix(p, literal_views(seq!["reqBody.", "req.body."])) is Some {
        Some(
            match body_path_spec(first_suffix(p, literal_views(seq!["reqBody.", "req.body."]))->0) {
                Ok(segs) => Ok(seq![DeleteOpView::ReqBodyPath(segs)]),
                Err(f) => Err(f),
            },
        )
    } else if first_suffix(p, literal_views(seq!["resBody.", "res.body."])) is Some {
        Some(
            match body_path_spec(first_suffix(p, literal_views(seq!["resBody.", "res.body."]))->0) {
                Ok(segs) => Ok(seq![DeleteOpView::ResBodyPath(segs)]),
                Err(f) => Err(f),
            },
        )
    } else if ci_any(p, literal_views(seq!["reqType", "req.type"])) {
        Some(Ok(seq![DeleteOpView::ReqType]))
    } else if ci_any(p, literal_views(seq!["resType", "res.type"])) {
        Some(Ok(seq![DeleteOpView::ResType]))
    } else if ci_any(p, literal_views(seq!["reqCharset", "req.charset"])) {
        Some(Ok(seq![DeleteOpView::ReqCharset]))
    } else if ci_any(p, literal_views(seq!["resCharset", "res.charset"])) {
        Some(Ok(seq![DeleteOpView::ResCharset]))
    } else {
        None
    }
}

/// Cookie and trailer targets; `None` when the property is none of them.
pub open spec fn delete_cookie(p: Seq<char>) -> Option<Result<Seq<DeleteOpView>, DeleteFailure>> {
    if ci_any(p, literal_views(seq!["reqCookies", "req.cookies"])) {
        Some(Ok(seq![DeleteOpView::ReqCookies]))
    } else if ci_any(p, literal_views(seq!["resCookies", "res.cookies"])) {
        Some(Ok(seq![DeleteOpView::ResCookies]))
    } else if ci_any(p, literal_views(seq!["cookies", "cookie"])) {
        Some(Ok(seq![DeleteOpView::ReqCookies, DeleteOpView::ResCookies]))
    } else if first_suffix(p, literal_views(req_cookie_prefixes())) is Some {
        Some(
            named(
                first_suffix(p, literal_views(req_cookie_prefixes()))->0,
                |n: Seq<char>| seq![DeleteOpView::ReqCookie(n)],
            ),
        )
    } else if first_suffix(p, literal_views(res_cookie_prefixes())) is Some {
        Some(
            named(
                first_suffix(p, literal_views(res_cookie_prefixes()))->0,
                |n: Seq<char>| seq![DeleteOpView::ResCookie(n)],
            ),
        )
    } else if first_suffix(p, literal_views(seq!["cookies.", "cookie."])) is Some {
        Some(
            named(
                first_suffix(p, literal_views(seq!["cookies.", "cookie."]))->0,
                |n: Seq<char>| seq![DeleteOpView::ReqCookie(n), DeleteOpView::ResCookie(n)],
            ),
        )
    } else if suffix_of(p, "trailer."@) is Some {
        Some(named(suffix_of(p, "trailer."@)->0, |n: Seq<char>| seq![DeleteOpView::Trailer(n)]))
    } else if ci_any(p, literal_views(seq!["trailers", "trailer"])) {
        Some(Ok(seq![DeleteOpView::Trailers]))
    } else {
        None
    }
}

/// The operations one `delete(...)` property stands for.
pub open spec fn delete_property_spec(p: Seq<char>) -> Result<Seq<DeleteOpView>, DeleteFailure> {
    match delete_url_header(p) {
        Some(r) => r,
        None => match delete_body(p) {
            Some(r) => r,
            None => match delete_cookie(p) {
                Some(r) => r,
                None => Err(DeleteFailure::Unknown),
            },
        },
    }
}

/// A delete result as a view.
pub open spec fn ops_result(r: Option<Result<Vec<DeleteOp>, RuleModelError>>, s: Option<
    Result<Seq<DeleteOpView>, DeleteFailure>,
>) -> bool {
    match (r, s) {
        (None, None) => true,
        (Some(Ok(v)), Some(Ok(w))) => delete_views(v@) == w,
        (Some(Err(e)), Some(Err(f))) => delete_error(e, f),
        _ => false,
    }
}

fn one_op(op: DeleteOp) -> (r: Vec<DeleteOp>)
    ensures
        delete_views(r@) == seq![op@],
{
    let v = vec![op];
    assert(delete_views(v@) =~= seq![op@]);
    v
}

fn two_ops(a: DeleteOp, b: DeleteOp) -> (r: Vec<DeleteOp>)
    ensures
        delete_views(r@) == seq![a@, b@],
{
    let v = vec![a, b];
    assert(delete_views(v@) =~= seq![a@, b@]);
    v
}

fn parse_path_segment(seg: &[char]) -> (r: Result<DeletePathSegment, RuleModelError>)
    ensures
        match (r, path_segment_spec(seg@)) {
            (Ok(a), Some(b)) => a == b,
            (Err(e), None) => delete_error(e, DeleteFailure::BadSegment),
            _ => false,
        },
{
    let low = lower_chars(seg);
    let first = chars_of("first");
    let last = chars_of("last");
    if seq_eq(&low, &first) {
        return Ok(DeletePathSegment::Index(0));
    }
    if seq_eq(&low, &last) {
        return Ok(DeletePathSegment::Last);
    }
    match parse_signed(seg, 2147483648, 2147483647) {
        Some(n) => Ok(DeletePathSegment::Index(n as i32)),
        None => {
            let text = string_of(seg);
            Err(RuleModelError::InvalidInteger {
                context: "pathname segment",
                input: string_of(seg),
                message: concat3("invalid pathname segment `", text.as_str(), "`"),
            })
        },
    }
}

fn url_header_ops(p: &[char]) -> (r: Option<Result<Vec<DeleteOp>, RuleModelError>>)
    ensures
        ops_result(r, delete_url_header(p@)),
{
    if ci_eq_chars(p, &chars_of("pathname")) {
        return Some(Ok(one_op(DeleteOp::Pathname)));
    }
    if let Some(seg) = suffix(p, "pathname.") {
        return Some(
            match parse_path_segment(&seg) {
                Ok(x) => Ok(one_op(DeleteOp::PathSegment(x))),
                Err(e) => Err(e),
            },
        );
    }
    if matches_name(p, &vec!["urlParams", "url.params", "params", "query"]) {
        return Some(Ok(one_op(DeleteOp::UrlParams)));
    }
    if let Some(name) = suffix_any(p, &vec!["urlParams.", "url.params.", "params.", "query."]) {
        return Some(
            match valid_name("URL parameter", &name) {
                Ok(n) => Ok(one_op(DeleteOp::UrlParam(n))),
                Err(e) => Err(e),
            },
        );
    }
    if let Some(name) = suffix_any(
        p,
        &vec!["reqHeaders.", "reqHeader.", "req.headers.", "req.header.", "reqH."],
    ) {
        return Some(
            match valid_name("request header", &name) {
                Ok(n) => Ok(one_op(DeleteOp::ReqHeader(n))),
                Err(e) => Err(e),
            },
        );
    }
    if let Some(name) = suffix_any(
        p,
        &vec!["resHeaders.", "resHeader.", "res.headers.", "res.header.", "resH."],
    ) {
        return Some(
            match valid_name("response header", &name) {
                Ok(n) => Ok(one_op(DeleteOp::ResHeader(n))),
                Err(e) => Err(e),
            },
        );
    }
    if let Some(name) = suffix(p, "headers.") {
        return Some(
            match valid_name("header", &name) {
                Ok(n) => {
                    let copy = n.clone();
                    Ok(two_ops(DeleteOp::ReqHeader(copy), DeleteOp::ResHeader(n)))
                },
                Err(e) => Err(e),
            },
        );
    }
    None
}

fn body_ops(p: &[char]) -> (r: Option<Result<Vec<DeleteOp>, RuleModelError>>)
    ensures
        ops_result(r, delete_body(p@)),
{
    if matches_name(p, &vec!["reqBody", "req.body"]) {
        return Some(Ok(one_op(DeleteOp::ReqBody)));
    }
    if matches_name(p, &vec!["resBody", "res.body"]) {
        return Some(Ok(one_op(DeleteOp::ResBody)));
    }
    if ci_eq_chars(p, &chars_of("body")) {
        return Some(Ok(two_ops(DeleteOp::ReqBody, DeleteOp::ResBody)));
    }
    if let Some(path) = suffix_any(p, &vec!["reqBody.", "req.body."]) {
        return Some(
            match parse_body_path(&path) {
                Ok(b) => Ok(one_op(DeleteOp::ReqBodyPath(b))),
                Err(e) => Err(e),
            },
        );
    }
    if let Some(path) = suffix_any(p, &vec!["resBody.", "res.body."]) {
        return Some(
            match parse_body_path(&path) {
                Ok(b) => Ok(one_op(DeleteOp::ResBodyPath(b))),
                Err(e) => Err(e),
            },
        );
    }
    if matches_name(p, &vec!["reqType", "req.type"]) {
        return Some(Ok(one_op(DeleteOp::ReqType)));
    }
    if matches_name(p, &vec!["resType", "res.type"]) {
        return Some(Ok(one_op(DeleteOp::ResType)));
    }
    if matches_name(p, &vec!["reqCharset", "req.charset"]) {
        return Some(Ok(one_op(DeleteOp::ReqCharset)));
    }
    if matches_name(p, &vec!["resCharset", "res.charset"]) {
        return Some(Ok(one_op(DeleteOp::ResCharset)));
    }
    None
}

fn cookie_ops(p: &[char]) -> (r: Option<Result<Vec<DeleteOp>, RuleModelError>>)
    ensures
        ops_result(r, delete_cookie(p@)),
{
    if matches_name(p, &vec!["reqCookies", "req.cookies"]) {
        return Some(Ok(one_op(DeleteOp::ReqCookies)));
    }
    if matches_name(p, &vec!["resCookies", "res.cookies"]) {
        return Some(Ok(one_op(DeleteOp::ResCookies)));
    }
    if matches_name(p, &vec!["cookies", "cookie"]) {
        return Some(Ok(two_ops(DeleteOp::ReqCookies, DeleteOp::ResCookies)));
    }
    if let Some(name) = suffix_any(
        p,
        &vec!["reqCookies.", "reqCookie.", "req.cookies.", "req.cookie.", "reqC."],
    ) {
        return Some(
            match valid_name("request cookie", &name) {
                Ok(n) => Ok(one_op(DeleteOp::ReqCookie(n))),
                Err(e) => Err(e),
            },
        );
    }
    if let Some(name) = suffix_any(
        p,
        &vec!["resCookies.", "resCookie.", "res.cookies.", "res.cookie.", "resC."],
    ) {
        return Some(
            match valid_name("response cookie", &name) {
                Ok(n) => Ok(one_op(DeleteOp::ResCookie(n))),
                Err(e) => Err(e),
            },
        );
    }
    if let Some(name) = suffix_any(p, &vec!["cookies.", "cookie."]) {
        return Some(
            match valid_name("cookie", &name) {
                Ok(n) => {
                    let copy = n.clone();
                    Ok(two_ops(DeleteOp::ReqCookie(copy), DeleteOp::ResCookie(n)))
                },
                Err(e) => Err(e),
            },
        );
    }
    if let Some(name) = suffix(p, "trailer.") {
        return Some(
            match valid_name("trailer", &name) {
                Ok(n) => Ok(one_op(DeleteOp::Trailer(n))),
                Err(e) => Err(e),
            },
        );
    }
    if matches_name(p, &vec!["trailers", "trailer"]) {
        return Some(Ok(one_op(DeleteOp::Trailers)));
    }
    None
}

/// Parses one `delete(...)` property and appends the operations it stands for.
pub fn parse_delete_property(property: &str, operations: &mut Vec<DeleteOp>) -> (r: Result<
    (),
    RuleModelError,
>)
    ensures
        match (r, delete_property_spec(property@)) {
            (Ok(()), Ok(more)) => delete_views(final(operations)@) == delete_views(old(operations)@)
                + more,
            (Err(e), Err(f)) => delete_error(e, f) && final(operations)@ == old(operations)@,
            _ => false,
        },
{
    let p = chars_of(property);
    let found = match url_header_ops(&p) {
        Some(r) => r,
        None => match body_ops(&p) {
            Some(r) => r,
            None => match cookie_ops(&p) {
                Some(r) => r,
                None => Err(RuleModelError::UnsupportedInput {
                    context: "delete property",
                    message: concat3("unknown delete property `", property, "`"),
                }),
            },
        },
    };
    match found {
        Ok(more) => {
            let ghost before = delete_views(operations@);
            let mut i: usize = 0;
            while i < more.len()
                invariant
                    i <= more@.len(),
                    delete_views(operations@) == before + delete_views(more@.take(i as int)),
                decreases more@.len() - i,
            {
                let ghost prev = delete_views(operations@);
                operations.push(clone_op(&more[i]));
                assert(delete_views(operations@) =~= prev.push(more@[i as int]@));
                assert(delete_views(more@.take(i + 1)) =~= delete_views(more@.take(i as int)).push(
                    more@[i as int]@,
                ));
                i += 1;
            }
            assert(more@.take(more@.len() as int) == more@);
            Ok(())
        },
        Err(e) => Err(e),
    }
}

/// A copy of a deletion target.
pub fn clone_op(op: &DeleteOp) -> (r: DeleteOp)
    ensures
        r@ == op@,
{
    match op {
        DeleteOp::Pathname => DeleteOp::Pathname,
        DeleteOp::PathSegment(p) => DeleteOp::PathSegment(*p),
        DeleteOp::UrlParams => DeleteOp::UrlParams,
        DeleteOp::UrlParam(n) => DeleteOp::UrlParam(n.clone()),
        DeleteOp::ReqHeader(n) => DeleteOp::ReqHeader(n.clone()),
        DeleteOp::ResHeader(n) => DeleteOp::ResHeader(n.clone()),
        DeleteOp::ReqBody => DeleteOp::ReqBody,
        DeleteOp::ResBody => DeleteOp::ResBody,
        DeleteOp::ReqBodyPath(p) => DeleteOp::ReqBodyPath(p.duplicate()),
        DeleteOp::ResBodyPath(p) => DeleteOp::ResBodyPath(p.duplicate()),
        DeleteOp::ReqType => DeleteOp::ReqType,
        DeleteOp::ResType => DeleteOp::ResType,
        DeleteOp::ReqCharset => DeleteOp::ReqCharset,
        DeleteOp::ResCharset => DeleteOp::ResCharset,
        DeleteOp::ReqCookie(n) => DeleteOp::ReqCookie(n.clone()),
        DeleteOp::ResCookie(n) => DeleteOp::ResCookie(n.clone()),
        DeleteOp::ReqCookies => DeleteOp::ReqCookies,
        DeleteOp::ResCookies => DeleteOp::ResCookies,
        DeleteOp::Trailer(n) => DeleteOp::Trailer(n.clone()),
        DeleteOp::Trailers => DeleteOp::Trailers,
    }
}


/// The operations of the first `n` properties of `delete(...)`.
pub open spec fn delete_ops_from(args: Seq<Seq<char>>, n: nat) -> Result<
    Seq<DeleteOpView>,
    DeleteFailure,
>
    decreases n,
{
    if n == 0 {
        Ok(seq![])
    } else {
        match delete_ops_from(args, (n - 1) as nat) {
            Err(f) => Err(f),
            Ok(ops) => {
                let p = unquote_spec(args[n - 1]);
                if p.len() == 0 {
                    Err(DeleteFailure::EmptyProperty)
                } else {
                    match delete_property_spec(p) {
                        Ok(more) => Ok(ops + more),
                        Err(f) => Err(f),
                    }
                }
            },
        }
    }
}

/// The operations of `delete(...)`: each property, unquoted, in order.
pub open spec fn delete_ops_spec(args: Seq<Seq<char>>) -> Result<Seq<DeleteOpView>, DeleteFailure> {
    if args.len() == 0 {
        Err(DeleteFailure::NoProperties)
    } else {
        delete_ops_from(args, args.len())
    }
}

proof fn lemma_delete_ops_failure(args: Seq<Seq<char>>, n: nat, m: nat)
    requires
        n <= m,
        delete_ops_from(args, n) is Err,
    ensures
        delete_ops_from(args, m) == delete_ops_from(args, n),
    decreases m - n,
{
    if m > n {
        lemma_delete_ops_failure(args, n, (m - 1) as nat);
    }
}

/// Parses the arguments of `delete(...)` into typed deletion targets.
pub fn parse_delete_ops(args: &[String]) -> (r: Result<Vec<DeleteOp>, RuleModelError>)
    ensures
        match (r, delete_ops_spec(args@.map_values(|x: String| x@))) {
            (Ok(v), Ok(w)) => delete_views(v@) == w,
            (Err(e), Err(f)) => delete_error(e, f),
            _ => false,
        },
{
    let ghost a = args@.map_values(|x: String| x@);
    if args.len() == 0 {
        return Err(RuleModelError::MissingArgument {
            context: "delete action",
            message: lit("delete requires at least one property"),
        });
    }
    let mut operations: Vec<DeleteOp> = Vec::new();
    let mut i: usize = 0;
    assert(delete_views(operations@) =~= Seq::<DeleteOpView>::empty());
    while i < args.len()
        invariant
            i <= args@.len(),
            a == args@.map_values(|x: String| x@),
            args@.len() > 0,
            delete_ops_from(a, i as nat) == Ok::<Seq<DeleteOpView>, DeleteFailure>(
                delete_views(operations@),
            ),
        decreases args@.len() - i,
    {
        assert(a[i as int] == args@[i as int]@);
        let property = unquote(args[i].as_str());
        if property.as_str().is_empty() {
            proof {
                assert(delete_ops_from(a, (i + 1) as nat) == Err::<Seq<DeleteOpView>, DeleteFailure>(
                    DeleteFailure::EmptyProperty,
                ));
                lemma_delete_ops_failure(a, (i + 1) as nat, a.len());
            }
            return Err(RuleModelError::EmptyInput {
                context: "delete property",
                message: lit("delete properties must not be empty"),
            });
        }
        match parse_delete_property(property.as_str(), &mut operations) {
            Ok(()) => {},
            Err(e) => {
                proof {
                    let f = delete_property_spec(property@)->Err_0;
                    assert(delete_ops_from(a, (i + 1) as nat) == Err::<Seq<DeleteOpView>, DeleteFailure>(f));
                    lemma_delete_ops_failure(a, (i + 1) as nat, a.len());
                }
                return Err(e);
            },
        }
        i += 1;
    }
    Ok(operations)
}

} // verus!




