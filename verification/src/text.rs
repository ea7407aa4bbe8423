//! Character-level text model shared by the rule parser and the platform renderers.
//!
//! Text is reasoned about as `Seq<char>`, the view of `str` and `String`.
use vstd::prelude::*;

verus! {

// ---------------------------------------------------------------------------
// Character classes
// ---------------------------------------------------------------------------

/// Unicode `White_Space`, the property behind `char::is_whitespace`.
pub open spec fn is_ws(c: char) -> bool {
    ||| ('\u{9}' <= c && c <= '\u{d}')
    ||| c == ' '
    ||| c == '\u{85}'
    ||| c == '\u{a0}'
    ||| c == '\u{1680}'
    ||| ('\u{2000}' <= c && c <= '\u{200a}')
    ||| c == '\u{2028}'
    ||| c == '\u{2029}'
    ||| c == '\u{202f}'
    ||| c == '\u{205f}'
    ||| c == '\u{3000}'
}

/// Unicode general category `Cc`, the property behind `char::is_control`.
pub open spec fn is_ctrl(c: char) -> bool {
    c <= '\u{1f}' || ('\u{7f}' <= c && c <= '\u{9f}')
}

pub open spec fn is_digit(c: char) -> bool {
    '0' <= c && c <= '9'
}

pub open spec fn is_upper(c: char) -> bool {
    'A' <= c && c <= 'Z'
}

pub open spec fn is_lower(c: char) -> bool {
    'a' <= c && c <= 'z'
}

pub open spec fn is_alpha(c: char) -> bool {
    is_upper(c) || is_lower(c)
}

pub open spec fn is_alnum(c: char) -> bool {
    is_alpha(c) || is_digit(c)
}

pub open spec fn is_hex(c: char) -> bool {
    is_digit(c) || ('a' <= c && c <= 'f') || ('A' <= c && c <= 'F')
}

/// ASCII lowercase mapping of one character; other characters are unchanged.
pub open spec fn lower(c: char) -> char {
    if is_upper(c) {
        ((c as u32) + 32) as char
    } else {
        c
    }
}

/// ASCII uppercase mapping of one character; other characters are unchanged.
pub open spec fn upper(c: char) -> char {
    if is_lower(c) {
        ((c as u32) - 32) as char
    } else {
        c
    }
}

pub open spec fn lower_seq(s: Seq<char>) -> Seq<char> {
    s.map_values(|c: char| lower(c))
}

pub open spec fn upper_seq(s: Seq<char>) -> Seq<char> {
    s.map_values(|c: char| upper(c))
}

/// `a.eq_ignore_ascii_case(b)` on character sequences.
pub open spec fn ci_eq(a: Seq<char>, b: Seq<char>) -> bool {
    lower_seq(a) == lower_seq(b)
}

pub fn char_is_whitespace(c: char) -> (r: bool)
    ensures
        r == is_ws(c),
{
    ('\u{9}' <= c && c <= '\u{d}') || c == ' ' || c == '\u{85}' || c == '\u{a0}' || c
        == '\u{1680}' || ('\u{2000}' <= c && c <= '\u{200a}') || c == '\u{2028}' || c
        == '\u{2029}' || c == '\u{202f}' || c == '\u{205f}' || c == '\u{3000}'
}

pub fn char_is_control(c: char) -> (r: bool)
    ensures
        r == is_ctrl(c),
{
    c <= '\u{1f}' || ('\u{7f}' <= c && c <= '\u{9f}')
}

pub fn char_is_digit(c: char) -> (r: bool)
    ensures
        r == is_digit(c),
{
    '0' <= c && c <= '9'
}

pub fn char_is_alpha(c: char) -> (r: bool)
    ensures
        r == is_alpha(c),
{
    ('A' <= c && c <= 'Z') || ('a' <= c && c <= 'z')
}

pub fn char_is_alnum(c: char) -> (r: bool)
    ensures
        r == is_alnum(c),
{
    char_is_alpha(c) || char_is_digit(c)
}

pub fn char_is_hex(c: char) -> (r: bool)
    ensures
        r == is_hex(c),
{
    char_is_digit(c) || ('a' <= c && c <= 'f') || ('A' <= c && c <= 'F')
}

pub fn char_lower(c: char) -> (r: char)
    ensures
        r == lower(c),
{
    if 'A' <= c && c <= 'Z' {
        let v: u32 = c as u32;
        assert(65 <= v <= 90);
        let b: u8 = (v + 32) as u8;
        b as char
    } else {
        c
    }
}

pub fn char_upper(c: char) -> (r: char)
    ensures
        r == upper(c),
{
    if 'a' <= c && c <= 'z' {
        let v: u32 = c as u32;
        assert(97 <= v <= 122);
        let b: u8 = (v - 32) as u8;
        b as char
    } else {
        c
    }
}

// ---------------------------------------------------------------------------
// Conversions between `str`/`String` and character vectors
// ---------------------------------------------------------------------------

/// `String::push`.
#[verifier::external_body]
pub fn push_char(s: &mut String, c: char)
    ensures
        final(s)@ == old(s)@.push(c),
{
    s.push(c)
}

pub fn chars_of(s: &str) -> (r: Vec<char>)
    ensures
        r@ == s@,
{
    let mut out: Vec<char> = Vec::new();
    for c in it: s.chars()
        invariant
            out@ == it.seq().take(it.index() as int),
    {
        out.push(c);
    }
    out
}

pub fn string_of(s: &[char]) -> (r: String)
    ensures
        r@ == s@,
{
    let mut out = String::new();
    let mut i: usize = 0;
    while i < s.len()
        invariant
            i <= s@.len(),
            out@ == s@.take(i as int),
        decreases s@.len() - i,
    {
        push_char(&mut out, s[i]);
        assert(s@.take(i + 1) == s@.take(i as int).push(s@[i as int]));
        i += 1;
    }
    assert(s@.take(s@.len() as int) == s@);
    out
}

pub fn lit(s: &str) -> (r: String)
    ensures
        r@ == s@,
{
    s.to_owned()
}

/// Appends `t` to `s`.
pub fn append_str(s: &mut String, t: &str)
    ensures
        final(s)@ == old(s)@ + t@,
{
    let cs = chars_of(t);
    let mut i: usize = 0;
    let ghost start = s@;
    while i < cs.len()
        invariant
            i <= cs@.len(),
            cs@ == t@,
            s@ == start + cs@.take(i as int),
        decreases cs@.len() - i,
    {
        push_char(s, cs[i]);
        assert(cs@.take(i + 1) == cs@.take(i as int).push(cs@[i as int]));
        i += 1;
    }
    assert(cs@.take(cs@.len() as int) == cs@);
}

/// Concatenation of two texts.
pub fn concat(a: &str, b: &str) -> (r: String)
    ensures
        r@ == a@ + b@,
{
    let mut out = lit(a);
    append_str(&mut out, b);
    out
}

pub fn concat3(a: &str, b: &str, c: &str) -> (r: String)
    ensures
        r@ == a@ + b@ + c@,
{
    let mut out = lit(a);
    append_str(&mut out, b);
    append_str(&mut out, c);
    out
}

/// Equality of two texts.
pub fn str_eq(a: &str, b: &str) -> (r: bool)
    ensures
        r == (a@ == b@),
{
    let x = chars_of(a);
    let y = chars_of(b);
    seq_eq(&x, &y)
}

pub fn seq_eq(a: &[char], b: &[char]) -> (r: bool)
    ensures
        r == (a@ == b@),
{
    if a.len() != b.len() {
        return false;
    }
    let mut i: usize = 0;
    while i < a.len()
        invariant
            i <= a@.len(),
            a@.len() == b@.len(),
            forall|j: int| 0 <= j < i ==> a@[j] == b@[j],
        decreases a@.len() - i,
    {
        if a[i] != b[i] {
            return false;
        }
        i += 1;
    }
    assert(a@ =~= b@);
    true
}

/// Equality of a character slice with a text.
pub fn chars_eq(a: &[char], b: &str) -> (r: bool)
    ensures
        r == (a@ == b@),
{
    let y = chars_of(b);
    seq_eq(a, &y)
}

// ---------------------------------------------------------------------------
// Case mapping and case-insensitive comparison
// ---------------------------------------------------------------------------

pub fn lower_chars(s: &[char]) -> (r: Vec<char>)
    ensures
        r@ == lower_seq(s@),
{
    let mut out: Vec<char> = Vec::new();
    let mut i: usize = 0;
    while i < s.len()
        invariant
            i <= s@.len(),
            out@ == lower_seq(s@.take(i as int)),
        decreases s@.len() - i,
    {
        out.push(char_lower(s[i]));
        assert(lower_seq(s@.take(i + 1)) =~= lower_seq(s@.take(i as int)).push(lower(s@[i as int])));
        i += 1;
    }
    assert(s@.take(s@.len() as int) == s@);
    out
}

pub fn upper_chars(s: &[char]) -> (r: Vec<char>)
    ensures
        r@ == upper_seq(s@),
{
    let mut out: Vec<char> = Vec::new();
    let mut i: usize = 0;
    while i < s.len()
        invariant
            i <= s@.len(),
            out@ == upper_seq(s@.take(i as int)),
        decreases s@.len() - i,
    {
        out.push(char_upper(s[i]));
        assert(upper_seq(s@.take(i + 1)) =~= upper_seq(s@.take(i as int)).push(upper(s@[i as int])));
        i += 1;
    }
    assert(s@.take(s@.len() as int) == s@);
    out
}

/// `str::to_ascii_lowercase`.
pub fn to_lower(s: &str) -> (r: String)
    ensures
        r@ == lower_seq(s@),
{
    let cs = chars_of(s);
    let l = lower_chars(&cs);
    string_of(&l)
}

/// `str::to_ascii_uppercase`.
pub fn to_upper(s: &str) -> (r: String)
    ensures
        r@ == upper_seq(s@),
{
    let cs = chars_of(s);
    let u = upper_chars(&cs);
    string_of(&u)
}

pub fn ci_eq_chars(a: &[char], b: &[char]) -> (r: bool)
    ensures
        r == ci_eq(a@, b@),
{
    let x = lower_chars(a);
    let y = lower_chars(b);
    seq_eq(&x, &y)
}

/// `str::eq_ignore_ascii_case`.
pub fn ci_eq_str(a: &str, b: &str) -> (r: bool)
    ensures
        r == ci_eq(a@, b@),
{
    let x = chars_of(a);
    let y = chars_of(b);
    ci_eq_chars(&x, &y)
}

// ---------------------------------------------------------------------------
// Trimming
// ---------------------------------------------------------------------------

/// Drops leading whitespace (`str::trim_start`).
pub open spec fn trim_start(s: Seq<char>) -> Seq<char>
    decreases s.len(),
{
    if s.len() > 0 && is_ws(s[0]) {
        trim_start(s.drop_first())
    } else {
        s
    }
}

/// Drops trailing whitespace (`str::trim_end`).
pub open spec fn trim_end(s: Seq<char>) -> Seq<char>
    decreases s.len(),
{
    if s.len() > 0 && is_ws(s.last()) {
        trim_end(s.drop_last())
    } else {
        s
    }
}

/// `str::trim`.
pub open spec fn trim(s: Seq<char>) -> Seq<char> {
    trim_end(trim_start(s))
}

pub proof fn lemma_trim_start_skip(s: Seq<char>, i: int)
    requires
        0 <= i <= s.len(),
        forall|j: int| 0 <= j < i ==> is_ws(#[trigger] s[j]),
    ensures
        trim_start(s) == trim_start(s.skip(i)),
    decreases i,
{
    if i > 0 {
        assert(s.skip(1) == s.drop_first());
        lemma_trim_start_skip(s.drop_first(), i - 1);
        assert(s.drop_first().skip(i - 1) == s.skip(i));
    } else {
        assert(s.skip(0) == s);
    }
}

pub proof fn lemma_trim_end_take(s: Seq<char>, e: int)
    requires
        0 <= e <= s.len(),
        forall|j: int| e <= j < s.len() ==> is_ws(#[trigger] s[j]),
    ensures
        trim_end(s) == trim_end(s.take(e)),
    decreases s.len() - e,
{
    if e < s.len() {
        lemma_trim_end_take(s.drop_last(), e);
        assert(s.drop_last().take(e) == s.take(e));
    } else {
        assert(s.take(e) == s);
    }
}

/// Start and end character positions of `trim(s)` inside `s`.
pub fn trim_bounds(s: &[char]) -> (r: (usize, usize))
    ensures
        r.0 <= r.1 <= s@.len(),
        s@.subrange(r.0 as int, r.1 as int) == trim(s@),
        trim_start(s@) == s@.skip(r.0 as int),
        forall|j: int| 0 <= j < r.0 ==> is_ws(#[trigger] s@[j]),
{
    let mut i: usize = 0;
    while i < s.len() && char_is_whitespace(s[i])
        invariant
            i <= s@.len(),
            forall|j: int| 0 <= j < i ==> is_ws(#[trigger] s@[j]),
        decreases s@.len() - i,
    {
        i += 1;
    }
    proof {
        lemma_trim_start_skip(s@, i as int);
        let t = s@.skip(i as int);
        if t.len() > 0 {
            assert(t[0] == s@[i as int]);
        }
        assert(trim_start(t) == t);
    }
    let mut e: usize = s.len();
    while e > i && char_is_whitespace(s[e - 1])
        invariant
            i <= e <= s@.len(),
            forall|j: int| e <= j < s@.len() ==> is_ws(#[trigger] s@[j]),
        decreases e,
    {
        e -= 1;
    }
    proof {
        let t = s@.skip(i as int);
        lemma_trim_end_take(t, e - i);
        assert forall|j: int| e - i <= j < t.len() implies is_ws(#[trigger] t[j]) by {
            assert(t[j] == s@[j + i]);
        }
        let u = t.take(e - i);
        assert(u == s@.subrange(i as int, e as int));
        if u.len() > 0 {
            assert(u.last() == s@[e - 1]);
        }
        assert(trim_end(u) == u);
    }
    (i, e)
}

/// `str::trim_start`: drops leading whitespace.
pub fn trim_start_chars(s: &[char]) -> (r: Vec<char>)
    ensures
        r@ == trim_start(s@),
{
    let mut i: usize = 0;
    while i < s.len() && char_is_whitespace(s[i])
        invariant
            i <= s@.len(),
            forall|j: int| 0 <= j < i ==> is_ws(#[trigger] s@[j]),
        decreases s@.len() - i,
    {
        i += 1;
    }
    proof {
        lemma_trim_start_skip(s@, i as int);
        let t = s@.skip(i as int);
        if t.len() > 0 {
            assert(t[0] == s@[i as int]);
        }
        assert(trim_start(t) == t);
        assert(s@.subrange(i as int, s@.len() as int) =~= t);
    }
    slice_vec(s, i, s.len())
}

pub fn trim_chars(s: &[char]) -> (r: Vec<char>)
    ensures
        r@ == trim(s@),
{
    let (a, b) = trim_bounds(s);
    slice_vec(s, a, b)
}

/// `str::trim` producing an owned text.
pub fn trim_str(s: &str) -> (r: String)
    ensures
        r@ == trim(s@),
{
    let cs = chars_of(s);
    let t = trim_chars(&cs);
    string_of(&t)
}

// ---------------------------------------------------------------------------
// Slicing, searching, prefixes
// ---------------------------------------------------------------------------

pub fn slice_vec(s: &[char], a: usize, b: usize) -> (r: Vec<char>)
    requires
        a <= b <= s@.len(),
    ensures
        r@ == s@.subrange(a as int, b as int),
{
    let mut out: Vec<char> = Vec::new();
    let mut i: usize = a;
    while i < b
        invariant
            a <= i <= b <= s@.len(),
            out@ == s@.subrange(a as int, i as int),
        decreases b - i,
    {
        out.push(s[i]);
        assert(s@.subrange(a as int, i + 1) == s@.subrange(a as int, i as int).push(s@[i as int]));
        i += 1;
    }
    out
}

pub fn substring(s: &[char], a: usize, b: usize) -> (r: String)
    requires
        a <= b <= s@.len(),
    ensures
        r@ == s@.subrange(a as int, b as int),
{
    let v = slice_vec(s, a, b);
    string_of(&v)
}

/// Index of the first occurrence of `c` (`str::find` with a character pattern).
pub open spec fn first_index(s: Seq<char>, c: char) -> Option<int> {
    if exists|i: int| 0 <= i < s.len() && s[i] == c {
        Some(choose|i: int| 0 <= i < s.len() && s[i] == c && forall|j: int| 0 <= j < i ==> s[j] != c)
    } else {
        None
    }
}

pub fn find_char(s: &[char], c: char) -> (r: Option<usize>)
    ensures
        match r {
            Some(i) => i < s@.len() && s@[i as int] == c && forall|j: int| 0 <= j < i ==> s@[j] != c,
            None => forall|j: int| 0 <= j < s@.len() ==> s@[j] != c,
        },
        r matches Some(i) ==> first_index(s@, c) == Some(i as int),
        r is None ==> first_index(s@, c) is None,
{
    let mut i: usize = 0;
    while i < s.len()
        invariant
            i <= s@.len(),
            forall|j: int| 0 <= j < i ==> s@[j] != c,
        decreases s@.len() - i,
    {
        if s[i] == c {
            proof {
                let k = i as int;
                assert(0 <= k < s@.len() && s@[k] == c && forall|j: int| 0 <= j < k ==> s@[j] != c);
                let w = choose|w: int|
                    0 <= w < s@.len() && s@[w] == c && forall|j: int| 0 <= j < w ==> s@[j] != c;
                if w < k {
                } else if w > k {
                    assert(s@[k] != c);
                }
            }
            return Some(i);
        }
        i += 1;
    }
    None
}

/// Index of the last occurrence of `c` (`str::rfind`).
pub fn rfind_char(s: &[char], c: char) -> (r: Option<usize>)
    ensures
        match r {
            Some(i) => i < s@.len() && s@[i as int] == c && forall|j: int| i < j < s@.len() ==> s@[j] != c,
            None => forall|j: int| 0 <= j < s@.len() ==> s@[j] != c,
        },
{
    let mut i: usize = s.len();
    while i > 0
        invariant
            i <= s@.len(),
            forall|j: int| i <= j < s@.len() ==> s@[j] != c,
        decreases i,
    {
        if s[i - 1] == c {
            return Some(i - 1);
        }
        i -= 1;
    }
    None
}

pub fn contains_char(s: &[char], c: char) -> (r: bool)
    ensures
        r == s@.contains(c),
{
    match find_char(s, c) {
        Some(i) => {
            assert(s@[i as int] == c);
            true
        },
        None => false,
    }
}

pub open spec fn has_prefix(s: Seq<char>, p: Seq<char>) -> bool {
    p.len() <= s.len() && s.take(p.len() as int) == p
}

pub open spec fn has_suffix(s: Seq<char>, p: Seq<char>) -> bool {
    p.len() <= s.len() && s.skip(s.len() - p.len()) == p
}

pub fn starts_with(s: &[char], p: &[char]) -> (r: bool)
    ensures
        r == has_prefix(s@, p@),
{
    if p.len() > s.len() {
        return false;
    }
    let mut i: usize = 0;
    while i < p.len()
        invariant
            i <= p@.len() <= s@.len(),
            forall|j: int| 0 <= j < i ==> s@[j] == p@[j],
        decreases p@.len() - i,
    {
        if s[i] != p[i] {
            assert(s@.take(p@.len() as int)[i as int] != p@[i as int]);
            return false;
        }
        i += 1;
    }
    assert(s@.take(p@.len() as int) =~= p@);
    true
}

pub fn starts_with_str(s: &[char], p: &str) -> (r: bool)
    ensures
        r == has_prefix(s@, p@),
{
    let pc = chars_of(p);
    starts_with(s, &pc)
}

pub fn ends_with(s: &[char], p: &[char]) -> (r: bool)
    ensures
        r == has_suffix(s@, p@),
{
    if p.len() > s.len() {
        return false;
    }
    let off = s.len() - p.len();
    let mut i: usize = 0;
    while i < p.len()
        invariant
            i <= p@.len() <= s@.len(),
            off == s@.len() - p@.len(),
            off + p@.len() == s@.len(),
            s@.len() == s.len(),
            forall|j: int| 0 <= j < i ==> s@[off + j] == p@[j],
        decreases p@.len() - i,
    {
        if s[off + i] != p[i] {
            assert(s@.skip(off as int)[i as int] != p@[i as int]);
            return false;
        }
        i += 1;
    }
    assert(s@.skip(off as int) =~= p@);
    true
}

pub fn ends_with_str(s: &[char], p: &str) -> (r: bool)
    ensures
        r == has_suffix(s@, p@),
{
    let pc = chars_of(p);
    ends_with(s, &pc)
}

/// Case-insensitive prefix test: the first `p.len()` characters equal `p` ignoring ASCII case.
pub fn ci_starts_with(s: &[char], p: &[char]) -> (r: bool)
    ensures
        r == (p@.len() <= s@.len() && ci_eq(s@.take(p@.len() as int), p@)),
{
    if p.len() > s.len() {
        return false;
    }
    let head = slice_vec(s, 0, p.len());
    assert(head@ == s@.take(p@.len() as int));
    ci_eq_chars(&head, p)
}

/// Whether `needle` occurs at position `i` of `s`.
pub open spec fn occurs_at(s: Seq<char>, needle: Seq<char>, i: int) -> bool {
    0 <= i && i + needle.len() <= s.len() && s.subrange(i, i + needle.len()) == needle
}

pub open spec fn contains_seq(s: Seq<char>, needle: Seq<char>) -> bool {
    exists|i: int| occurs_at(s, needle, i)
}

pub fn matches_at(s: &[char], needle: &[char], i: usize) -> (r: bool)
    requires
        i <= s@.len(),
    ensures
        r == occurs_at(s@, needle@, i as int),
{
    if needle.len() > s.len() - i {
        return false;
    }
    let mut j: usize = 0;
    while j < needle.len()
        invariant
            j <= needle@.len(),
            i + needle@.len() <= s@.len(),
            s@.len() == s.len(),
            forall|k: int| 0 <= k < j ==> s@[i + k] == needle@[k],
        decreases needle@.len() - j,
    {
        if s[i + j] != needle[j] {
            assert(s@.subrange(i as int, i + needle@.len())[j as int] != needle@[j as int]);
            return false;
        }
        j += 1;
    }
    assert(s@.subrange(i as int, i + needle@.len()) =~= needle@);
    true
}

/// First position at which `needle` occurs (`str::find` with a text pattern).
pub fn find_seq(s: &[char], needle: &[char]) -> (r: Option<usize>)
    ensures
        match r {
            Some(i) => occurs_at(s@, needle@, i as int) && forall|j: int| 0 <= j < i ==> !occurs_at(s@, needle@, j),
            None => !contains_seq(s@, needle@),
        },
{
    let mut i: usize = 0;
    while i < s.len()
        invariant
            i <= s@.len(),
            forall|j: int| 0 <= j < i ==> !occurs_at(s@, needle@, j),
        decreases s@.len() - i,
    {
        if matches_at(s, needle, i) {
            return Some(i);
        }
        i += 1;
    }
    if matches_at(s, needle, i) {
        return Some(i);
    }
    proof {
        assert forall|j: int| !occurs_at(s@, needle@, j) by {
            if 0 <= j <= i {
            }
        }
    }
    None
}

pub fn contains_str(s: &[char], needle: &str) -> (r: bool)
    ensures
        r == contains_seq(s@, needle@),
{
    let n = chars_of(needle);
    match find_seq(s, &n) {
        Some(_) => true,
        None => false,
    }
}

/// Every character of `s` satisfies `p`.
pub open spec fn all_chars(s: Seq<char>, p: spec_fn(char) -> bool) -> bool {
    forall|i: int| 0 <= i < s.len() ==> p(#[trigger] s[i])
}

/// Some character of `s` is whitespace.
pub fn any_whitespace(s: &[char]) -> (r: bool)
    ensures
        r == exists|i: int| 0 <= i < s@.len() && is_ws(s@[i]),
{
    let mut i: usize = 0;
    while i < s.len()
        invariant
            i <= s@.len(),
            forall|j: int| 0 <= j < i ==> !is_ws(s@[j]),
        decreases s@.len() - i,
    {
        if char_is_whitespace(s[i]) {
            return true;
        }
        i += 1;
    }
    false
}

/// Some character of `s` is a control character.
pub fn any_control(s: &[char]) -> (r: bool)
    ensures
        r == exists|i: int| 0 <= i < s@.len() && is_ctrl(s@[i]),
{
    let mut i: usize = 0;
    while i < s.len()
        invariant
            i <= s@.len(),
            forall|j: int| 0 <= j < i ==> !is_ctrl(s@[j]),
        decreases s@.len() - i,
    {
        if char_is_control(s[i]) {
            return true;
        }
        i += 1;
    }
    false
}

} // verus!

verus! {

// ---------------------------------------------------------------------------
// Per-character rewriting and joining
// ---------------------------------------------------------------------------

/// Concatenation of `f(c)` over the characters `c` of `s`, in order.
pub open spec fn flat_map(s: Seq<char>, f: spec_fn(char) -> Seq<char>) -> Seq<char>
    decreases s.len(),
{
    if s.len() == 0 {
        seq![]
    } else {
        flat_map(s.drop_last(), f) + f(s.last())
    }
}

pub proof fn lemma_flat_map_step(s: Seq<char>, f: spec_fn(char) -> Seq<char>, i: int)
    requires
        0 <= i < s.len(),
    ensures
        flat_map(s.take(i + 1), f) == flat_map(s.take(i), f) + f(s[i]),
{
    assert(s.take(i + 1).drop_last() == s.take(i));
}

pub proof fn lemma_flat_map_all(s: Seq<char>, f: spec_fn(char) -> Seq<char>)
    ensures
        flat_map(s.take(s.len() as int), f) == flat_map(s, f),
{
    assert(s.take(s.len() as int) == s);
}

/// Every occurrence of `c` replaced by `r` (`str::replace` with a character pattern).
pub open spec fn replace_char(s: Seq<char>, c: char, r: Seq<char>) -> Seq<char> {
    flat_map(s, repl_fn(c, r))
}

pub open spec fn repl_fn(c: char, r: Seq<char>) -> spec_fn(char) -> Seq<char> {
    |x: char| if x == c { r } else { seq![x] }
}

pub fn replace_char_exec(s: &[char], c: char, r: &str) -> (out: String)
    ensures
        out@ == replace_char(s@, c, r@),
{
    let ghost f = repl_fn(c, r@);
    let mut out = String::new();
    let mut i: usize = 0;
    while i < s.len()
        invariant
            i <= s@.len(),
            f == repl_fn(c, r@),
            out@ == flat_map(s@.take(i as int), f),
        decreases s@.len() - i,
    {
        proof {
            lemma_flat_map_step(s@, f, i as int);
        }
        if s[i] == c {
            append_str(&mut out, r);
        } else {
            push_char(&mut out, s[i]);
            assert(seq![s@[i as int]] == f(s@[i as int]));
        }
        i += 1;
    }
    proof {
        lemma_flat_map_all(s@, f);
    }
    out
}

/// `parts` joined with `sep` between consecutive elements (`[T]::join`).
pub open spec fn join(parts: Seq<Seq<char>>, sep: Seq<char>) -> Seq<char>
    decreases parts.len(),
{
    if parts.len() == 0 {
        seq![]
    } else if parts.len() == 1 {
        parts[0]
    } else {
        join(parts.drop_last(), sep) + sep + parts.last()
    }
}

/// The character views of a sequence of strings.
pub open spec fn views(v: Seq<String>) -> Seq<Seq<char>> {
    v.map_values(|s: String| s@)
}

pub proof fn lemma_views_take(v: Seq<String>, i: int)
    requires
        0 <= i < v.len(),
    ensures
        views(v.take(i + 1)) == views(v.take(i)).push(v[i]@),
        views(v.take(i + 1)).drop_last() == views(v.take(i)),
{
    assert(views(v.take(i + 1)) =~= views(v.take(i)).push(v[i]@));
}

pub fn join_strings(parts: &Vec<String>, sep: &str) -> (r: String)
    ensures
        r@ == join(views(parts@), sep@),
{
    let mut out = String::new();
    let mut i: usize = 0;
    while i < parts.len()
        invariant
            i <= parts@.len(),
            out@ == join(views(parts@.take(i as int)), sep@),
        decreases parts@.len() - i,
    {
        proof {
            lemma_views_take(parts@, i as int);
        }
        if i > 0 {
            append_str(&mut out, sep);
        } else {
            assert(views(parts@.take(1)).len() == 1);
        }
        append_str(&mut out, parts[i].as_str());
        i += 1;
    }
    assert(parts@.take(parts@.len() as int) == parts@);
    out
}

/// `n` copies of a backslash.
pub open spec fn backslashes(n: nat) -> Seq<char> {
    Seq::new(n, |i: int| '\\')
}

pub fn push_backslashes(s: &mut String, n: usize)
    ensures
        final(s)@ == old(s)@ + backslashes(n as nat),
{
    let mut i: usize = 0;
    let ghost start = s@;
    while i < n
        invariant
            i <= n,
            s@ == start + backslashes(i as nat),
        decreases n - i,
    {
        push_char(s, '\\');
        assert(backslashes((i + 1) as nat) == backslashes(i as nat).push('\\'));
        i += 1;
    }
}

} // verus!

verus! {

// ---------------------------------------------------------------------------
// Decimal rendering
// ---------------------------------------------------------------------------

pub open spec fn digit_char(d: nat) -> char {
    ((d % 10) + 48) as char
}

/// Decimal digits of `n` without leading zeros (`u64::to_string`).
pub open spec fn decimal(n: nat) -> Seq<char>
    decreases n,
{
    if n < 10 {
        seq![digit_char(n)]
    } else {
        decimal(n / 10).push(digit_char(n % 10))
    }
}

pub fn push_decimal(out: &mut String, n: u64)
    ensures
        final(out)@ == old(out)@ + decimal(n as nat),
    decreases n,
{
    if n >= 10 {
        push_decimal(out, n / 10);
    }
    let d: u8 = (n % 10) as u8;
    let c: char = (d + 48) as char;
    assert(c == digit_char(n as nat)) by {
        assert((n % 10) % 10 == n % 10);
    }
    push_char(out, c);
}

/// Decimal text of an unsigned integer.
pub fn decimal_text(n: u64) -> (r: String)
    ensures
        r@ == decimal(n as nat),
{
    let mut out = String::new();
    push_decimal(&mut out, n);
    out
}

/// Decimal text of a signed integer, with a leading `-` when negative.
pub open spec fn signed_decimal(n: int) -> Seq<char> {
    if n < 0 {
        seq!['-'] + decimal((-n) as nat)
    } else {
        decimal(n as nat)
    }
}

pub fn signed_decimal_text(n: i64) -> (r: String)
    ensures
        r@ == signed_decimal(n as int),
{
    let mut out = String::new();
    if n < 0 {
        push_char(&mut out, '-');
        let m: u64 = if n == i64::MIN {
            9223372036854775808u64
        } else {
            (-n) as u64
        };
        push_decimal(&mut out, m);
    } else {
        push_decimal(&mut out, n as u64);
    }
    out
}

/// Owned copies of text slices, in order.
pub fn strings(parts: &[&str]) -> (r: Vec<String>)
    ensures
        views(r@) == parts@.map_values(|p: &str| p@),
{
    let mut out: Vec<String> = Vec::new();
    let mut i: usize = 0;
    while i < parts.len()
        invariant
            i <= parts@.len(),
            views(out@) == parts@.take(i as int).map_values(|p: &str| p@),
        decreases parts@.len() - i,
    {
        let ghost before = out@;
        out.push(lit(parts[i]));
        assert(views(out@) =~= views(before).push(parts@[i as int]@));
        assert(parts@.take(i + 1).map_values(|p: &str| p@) =~= parts@.take(i as int).map_values(
            |p: &str| p@,
        ).push(parts@[i as int]@));
        i += 1;
    }
    assert(parts@.take(parts@.len() as int) == parts@);
    out
}

pub fn clone_strings(v: &Vec<String>) -> (r: Vec<String>)
    ensures
        views(r@) == views(v@),
{
    let mut out: Vec<String> = Vec::new();
    let mut i: usize = 0;
    while i < v.len()
        invariant
            i <= v@.len(),
            views(out@) == views(v@.take(i as int)),
        decreases v@.len() - i,
    {
        let ghost before = out@;
        out.push(v[i].clone());
        proof {
            lemma_views_take(v@, i as int);
            assert(views(out@) =~= views(before).push(v@[i as int]@));
        }
        i += 1;
    }
    assert(v@.take(v@.len() as int) == v@);
    out
}

} // verus!

verus! {

// ---------------------------------------------------------------------------
// Splitting into pieces and lines
// ---------------------------------------------------------------------------

/// The pieces of `s` between occurrences of `c` (`str::split` with a character pattern).
/// There is always at least one piece.
pub open spec fn split_char(s: Seq<char>, c: char) -> Seq<Seq<char>>
    decreases s.len(),
{
    if s.len() == 0 {
        seq![seq![]]
    } else {
        let p = split_char(s.drop_last(), c);
        if s.last() == c {
            p.push(seq![])
        } else {
            p.update(p.len() - 1, p.last().push(s.last()))
        }
    }
}

pub proof fn lemma_split_nonempty(s: Seq<char>, c: char)
    ensures
        split_char(s, c).len() >= 1,
    decreases s.len(),
{
    if s.len() > 0 {
        lemma_split_nonempty(s.drop_last(), c);
    }
}

/// Drops one trailing carriage return.
pub open spec fn strip_cr(line: Seq<char>) -> Seq<char> {
    if line.len() > 0 && line.last() == '\r' {
        line.drop_last()
    } else {
        line
    }
}

/// `str::lines`: pieces between `\n`, each piece that a `\n` ends without one trailing `\r`
/// (a lone `\r` at the very end stays), and no final empty piece after a terminating newline.
pub open spec fn lines(s: Seq<char>) -> Seq<Seq<char>> {
    if s.len() == 0 {
        seq![]
    } else {
        let p = split_char(s, '\n');
        if s.last() == '\n' {
            p.drop_last().map_values(|l: Seq<char>| strip_cr(l))
        } else {
            p.drop_last().map_values(|l: Seq<char>| strip_cr(l)).push(p.last())
        }
    }
}

/// The pieces of `s` between occurrences of `c`.
pub fn split_on(s: &[char], c: char) -> (r: Vec<Vec<char>>)
    ensures
        r@.map_values(|v: Vec<char>| v@) == split_char(s@, c),
{
    let mut pieces: Vec<Vec<char>> = Vec::new();
    let mut cur: Vec<char> = Vec::new();
    let mut i: usize = 0;
    while i < s.len()
        invariant
            i <= s@.len(),
            pieces@.map_values(|v: Vec<char>| v@).push(cur@) == split_char(s@.take(i as int), c),
        decreases s@.len() - i,
    {
        let ghost prev = pieces@.map_values(|v: Vec<char>| v@).push(cur@);
        proof {
            assert(s@.take(i + 1).drop_last() == s@.take(i as int));
            lemma_split_nonempty(s@.take(i as int), c);
        }
        if s[i] == c {
            let done = cur;
            pieces.push(done);
            cur = Vec::new();
            assert(pieces@.map_values(|v: Vec<char>| v@).push(cur@) =~= prev.push(seq![]));
        } else {
            cur.push(s[i]);
            assert(pieces@.map_values(|v: Vec<char>| v@).push(cur@) =~= prev.update(
                prev.len() - 1,
                prev.last().push(s@[i as int]),
            ));
        }
        i += 1;
    }
    assert(s@.take(s@.len() as int) == s@);
    pieces.push(cur);
    pieces
}

/// `str::lines`, as character vectors.
pub fn lines_of(s: &[char]) -> (r: Vec<Vec<char>>)
    ensures
        r@.map_values(|v: Vec<char>| v@) == lines(s@),
{
    if s.len() == 0 {
        let r: Vec<Vec<char>> = Vec::new();
        assert(r@.map_values(|v: Vec<char>| v@) =~= lines(s@));
        return r;
    }
    let mut pieces = split_on(s, '\n');
    proof {
        lemma_split_nonempty(s@, '\n');
    }
    let ghost p = split_char(s@, '\n');
    let last = pieces.pop();
    let ghost q = pieces@.map_values(|v: Vec<char>| v@);
    assert(q =~= p.drop_last());
    let mut out: Vec<Vec<char>> = Vec::new();
    let mut i: usize = 0;
    while i < pieces.len()
        invariant
            i <= pieces@.len(),
            q == pieces@.map_values(|v: Vec<char>| v@),
            out@.map_values(|v: Vec<char>| v@) == q.take(i as int).map_values(|l: Seq<char>| strip_cr(l)),
        decreases pieces@.len() - i,
    {
        let line = &pieces[i];
        let stripped = if line.len() > 0 && line[line.len() - 1] == '\r' {
            slice_vec(line, 0, line.len() - 1)
        } else {
            slice_vec(line, 0, line.len())
        };
        assert(line@.take(line@.len() - 1) == line@.drop_last());
        assert(line@.subrange(0, line@.len() as int) == line@);
        assert(q[i as int] == line@);
        assert(stripped@ == strip_cr(line@));
        let ghost before = out@;
        out.push(stripped);
        assert(out@.map_values(|v: Vec<char>| v@) =~= before.map_values(|v: Vec<char>| v@).push(strip_cr(q[i as int])));
        assert(q.take(i + 1).map_values(|l: Seq<char>| strip_cr(l)) =~= q.take(i as int).map_values(|l: Seq<char>| strip_cr(l)).push(strip_cr(q[i as int])));
        assert(out@.map_values(|v: Vec<char>| v@) =~= q.take(i + 1).map_values(|l: Seq<char>| strip_cr(l)));
        i += 1;
    }
    assert(q.take(q.len() as int) == q);
    if s[s.len() - 1] != '\n' {
        match last {
            Some(l) => {
                let ghost before = out@;
                out.push(l);
                assert(out@.map_values(|v: Vec<char>| v@) =~= before.map_values(|v: Vec<char>| v@).push(p.last()));
            },
            None => {},
        }
    }
    out
}

/// First `Some` in a sequence of options.
pub open spec fn first_some<T>(s: Seq<Option<T>>) -> Option<T>
    decreases s.len(),
{
    if s.len() == 0 {
        None
    } else if s[0] is Some {
        s[0]
    } else {
        first_some(s.drop_first())
    }
}

pub proof fn lemma_first_some_take<T>(s: Seq<Option<T>>, i: int)
    requires
        0 <= i < s.len(),
        first_some(s.take(i)) is None,
    ensures
        first_some(s.take(i + 1)) == s[i],
    decreases i,
{
    if i == 0 {
        assert(s.take(1).drop_first().len() == 0);
        assert(first_some(s.take(1).drop_first()) is None);
        assert(s.take(1)[0] == s[0]);
    } else {
        assert(s.take(i + 1)[0] == s[0]);
        assert(s.take(i)[0] == s[0]);
        assert(s.take(i + 1).drop_first() == s.drop_first().take(i));
        assert(s.take(i).drop_first() == s.drop_first().take(i - 1));
        assert(s[0] is None);
        assert(first_some(s.drop_first().take(i - 1)) is None);
        lemma_first_some_take(s.drop_first(), i - 1);
        assert(s.drop_first()[i - 1] == s[i]);
    }
}

pub proof fn lemma_first_some_none_take<T>(s: Seq<Option<T>>, i: int)
    requires
        0 <= i < s.len(),
        first_some(s.take(i)) is None,
        s[i] is None,
    ensures
        first_some(s.take(i + 1)) is None,
{
    lemma_first_some_take(s, i);
}

/// `str::split_once` with a character separator: the text before and after the first `c`.
pub open spec fn split_once(s: Seq<char>, c: char) -> Option<(Seq<char>, Seq<char>)> {
    match first_index(s, c) {
        Some(i) => Some((s.take(i), s.skip(i + 1))),
        None => None,
    }
}

pub fn split_once_exec(s: &[char], c: char) -> (r: Option<(Vec<char>, Vec<char>)>)
    ensures
        match (r, split_once(s@, c)) {
            (Some((a, b)), Some((x, y))) => a@ == x && b@ == y,
            (None, None) => true,
            _ => false,
        },
{
    match find_char(s, c) {
        Some(i) => {
            assert(s@.len() == s.len());
            let a = slice_vec(s, 0, i);
            let b = slice_vec(s, i + 1, s.len());
            assert(a@ == s@.take(i as int));
            assert(b@ == s@.skip(i + 1));
            Some((a, b))
        },
        None => None,
    }
}

} // verus!

verus! {

// ---------------------------------------------------------------------------
// Integer parsing (the documented grammar of `FromStr` for integer types)
// ---------------------------------------------------------------------------

pub open spec fn all_digits(s: Seq<char>) -> bool {
    forall|i: int| 0 <= i < s.len() ==> is_digit(#[trigger] s[i])
}

/// Value of a sequence of decimal digits.
pub open spec fn digits_value(s: Seq<char>) -> nat
    decreases s.len(),
{
    if s.len() == 0 {
        0
    } else {
        digits_value(s.drop_last()) * 10 + ((s.last() as nat) - 48) as nat
    }
}

/// An optional `+` followed by one or more decimal digits, and its value.
pub open spec fn unsigned_text(s: Seq<char>) -> Option<nat> {
    let d = if s.len() > 0 && s[0] == '+' {
        s.drop_first()
    } else {
        s
    };
    if d.len() > 0 && all_digits(d) {
        Some(digits_value(d))
    } else {
        None
    }
}

/// An optional `+` or `-` followed by one or more decimal digits, and its value.
pub open spec fn signed_text(s: Seq<char>) -> Option<int> {
    if s.len() > 0 && s[0] == '-' {
        let d = s.drop_first();
        if d.len() > 0 && all_digits(d) {
            Some(-(digits_value(d) as int))
        } else {
            None
        }
    } else {
        match unsigned_text(s) {
            Some(n) => Some(n as int),
            None => None,
        }
    }
}

/// What `str::parse` yields for an unsigned integer type whose maximum is `max`.
pub open spec fn parse_unsigned_spec(s: Seq<char>, max: nat) -> Option<nat> {
    match unsigned_text(s) {
        Some(n) => if n <= max {
            Some(n)
        } else {
            None
        },
        None => None,
    }
}

/// What `str::parse` yields for a signed integer type with range `min..=max`.
pub open spec fn parse_signed_spec(s: Seq<char>, min: int, max: int) -> Option<int> {
    match signed_text(s) {
        Some(n) => if min <= n <= max {
            Some(n)
        } else {
            None
        },
        None => None,
    }
}

proof fn lemma_digits_grow(s: Seq<char>, i: int, j: int)
    requires
        0 <= i <= j <= s.len(),
        all_digits(s),
    ensures
        digits_value(s.take(i)) <= digits_value(s.take(j)),
    decreases j - i,
{
    if i < j {
        lemma_digits_grow(s, i, j - 1);
        assert(s.take(j).drop_last() == s.take(j - 1));
    }
}

/// Value of the digit string `d`, or `None` when it exceeds `max`.
fn digits_upto(d: &[char], max: u64) -> (r: Option<u64>)
    requires
        all_digits(d@),
    ensures
        match r {
            Some(v) => v == digits_value(d@) && v <= max,
            None => digits_value(d@) > max,
        },
{
    let mut v: u64 = 0;
    let mut i: usize = 0;
    while i < d.len()
        invariant
            i <= d@.len(),
            all_digits(d@),
            v == digits_value(d@.take(i as int)),
            v <= max,
        decreases d@.len() - i,
    {
        assert(d@.take(i + 1).drop_last() == d@.take(i as int));
        assert(is_digit(d@[i as int]));
        let digit: u64 = ((d[i] as u32) - 48) as u64;
        let wide: u128 = (v as u128) * 10 + (digit as u128);
        if wide > max as u128 {
            proof {
                lemma_digits_grow(d@, i + 1, d@.len() as int);
                assert(d@.take(d@.len() as int) == d@);
            }
            return None;
        }
        v = wide as u64;
        i += 1;
    }
    assert(d@.take(d@.len() as int) == d@);
    Some(v)
}

fn check_digits(d: &[char]) -> (r: bool)
    ensures
        r == all_digits(d@),
{
    let mut i: usize = 0;
    while i < d.len()
        invariant
            i <= d@.len(),
            forall|j: int| 0 <= j < i ==> is_digit(#[trigger] d@[j]),
        decreases d@.len() - i,
    {
        if !char_is_digit(d[i]) {
            return false;
        }
        i += 1;
    }
    true
}

/// `str::parse` into an unsigned integer type whose maximum is `max`.
pub fn parse_unsigned(s: &[char], max: u64) -> (r: Option<u64>)
    ensures
        match (r, parse_unsigned_spec(s@, max as nat)) {
            (Some(v), Some(n)) => v == n,
            (None, None) => true,
            _ => false,
        },
{
    let d = if s.len() > 0 && s[0] == '+' {
        slice_vec(s, 1, s.len())
    } else {
        slice_vec(s, 0, s.len())
    };
    assert(s@.subrange(0, s@.len() as int) == s@);
    assert(s@.len() > 0 ==> s@.subrange(1, s@.len() as int) == s@.drop_first());
    if d.len() == 0 || !check_digits(&d) {
        return None;
    }
    digits_upto(&d, max)
}

/// `str::parse::<u16>`.
pub fn parse_u16(s: &str) -> (r: Option<u16>)
    ensures
        match (r, parse_unsigned_spec(s@, 0xffff)) {
            (Some(v), Some(n)) => v == n,
            (None, None) => true,
            _ => false,
        },
{
    let cs = chars_of(s);
    match parse_unsigned(&cs, 0xffff) {
        Some(v) => Some(v as u16),
        None => None,
    }
}

/// `str::parse` into a signed integer type with range `-min_magnitude..=max`.
pub fn parse_signed(s: &[char], min_magnitude: u64, max: u64) -> (r: Option<i128>)
    ensures
        match (r, parse_signed_spec(s@, -(min_magnitude as int), max as int)) {
            (Some(v), Some(n)) => v == n,
            (None, None) => true,
            _ => false,
        },
{
    if s.len() > 0 && s[0] == '-' {
        let d = slice_vec(s, 1, s.len());
        assert(d@ == s@.drop_first());
        if d.len() == 0 || !check_digits(&d) {
            return None;
        }
        match digits_upto(&d, min_magnitude) {
            Some(v) => Some(-(v as i128)),
            None => None,
        }
    } else {
        match parse_unsigned(s, max) {
            Some(v) => Some(v as i128),
            None => None,
        }
    }
}


// ---------------------------------------------------------------------------
// UTF-8 byte lengths
// ---------------------------------------------------------------------------

/// Number of bytes in the UTF-8 encoding of `c`.
pub open spec fn char_width(c: char) -> nat {
    let v = c as u32;
    if v < 0x80 {
        1
    } else if v < 0x800 {
        2
    } else if v < 0x10000 {
        3
    } else {
        4
    }
}

/// Number of bytes in the UTF-8 encoding of `s` (`str::len`).
pub open spec fn utf8_len(s: Seq<char>) -> nat
    decreases s.len(),
{
    if s.len() == 0 {
        0
    } else {
        char_width(s[0]) + utf8_len(s.drop_first())
    }
}

pub proof fn lemma_utf8_len_encode(s: Seq<char>)
    ensures
        utf8_len(s) == vstd::utf8::encode_utf8(s).len(),
    decreases s.len(),
{
    if s.len() > 0 {
        vstd::utf8::char_is_scalar(s[0]);
        lemma_utf8_len_encode(s.drop_first());
    }
}

pub proof fn lemma_utf8_len_push(s: Seq<char>, c: char)
    ensures
        utf8_len(s.push(c)) == utf8_len(s) + char_width(c),
    decreases s.len(),
{
    if s.len() == 0 {
        assert(s.push(c).drop_first() == s);
    } else {
        assert(s.push(c).drop_first() == s.drop_first().push(c));
        lemma_utf8_len_push(s.drop_first(), c);
    }
}

pub proof fn lemma_utf8_len_take(s: Seq<char>, i: int)
    requires
        0 <= i < s.len(),
    ensures
        utf8_len(s.take(i + 1)) == utf8_len(s.take(i)) + char_width(s[i]),
{
    assert(s.take(i + 1) == s.take(i).push(s[i]));
    lemma_utf8_len_push(s.take(i), s[i]);
}

pub proof fn lemma_utf8_len_prefix(s: Seq<char>, i: int)
    requires
        0 <= i <= s.len(),
    ensures
        utf8_len(s.take(i)) <= utf8_len(s),
    decreases s.len() - i,
{
    if i < s.len() {
        lemma_utf8_len_take(s, i);
        lemma_utf8_len_prefix(s, i + 1);
    } else {
        assert(s.take(i) == s);
    }
}

pub proof fn lemma_utf8_len_concat(a: Seq<char>, b: Seq<char>)
    ensures
        utf8_len(a + b) == utf8_len(a) + utf8_len(b),
    decreases b.len(),
{
    if b.len() == 0 {
        assert(a + b == a);
    } else {
        lemma_utf8_len_concat(a, b.drop_last());
        assert(a + b == (a + b.drop_last()).push(b.last()));
        assert(b == b.drop_last().push(b.last()));
        lemma_utf8_len_push(a + b.drop_last(), b.last());
        lemma_utf8_len_push(b.drop_last(), b.last());
    }
}

/// Prefix byte lengths grow with the prefix.
pub proof fn lemma_utf8_len_prefix_mono(s: Seq<char>, i: int, j: int)
    requires
        0 <= i <= j <= s.len(),
    ensures
        utf8_len(s.take(i)) + (j - i) <= utf8_len(s.take(j)),
    decreases j - i,
{
    if i < j {
        lemma_utf8_len_prefix_mono(s, i, j - 1);
        lemma_utf8_len_take(s, j - 1);
    }
}

pub fn char_utf8_width(c: char) -> (r: usize)
    ensures
        r == char_width(c),
{
    let v = c as u32;
    if v < 0x80 {
        1
    } else if v < 0x800 {
        2
    } else if v < 0x10000 {
        3
    } else {
        4
    }
}

/// `str::len`: the UTF-8 byte length of a text.
pub fn utf8_byte_len(s: &str) -> (r: usize)
    ensures
        r == utf8_len(s@),
{
    let b = s.as_bytes();
    proof {
        lemma_utf8_len_encode(s@);
    }
    b.len()
}

// ---------------------------------------------------------------------------
// Whitespace-separated words and hexadecimal numbers
// ---------------------------------------------------------------------------

/// Words finished within the first `n` characters of `s`, and the word still being read.
pub open spec fn words_run(s: Seq<char>, n: int) -> (Seq<Seq<char>>, Seq<char>)
    decreases n,
{
    if n <= 0 {
        (Seq::empty(), Seq::empty())
    } else {
        let (done, cur) = words_run(s, n - 1);
        if is_ws(s[n - 1]) {
            if cur.len() > 0 {
                (done.push(cur), Seq::empty())
            } else {
                (done, cur)
            }
        } else {
            (done, cur.push(s[n - 1]))
        }
    }
}

/// `str::split_whitespace`: the maximal runs of non-whitespace characters.
pub open spec fn words(s: Seq<char>) -> Seq<Seq<char>> {
    let (done, cur) = words_run(s, s.len() as int);
    if cur.len() > 0 {
        done.push(cur)
    } else {
        done
    }
}

/// `str::split_whitespace`, as character vectors.
pub fn words_of(s: &[char]) -> (r: Vec<Vec<char>>)
    ensures
        r@.map_values(|v: Vec<char>| v@) == words(s@),
{
    let mut done: Vec<Vec<char>> = Vec::new();
    let mut cur: Vec<char> = Vec::new();
    let mut i: usize = 0;
    while i < s.len()
        invariant
            i <= s@.len(),
            done@.map_values(|v: Vec<char>| v@) == words_run(s@, i as int).0,
            cur@ == words_run(s@, i as int).1,
        decreases s@.len() - i,
    {
        let ghost before = done@.map_values(|v: Vec<char>| v@);
        if char_is_whitespace(s[i]) {
            if cur.len() > 0 {
                let ghost w = cur@;
                done.push(cur);
                cur = Vec::new();
                assert(done@.map_values(|v: Vec<char>| v@) =~= before.push(w));
            }
        } else {
            cur.push(s[i]);
        }
        i += 1;
    }
    if cur.len() > 0 {
        let ghost before = done@.map_values(|v: Vec<char>| v@);
        let ghost w = cur@;
        done.push(cur);
        assert(done@.map_values(|v: Vec<char>| v@) =~= before.push(w));
    }
    done
}

/// Every character is a hexadecimal digit.
pub open spec fn all_hex(d: Seq<char>) -> bool {
    forall|i: int| 0 <= i < d.len() ==> #[trigger] is_hex(d[i])
}

/// The value of one hexadecimal digit.
pub open spec fn hex_digit_value(c: char) -> nat {
    if is_digit(c) {
        ((c as nat) - 48) as nat
    } else if 'a' <= c && c <= 'f' {
        ((c as nat) - 87) as nat
    } else {
        ((c as nat) - 55) as nat
    }
}

/// Value of a sequence of hexadecimal digits.
pub open spec fn hex_value(s: Seq<char>) -> nat
    decreases s.len(),
{
    if s.len() == 0 {
        0
    } else {
        hex_value(s.drop_last()) * 16 + hex_digit_value(s.last())
    }
}

/// What `u16::from_str_radix(s, 16)` yields: an optional `+` then one or more hexadecimal
/// digits whose value fits 16 bits.
pub open spec fn parse_hex_u16_spec(s: Seq<char>) -> Option<nat> {
    let d = if s.len() > 0 && s[0] == '+' {
        s.drop_first()
    } else {
        s
    };
    if d.len() > 0 && all_hex(d) && hex_value(d) <= 0xffff {
        Some(hex_value(d))
    } else {
        None
    }
}

proof fn lemma_hex_grows(s: Seq<char>, i: int, j: int)
    requires
        0 <= i <= j <= s.len(),
    ensures
        hex_value(s.take(i)) <= hex_value(s.take(j)),
    decreases j - i,
{
    if i < j {
        lemma_hex_grows(s, i, j - 1);
        assert(s.take(j).drop_last() == s.take(j - 1));
    }
}

/// `u16::from_str_radix(s, 16)`.
pub fn parse_hex_u16(s: &[char]) -> (r: Option<u16>)
    ensures
        match (r, parse_hex_u16_spec(s@)) {
            (Some(v), Some(n)) => v == n,
            (None, None) => true,
            _ => false,
        },
{
    let d = if s.len() > 0 && s[0] == '+' {
        slice_vec(s, 1, s.len())
    } else {
        slice_vec(s, 0, s.len())
    };
    assert(s@.subrange(0, s@.len() as int) == s@);
    assert(s@.len() > 0 ==> s@.subrange(1, s@.len() as int) == s@.drop_first());
    if d.len() == 0 {
        return None;
    }
    let mut v: u32 = 0;
    let mut i: usize = 0;
    while i < d.len()
        invariant
            i <= d@.len(),
            d@.len() > 0,
            d@ == (if s@.len() > 0 && s@[0] == '+' {
                s@.drop_first()
            } else {
                s@
            }),
            forall|j: int| 0 <= j < i ==> #[trigger] is_hex(d@[j]),
            v == hex_value(d@.take(i as int)),
            v <= 0xffff,
        decreases d@.len() - i,
    {
        let c = d[i];
        assert(d@.take(i + 1).drop_last() == d@.take(i as int));
        let digit: u32 = if '0' <= c && c <= '9' {
            (c as u32) - 48
        } else if 'a' <= c && c <= 'f' {
            (c as u32) - 87
        } else if 'A' <= c && c <= 'F' {
            (c as u32) - 55
        } else {
            assert(!is_hex(d@[i as int]));
            return None;
        };
        let wide: u32 = v * 16 + digit;
        if wide > 0xffff {
            proof {
                if all_hex(d@) {
                    lemma_hex_grows(d@, i + 1, d@.len() as int);
                    assert(d@.take(d@.len() as int) == d@);
                }
            }
            return None;
        }
        v = wide;
        i += 1;
    }
    assert(d@.take(d@.len() as int) == d@);
    Some(v as u16)
}

} // verus!
