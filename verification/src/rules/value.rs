//! Deferred action-value sources.
use crate::text::{chars_of, is_alnum, lit, utf8_len, lemma_utf8_len_prefix_mono};
use vstd::prelude::*;

verus! {

/// A deferred action-value source.
///
/// Text-valued action slots require loaded bytes to be UTF-8, while body, injection, and mock
/// slots may preserve binary bytes. File paths are a trusted-rule capability and are not
/// confined to the storage directory.
#[derive(Clone, Debug, PartialEq, Eq)]
pub enum Value {
    /// Inline text, with templates and captures rendered by the caller.
    Inline(String),
    /// File path attempted relative to storage before being used as written.
    File(String),
    /// Key loaded from `<storage>/values/<key>`.
    Reference(String),
}

/// The kind of a [`Value`] source.
#[derive(Clone, Copy, Debug, PartialEq, Eq, Structural)]
pub enum ValueKind {
    Inline,
    File,
    Reference,
}

/// A value source as plain data: its kind and its text.
pub type ValueView = (ValueKind, Seq<char>);

impl View for Value {
    type V = ValueView;

    open spec fn view(&self) -> ValueView {
        match self {
            Value::Inline(s) => (ValueKind::Inline, s@),
            Value::File(s) => (ValueKind::File, s@),
            Value::Reference(s) => (ValueKind::Reference, s@),
        }
    }
}

impl Value {
    /// Wraps programmatic text as an inline value without parsing value markers.
    pub fn inline(value: &str) -> (r: Value)
        ensures
            r@ == (ValueKind::Inline, value@),
    {
        Value::Inline(lit(value))
    }

    /// Borrows inline text and returns `None` for values requiring external I/O.
    pub fn as_inline(&self) -> (r: Option<&str>)
        ensures
            match r {
                Some(t) => self@.0 == ValueKind::Inline && t@ == self@.1,
                None => self@.0 != ValueKind::Inline,
            },
    {
        match self {
            Value::Inline(value) => Some(value.as_str()),
            Value::File(_) => None,
            Value::Reference(_) => None,
        }
    }

    /// Returns the inline text, file path, or reference key stored by this value.
    pub fn source(&self) -> (r: &str)
        ensures
            r@ == self@.1,
    {
        match self {
            Value::Inline(value) => value.as_str(),
            Value::File(value) => value.as_str(),
            Value::Reference(value) => value.as_str(),
        }
    }

    /// A copy of this value.
    pub fn duplicate(&self) -> (r: Value)
        ensures
            r@ == self@,
    {
        match self {
            Value::Inline(value) => Value::Inline(value.clone()),
            Value::File(value) => Value::File(value.clone()),
            Value::Reference(value) => Value::Reference(value.clone()),
        }
    }
}

/// The views of a sequence of values.
pub open spec fn value_views(v: Seq<Value>) -> Seq<ValueView> {
    v.map_values(|x: Value| x@)
}

/// An optional value by its view.
pub open spec fn opt_value_view(v: Option<Value>) -> Option<ValueView> {
    match v {
        Some(x) => Some(x@),
        None => None,
    }
}

/// Characters allowed in a value key.
pub open spec fn key_char(c: char) -> bool {
    is_alnum(c) || c == '.' || c == '_' || c == '-'
}

/// The stable `@key` contract: 1–128 ASCII alphanumerics, `.`, `_`, or `-`.
pub open spec fn value_key(key: Seq<char>) -> bool {
    &&& 0 < key.len() <= 128
    &&& forall|i: int| 0 <= i < key.len() ==> #[trigger] key_char(key[i])
}

/// Allowed key characters are single bytes in UTF-8.
proof fn lemma_key_chars_one_byte(s: Seq<char>)
    requires
        forall|i: int| 0 <= i < s.len() ==> #[trigger] key_char(s[i]),
    ensures
        utf8_len(s) == s.len(),
    decreases s.len(),
{
    if s.len() > 0 {
        assert(key_char(s[0]));
        let d = s.drop_first();
        assert forall|i: int| 0 <= i < d.len() implies #[trigger] key_char(d[i]) by {
            assert(d[i] == s[i + 1]);
        }
        lemma_key_chars_one_byte(d);
    }
}

/// Checks the stable `@key` contract: 1–128 ASCII alphanumerics, `.`, `_`, or `-`. The length
/// bound holds in bytes as well as in characters.
pub fn valid_value_key(key: &str) -> (r: bool)
    ensures
        r == value_key(key@),
        r == (0 < utf8_len(key@) <= 128 && forall|i: int| 0 <= i < key@.len() ==> #[trigger] key_char(key@[i])),
{
    let cs = chars_of(key);
    proof {
        lemma_utf8_len_prefix_mono(key@, 0, key@.len() as int);
        assert(key@.take(key@.len() as int) =~= key@);
        assert(key@.take(0) =~= Seq::<char>::empty());
        assert(utf8_len(Seq::<char>::empty()) == 0);
        if forall|i: int| 0 <= i < key@.len() ==> #[trigger] key_char(key@[i]) {
            lemma_key_chars_one_byte(key@);
        }
    }
    if cs.len() == 0 || cs.len() > 128 {
        return false;
    }
    let mut i: usize = 0;
    while i < cs.len()
        invariant
            i <= cs@.len(),
            cs@ == key@,
            forall|j: int| 0 <= j < i ==> #[trigger] key_char(cs@[j]),
        decreases cs@.len() - i,
    {
        let c = cs[i];
        let ok = ('a' <= c && c <= 'z') || ('A' <= c && c <= 'Z') || ('0' <= c && c <= '9') || c
            == '.' || c == '_' || c == '-';
        if !ok {
            assert(!key_char(cs@[i as int]));
            return false;
        }
        i += 1;
    }
    true
}

} // verus!
