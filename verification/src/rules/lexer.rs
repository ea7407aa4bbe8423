//! Splitting one rule line into its top-level tokens.
use crate::rules::error::{ModelErrorKind, RuleModelError};
use crate::rules::language::MAX_RULE_PARSE_NESTING;
use crate::text::{
    char_is_whitespace, char_utf8_width, chars_of, is_ws, lemma_utf8_len_prefix,
    lemma_utf8_len_take, lit, push_char, utf8_byte_len, utf8_len,
};
use vstd::prelude::*;

verus! {

/// One top-level rule token with a half-open UTF-8 byte range in its source line.
#[derive(Clone, Debug, PartialEq, Eq)]
pub struct RuleToken {
    pub text: String,
    pub start: usize,
    pub end: usize,
}

/// A token as plain data: its text and its byte range.
pub type TokenView = (Seq<char>, int, int);

impl View for RuleToken {
    type V = TokenView;

    open spec fn view(&self) -> TokenView {
        (self.text@, self.start as int, self.end as int)
    }
}

/// Why tokenizing a rule failed.
#[derive(PartialEq, Eq, Structural)]
pub enum TokenFailure {
    /// Parentheses nested deeper than the limit.
    Nesting,
    /// A `)` had no opening partner.
    Unmatched,
    /// A quote was never closed.
    Unterminated,
    /// A `(` was never closed.
    Unclosed,
}

/// State of the tokenizer after a prefix of its input.
pub struct TokenState {
    pub tokens: Seq<TokenView>,
    pub current: Seq<char>,
    pub token_start: Option<int>,
    pub paren: nat,
    pub quote: Option<char>,
    pub escaped: bool,
    pub failure: Option<TokenFailure>,
}

pub open spec fn token_init() -> TokenState {
    TokenState {
        tokens: seq![],
        current: seq![],
        token_start: None,
        paren: 0,
        quote: None,
        escaped: false,
        failure: None,
    }
}

/// Processes the character at `i`, which starts at byte `utf8_len(s.take(i))`.
pub open spec fn token_step(s: Seq<char>, st0: TokenState, i: int) -> TokenState {
    let ch = s[i];
    let b = utf8_len(s.take(i)) as int;
    let st = if st0.token_start is None && !is_ws(ch) {
        TokenState { token_start: Some(b), ..st0 }
    } else {
        st0
    };
    if st0.failure is Some {
        st0
    } else if st.escaped {
        TokenState { current: st.current.push(ch), escaped: false, ..st }
    } else if ch == '\\' {
        TokenState { current: st.current.push(ch), escaped: true, ..st }
    } else if st.quote is Some {
        TokenState {
            current: st.current.push(ch),
            quote: if st.quote == Some(ch) {
                None
            } else {
                st.quote
            },
            ..st
        }
    } else if ch == '"' || ch == '\'' {
        TokenState { current: st.current.push(ch), quote: Some(ch), ..st }
    } else if ch == '(' {
        if st.paren + 1 > MAX_RULE_PARSE_NESTING {
            TokenState { failure: Some(TokenFailure::Nesting), ..st }
        } else {
            TokenState { current: st.current.push(ch), paren: st.paren + 1, ..st }
        }
    } else if ch == ')' {
        if st.paren == 0 {
            TokenState { failure: Some(TokenFailure::Unmatched), ..st }
        } else {
            TokenState { current: st.current.push(ch), paren: (st.paren - 1) as nat, ..st }
        }
    } else if is_ws(ch) && st.paren == 0 {
        if st.current.len() > 0 {
            TokenState {
                tokens: st.tokens.push((st.current, st.token_start->0, b)),
                current: seq![],
                token_start: None,
                ..st
            }
        } else {
            TokenState { token_start: None, ..st }
        }
    } else {
        TokenState { current: st.current.push(ch), ..st }
    }
}

/// The tokenizer's state after the first `n` characters of `s`.
pub open spec fn token_run(s: Seq<char>, n: nat) -> TokenState
    decreases n,
{
    if n == 0 {
        token_init()
    } else {
        token_step(s, token_run(s, (n - 1) as nat), n - 1)
    }
}

/// The whitespace-separated top-level tokens of a rule line, where whitespace inside quotes,
/// after a backslash, or inside parentheses does not separate tokens.
pub open spec fn tokenize_spec(s: Seq<char>) -> Result<Seq<TokenView>, TokenFailure> {
    let st = token_run(s, s.len());
    if st.failure is Some {
        Err(st.failure->0)
    } else if st.quote is Some {
        Err(TokenFailure::Unterminated)
    } else if st.paren != 0 {
        Err(TokenFailure::Unclosed)
    } else if st.current.len() > 0 {
        Ok(st.tokens.push((st.current, st.token_start->0, utf8_len(s) as int)))
    } else {
        Ok(st.tokens)
    }
}

/// The error reported for a tokenizing failure.
pub open spec fn token_error(e: RuleModelError, f: TokenFailure) -> bool {
    match f {
        TokenFailure::Nesting => e.is_error(ModelErrorKind::LimitExceeded, "rule nesting"),
        _ => e.is_error(ModelErrorKind::InvalidSyntax, "rule"),
    }
}

proof fn lemma_token_failure_persists(s: Seq<char>, n: nat, m: nat)
    requires
        n <= m <= s.len(),
        token_run(s, n).failure is Some,
    ensures
        token_run(s, m) == token_run(s, n),
    decreases m - n,
{
    if m > n {
        lemma_token_failure_persists(s, n, (m - 1) as nat);
    }
}

/// The views of a sequence of tokens.
pub open spec fn token_views(v: Seq<RuleToken>) -> Seq<TokenView> {
    v.map_values(|t: RuleToken| t@)
}

/// Splits a rule line into its top-level tokens with their byte ranges.
pub fn tokenize(input: &str) -> (r: Result<Vec<RuleToken>, RuleModelError>)
    ensures
        match (r, tokenize_spec(input@)) {
            (Ok(v), Ok(t)) => token_views(v@) == t,
            (Err(e), Err(f)) => token_error(e, f),
            _ => false,
        },
{
    let s = chars_of(input);
    let total = utf8_byte_len(input);
    let mut tokens: Vec<RuleToken> = Vec::new();
    let mut current = String::new();
    let mut token_start: Option<usize> = None;
    let mut paren: usize = 0;
    let mut quote: Option<char> = None;
    let mut escaped = false;
    let mut b: usize = 0;
    let mut i: usize = 0;
    assert(token_views(tokens@) =~= Seq::<TokenView>::empty());
    while i < s.len()
        invariant
            s@ == input@,
            total == utf8_len(s@),
            i <= s@.len(),
            b == utf8_len(s@.take(i as int)),
            paren <= MAX_RULE_PARSE_NESTING,
            (quote is Some || escaped || paren > 0) ==> current@.len() > 0,
            current@.len() > 0 ==> token_start is Some,
            token_run(s@, i as nat) == (TokenState {
                tokens: token_views(tokens@),
                current: current@,
                token_start: match token_start {
                    Some(t) => Some(t as int),
                    None => None,
                },
                paren: paren as nat,
                quote,
                escaped,
                failure: None,
            }),
        decreases s@.len() - i,
    {
        let ch = s[i];
        proof {
            lemma_utf8_len_take(s@, i as int);
            lemma_utf8_len_prefix(s@, i + 1);
        }
        let w = char_utf8_width(ch);
        let ws = char_is_whitespace(ch);
        if token_start.is_none() && !ws {
            token_start = Some(b);
        }
        if escaped {
            push_char(&mut current, ch);
            escaped = false;
        } else if ch == '\\' {
            push_char(&mut current, ch);
            escaped = true;
        } else if let Some(q) = quote {
            push_char(&mut current, ch);
            if ch == q {
                quote = None;
            }
        } else if ch == '"' || ch == '\'' {
            quote = Some(ch);
            push_char(&mut current, ch);
        } else if ch == '(' {
            if paren + 1 > MAX_RULE_PARSE_NESTING {
                proof {
                    lemma_token_failure_persists(s@, (i + 1) as nat, s@.len());
                }
                return Err(RuleModelError::LimitExceeded {
                    context: "rule nesting",
                    message: lit("rule nesting exceeds 32 levels"),
                });
            }
            paren += 1;
            push_char(&mut current, ch);
        } else if ch == ')' {
            if paren == 0 {
                proof {
                    lemma_token_failure_persists(s@, (i + 1) as nat, s@.len());
                }
                return Err(RuleModelError::InvalidSyntax {
                    context: "rule",
                    message: lit("unmatched `)`"),
                });
            }
            paren -= 1;
            push_char(&mut current, ch);
        } else if ws && paren == 0 {
            if current.as_str().is_empty() == false {
                let start = match token_start {
                    Some(t) => t,
                    None => 0,
                };
                let ghost before = tokens@;
                let text = current;
                current = String::new();
                tokens.push(RuleToken { text, start, end: b });
                assert(token_views(tokens@) =~= token_views(before).push(
                    (text@, start as int, b as int),
                ));
            }
            token_start = None;
        } else {
            push_char(&mut current, ch);
        }
        b = b + w;
        i += 1;
    }
    if quote.is_some() {
        return Err(RuleModelError::InvalidSyntax {
            context: "rule",
            message: lit("unterminated quote"),
        });
    }
    if paren != 0 {
        return Err(RuleModelError::InvalidSyntax { context: "rule", message: lit("unclosed `(`") });
    }
    if current.as_str().is_empty() == false {
        let start = match token_start {
            Some(t) => t,
            None => 0,
        };
        let ghost before = tokens@;
        let text = current;
        tokens.push(RuleToken { text, start, end: total });
        assert(token_views(tokens@) =~= token_views(before).push((text@, start as int, total as int)));
    }
    Ok(tokens)
}

} // verus!
