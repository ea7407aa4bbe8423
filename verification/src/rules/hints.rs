//! Recognizing tokens written in Whistle's syntax and suggesting the equivalent action.
use crate::text::{
    append_str, chars_of, has_prefix, is_alnum, is_digit, lit, rfind_char, seq_eq, slice_vec,
    starts_with, contains_char, all_digits,
};
use vstd::prelude::*;

verus! {

/// Host characters of a `host:port` token.
pub open spec fn host_char(c: char) -> bool {
    is_alnum(c) || c == '.' || c == '-' || c == '_'
}

/// The position of the last `:` in `s`.
pub open spec fn last_colon(s: Seq<char>) -> Option<int> {
    if exists|i: int| 0 <= i < s.len() && s[i] == ':' {
        Some(choose|i: int| 0 <= i < s.len() && s[i] == ':' && forall|j: int| i < j < s.len() ==> s[j] != ':')
    } else {
        None
    }
}

/// A `host:port` token: host characters, then a `:`, then one or more digits.
pub open spec fn host_port_spec(s: Seq<char>) -> bool {
    match last_colon(s) {
        None => false,
        Some(c) => {
            let host = s.take(c);
            let port = s.skip(c + 1);
            host.len() > 0 && port.len() > 0 && all_digits(port) && forall|i: int| 0 <= i < host.len() ==> host_char(#[trigger] host[i])
        },
    }
}

/// Reports whether a token looks like `host:port`.
pub fn looks_like_host_port(input: &str) -> (r: bool)
    ensures
        r == host_port_spec(input@),
{
    let s = chars_of(input);
    let c = match rfind_char(&s, ':') {
        Some(c) => c,
        None => {
            assert(!(exists|i: int| 0 <= i < s@.len() && s@[i] == ':'));
            return false;
        },
    };
    assert(last_colon(s@) == Some(c as int)) by {
        let k = choose|i: int| 0 <= i < s@.len() && s@[i] == ':' && forall|j: int| i < j < s@.len() ==> s@[j] != ':';
        assert(s@[c as int] == ':');
        if k < c {
        } else if k > c {
        }
    }
    if c == 0 || c >= s.len() - 1 {
        return false;
    }
    let mut i: usize = c + 1;
    while i < s.len()
        invariant
            c + 1 <= i <= s@.len(),
            s@ == input@,
            last_colon(s@) == Some(c as int),
            forall|j: int| c + 1 <= j < i ==> is_digit(#[trigger] s@[j]),
        decreases s@.len() - i,
    {
        if !('0' <= s[i] && s[i] <= '9') {
            assert(s@.skip(c + 1)[i - c - 1] == s@[i as int]);
            assert(!all_digits(s@.skip(c + 1)));
            return false;
        }
        i += 1;
    }
    assert(all_digits(s@.skip(c + 1))) by {
        assert forall|j: int| 0 <= j < s@.skip(c + 1).len() implies is_digit(#[trigger] s@.skip(c + 1)[j]) by {
            assert(s@.skip(c + 1)[j] == s@[j + c + 1]);
        }
    }
    let mut k: usize = 0;
    while k < c
        invariant
            k <= c < s@.len(),
            c > 0,
            c + 1 < s@.len(),
            s@ == input@,
            last_colon(s@) == Some(c as int),
            all_digits(s@.skip(c + 1)),
            forall|j: int| 0 <= j < k ==> host_char(#[trigger] s@[j]),
        decreases c - k,
    {
        let ch = s[k];
        let ok = ('a' <= ch && ch <= 'z') || ('A' <= ch && ch <= 'Z') || ('0' <= ch && ch <= '9')
            || ch == '.' || ch == '-' || ch == '_';
        if !ok {
            assert(!host_char(s@.take(c as int)[k as int]));
            return false;
        }
        k += 1;
    }
    assert forall|j: int| 0 <= j < s@.take(c as int).len() implies host_char(#[trigger] s@.take(c as int)[j]) by {
        assert(s@.take(c as int)[j] == s@[j]);
    }
    true
}

/// The suggestion to write a proxy target as `upstream(...)`.
pub open spec fn proxy_text(s: Seq<char>, scheme: Seq<char>, rest: Seq<char>) -> Seq<char> {
    "`"@ + s + "` looks like a Whistle proxy target; use `upstream("@ + scheme + rest + ")`"@
}

/// The suggestion for a token written in Whistle's syntax, if it is one.
pub open spec fn whistle_hint_spec(s: Seq<char>) -> Option<Seq<char>> {
    if s == "$0"@ {
        Some("`$0` is Whistle syntax for \"leave this request alone\"; use `direct skip()` in rsproxy"@)
    } else if has_prefix(s, "socks://"@) {
        Some(proxy_text(s, "socks5://"@, s.skip("socks://"@.len() as int)))
    } else if has_prefix(s, "socks5://"@) {
        Some(proxy_text(s, "socks5://"@, s.skip("socks5://"@.len() as int)))
    } else if has_prefix(s, "proxy://"@) {
        Some(proxy_text(s, "proxy://"@, s.skip("proxy://"@.len() as int)))
    } else if has_prefix(s, "http-proxy://"@) {
        Some(proxy_text(s, "proxy://"@, s.skip("http-proxy://"@.len() as int)))
    } else if has_prefix(s, "https-proxy://"@) {
        Some("`"@ + s + "` looks like a Whistle proxy target; use `upstream("@ + s + ")`"@)
    } else if has_prefix(s, "http://"@) || has_prefix(s, "https://"@) {
        Some("`"@ + s + "` looks like a Whistle map target; use `map.remote("@ + s
            + ")` for a transparent URL-preserving forward or `redirect("@ + s
            + ")` for a client-visible 30x"@)
    } else if !s.contains('(') && host_port_spec(s) {
        Some("`"@ + s + "` looks like a Whistle host mapping; use `host("@ + s
            + ")` to keep the original Host header or `map.remote(http://"@ + s
            + ")` for a transparent forward"@)
    } else {
        None
    }
}

fn prefix_rest(s: &[char], prefix: &str) -> (r: Option<Vec<char>>)
    ensures
        match r {
            Some(rest) => has_prefix(s@, prefix@) && rest@ == s@.skip(prefix@.len() as int),
            None => !has_prefix(s@, prefix@),
        },
{
    let p = chars_of(prefix);
    if starts_with(s, &p) {
        Some(slice_vec(s, p.len(), s.len()))
    } else {
        None
    }
}

fn proxy_hint(input: &str, mid: &str, rest: &[char]) -> (r: String)
    ensures
        r@ == proxy_text(input@, mid@, rest@),
{
    let mut out = lit("`");
    append_str(&mut out, input);
    append_str(&mut out, "` looks like a Whistle proxy target; use `upstream(");
    append_str(&mut out, mid);
    let r = crate::text::string_of(rest);
    append_str(&mut out, r.as_str());
    append_str(&mut out, ")`");
    out
}

/// Recognizes common raw Whistle operator tokens and suggests the equivalent form.
pub fn whistle_syntax_hint(input: &str) -> (r: Option<String>)
    ensures
        match (r, whistle_hint_spec(input@)) {
            (Some(a), Some(b)) => a@ == b,
            (None, None) => true,
            _ => false,
        },
{
    let s = chars_of(input);
    if seq_eq(&s, &chars_of("$0")) {
        return Some(lit("`$0` is Whistle syntax for \"leave this request alone\"; use `direct skip()` in rsproxy"));
    }
    if let Some(rest) = prefix_rest(&s, "socks://") {
        let out = proxy_hint(input, "socks5://", &rest);
        return Some(out);
    }
    if let Some(rest) = prefix_rest(&s, "socks5://") {
        let out = proxy_hint(input, "socks5://", &rest);
        return Some(out);
    }
    if let Some(rest) = prefix_rest(&s, "proxy://") {
        let out = proxy_hint(input, "proxy://", &rest);
        return Some(out);
    }
    if let Some(rest) = prefix_rest(&s, "http-proxy://") {
        let out = proxy_hint(input, "proxy://", &rest);
        return Some(out);
    }
    if starts_with(&s, &chars_of("https-proxy://")) {
        let mut out = lit("`");
        append_str(&mut out, input);
        append_str(&mut out, "` looks like a Whistle proxy target; use `upstream(");
        append_str(&mut out, input);
        append_str(&mut out, ")`");
        return Some(out);
    }
    if starts_with(&s, &chars_of("http://")) || starts_with(&s, &chars_of("https://")) {
        let mut out = lit("`");
        append_str(&mut out, input);
        append_str(&mut out, "` looks like a Whistle map target; use `map.remote(");
        append_str(&mut out, input);
        append_str(&mut out, ")` for a transparent URL-preserving forward or `redirect(");
        append_str(&mut out, input);
        append_str(&mut out, ")` for a client-visible 30x");
        return Some(out);
    }
    if !contains_char(&s, '(') && looks_like_host_port(input) {
        let mut out = lit("`");
        append_str(&mut out, input);
        append_str(&mut out, "` looks like a Whistle host mapping; use `host(");
        append_str(&mut out, input);
        append_str(&mut out, ")` to keep the original Host header or `map.remote(http://");
        append_str(&mut out, input);
        append_str(&mut out, ")` for a transparent forward");
        return Some(out);
    }
    None
}

} // verus!
