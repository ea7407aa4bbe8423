//! What the desktop layer reads back from the commands it runs: the message reported for a
//! finished command and the proxy values listed by `reg query`.
use vstd::prelude::*;
use crate::text::{
    append_str, chars_of, ci_eq, ci_eq_str, contains_seq, contains_str, has_prefix, join, join_strings,
    lines, lines_of, lit, lower_chars, lower_seq, starts_with_str, string_of, trim, trim_chars, views,
    words, words_of,
};
use crate::platform::proxy_windows::WindowsRegistryValue;

verus! {

/// The message of a finished command, preferring its error stream: trimmed `stderr` when it
/// is not blank, else trimmed `stdout` when it is not blank, else the exit status text.
pub open spec fn preferred_output_spec(stderr: Seq<char>, stdout: Seq<char>, status: Seq<char>) -> Seq<char> {
    if trim(stderr).len() > 0 {
        trim(stderr)
    } else if trim(stdout).len() > 0 {
        trim(stdout)
    } else {
        status
    }
}

/// The message of a finished command that keeps both streams: trimmed `stderr` and trimmed
/// `stdout` joined by `"; "` when both are non-blank, else whichever is non-blank, else the
/// exit status text.
pub open spec fn joined_output_spec(stderr: Seq<char>, stdout: Seq<char>, status: Seq<char>) -> Seq<char> {
    let e = trim(stderr);
    let o = trim(stdout);
    if e.len() > 0 && o.len() > 0 {
        e + "; "@ + o
    } else if e.len() > 0 {
        e
    } else if o.len() > 0 {
        o
    } else {
        status
    }
}

/// Message of a command's output, preferring the error stream. The streams are the command's
/// output bytes decoded as UTF-8 with replacement; `status` is the rendered exit status.
pub fn preferred_output_message(stderr: &str, stdout: &str, status: &str) -> (r: String)
    ensures
        r@ == preferred_output_spec(stderr@, stdout@, status@),
{
    let e = trim_chars(chars_of(stderr).as_slice());
    if e.len() > 0 {
        return string_of(e.as_slice());
    }
    let o = trim_chars(chars_of(stdout).as_slice());
    if o.len() > 0 {
        return string_of(o.as_slice());
    }
    lit(status)
}

/// Message of a command's output keeping both streams, as the macOS tools report them.
pub fn joined_output_message(stderr: &str, stdout: &str, status: &str) -> (r: String)
    ensures
        r@ == joined_output_spec(stderr@, stdout@, status@),
{
    let e = trim_chars(chars_of(stderr).as_slice());
    let o = trim_chars(chars_of(stdout).as_slice());
    if e.len() > 0 && o.len() > 0 {
        let mut out = string_of(e.as_slice());
        append_str(&mut out, "; ");
        let o_text = string_of(o.as_slice());
        append_str(&mut out, o_text.as_str());
        proof {
            reveal_strlit("; ");
        }
        out
    } else if e.len() > 0 {
        string_of(e.as_slice())
    } else if o.len() > 0 {
        string_of(o.as_slice())
    } else {
        lit(status)
    }
}

/// Whether a keychain tool's message says that the item it looked for does not exist.
pub open spec fn reports_not_found_spec(message: Seq<char>) -> bool {
    let t = lower_seq(message);
    contains_seq(t, "could not be found"@) || contains_seq(t, "not found"@) || contains_seq(
        t,
        "no matching"@,
    ) || contains_seq(t, "unable to find"@)
}

/// Whether a keychain tool's message (see [`joined_output_message`]) reports a missing item,
/// compared ignoring ASCII case.
pub fn security_output_is_not_found(message: &str) -> (r: bool)
    ensures
        r == reports_not_found_spec(message@),
{
    let lowered = lower_chars(chars_of(message).as_slice());
    contains_str(lowered.as_slice(), "could not be found") || contains_str(
        lowered.as_slice(),
        "not found",
    ) || contains_str(lowered.as_slice(), "no matching") || contains_str(
        lowered.as_slice(),
        "unable to find",
    )
}

/// The name, type and data of one `reg query` line: its first two whitespace-separated
/// words, the second starting with `REG_`, and the remaining words joined by single spaces.
pub open spec fn registry_line_spec(line: Seq<char>) -> Option<(Seq<char>, Seq<char>, Seq<char>)> {
    let w = words(line);
    if w.len() >= 2 && has_prefix(w[1], "REG_"@) {
        Some((w[0], w[1], join(w.subrange(2, w.len() as int), seq![' '])))
    } else {
        None
    }
}

/// The fields of a registry value as plain text.
pub open spec fn registry_fields(v: WindowsRegistryValue) -> (Seq<char>, Seq<char>, Seq<char>) {
    (v.name@, v.value_type@, v.data@)
}

/// Parses one line of `reg query` output into a value.
pub fn parse_registry_line(line: &str) -> (r: Option<WindowsRegistryValue>)
    ensures
        match registry_line_spec(line@) {
            Some(f) => r matches Some(v) && registry_fields(v) == f,
            None => r is None,
        },
{
    let chars = chars_of(line);
    let w = words_of(chars.as_slice());
    let ghost ws = words(line@);
    assert(w@.map_values(|v: Vec<char>| v@) == ws);
    if w.len() < 2 {
        return None;
    }
    assert(w@[1]@ == ws[1]);
    assert(w@[0]@ == ws[0]);
    if !starts_with_str(w[1].as_slice(), "REG_") {
        return None;
    }
    let mut rest: Vec<String> = Vec::new();
    let mut i: usize = 2;
    while i < w.len()
        invariant
            2 <= i <= w@.len(),
            w@.map_values(|v: Vec<char>| v@) == ws,
            views(rest@) == ws.subrange(2, i as int),
        decreases w@.len() - i,
    {
        let ghost before = views(rest@);
        rest.push(string_of(w[i].as_slice()));
        assert(views(rest@) =~= before.push(ws[i as int]));
        assert(ws.subrange(2, i + 1) =~= ws.subrange(2, i as int).push(ws[i as int]));
        i += 1;
    }
    let data = join_strings(&rest, " ");
    proof {
        reveal_strlit(" ");
        assert(" "@ =~= seq![' ']);
    }
    Some(WindowsRegistryValue {
        name: string_of(w[0].as_slice()),
        value_type: string_of(w[1].as_slice()),
        data,
    })
}

/// Whether a registry value name is one of the three proxy settings, ignoring ASCII case.
pub open spec fn is_proxy_value_name(name: Seq<char>) -> bool {
    ci_eq(name, "ProxyEnable"@) || ci_eq(name, "ProxyServer"@) || ci_eq(name, "ProxyOverride"@)
}

/// The proxy settings listed by the given `reg query` lines, in order.
pub open spec fn registry_entries(lines: Seq<Seq<char>>) -> Seq<(Seq<char>, Seq<char>, Seq<char>)>
    decreases lines.len(),
{
    if lines.len() == 0 {
        seq![]
    } else {
        let before = registry_entries(lines.drop_last());
        match registry_line_spec(lines.last()) {
            Some(f) => if is_proxy_value_name(f.0) {
                before.push(f)
            } else {
                before
            },
            None => before,
        }
    }
}

/// The proxy settings (`ProxyEnable`, `ProxyServer`, `ProxyOverride`) among the values that
/// `reg query` printed, in the order printed.
pub fn registry_proxy_values(output: &str) -> (r: Vec<WindowsRegistryValue>)
    ensures
        r@.map_values(|v: WindowsRegistryValue| registry_fields(v)) == registry_entries(lines(output@)),
{
    let chars = chars_of(output);
    let ls = lines_of(chars.as_slice());
    let ghost lv = ls@.map_values(|v: Vec<char>| v@);
    let mut out: Vec<WindowsRegistryValue> = Vec::new();
    let mut i: usize = 0;
    while i < ls.len()
        invariant
            i <= ls@.len(),
            lv == ls@.map_values(|v: Vec<char>| v@),
            lv == lines(output@),
            out@.map_values(|v: WindowsRegistryValue| registry_fields(v)) == registry_entries(lv.take(i as int)),
        decreases ls@.len() - i,
    {
        let ghost before = out@.map_values(|v: WindowsRegistryValue| registry_fields(v));
        assert(lv.take(i + 1).drop_last() =~= lv.take(i as int));
        assert(lv.take(i + 1).last() == ls@[i as int]@);
        let line = string_of(ls[i].as_slice());
        match parse_registry_line(line.as_str()) {
            Some(v) => {
                let keep = ci_eq_str(v.name.as_str(), "ProxyEnable") || ci_eq_str(
                    v.name.as_str(),
                    "ProxyServer",
                ) || ci_eq_str(v.name.as_str(), "ProxyOverride");
                if keep {
                    let ghost f = registry_fields(v);
                    out.push(v);
                    assert(out@.map_values(|v: WindowsRegistryValue| registry_fields(v)) =~= before.push(f));
                }
            },
            None => {},
        }
        i += 1;
    }
    assert(lv.take(lv.len() as int) =~= lv);
    out
}

} // verus!
