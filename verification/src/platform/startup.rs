//! Per-user desktop login startup registration: rendering of the LaunchAgent, XDG autostart
//! entry, and Windows `Run` command line.
use crate::platform::error::{PlatformError, PlatformResult};
use crate::text::{
    append_str, backslashes, chars_of, concat3, flat_map, join, join_strings, lemma_flat_map_all,
    lemma_flat_map_step, lemma_views_take, lit, push_backslashes, push_char, replace_char,
    replace_char_exec, views,
};
use vstd::prelude::*;

verus! {

pub const STARTUP_ID: &'static str = "dev.rsproxy.autostart";

pub const WINDOWS_RUN_KEY: &'static str = "HKCU\\Software\\Microsoft\\Windows\\CurrentVersion\\Run";

pub const WINDOWS_VALUE_NAME: &'static str = "rsproxy";

/// Native per-user login-startup backend selected for the current operating system.
#[derive(Clone, Copy, Debug, PartialEq, Eq, Structural)]
pub enum StartupPlatform {
    /// A macOS LaunchAgent below the current user's Library directory.
    Macos,
    /// A value in the current user's Windows `Run` registry key.
    Windows,
    /// A freedesktop XDG Autostart desktop entry.
    Linux,
}

/// Executable and arguments registered to run when the current user logs in.
#[derive(Clone, Debug, PartialEq, Eq)]
pub struct StartupRegistration {
    /// Absolute path to the executable, as text.
    pub executable: String,
    /// Arguments passed to the executable by the desktop startup backend.
    pub arguments: Vec<String>,
}

/// Current state of the per-user login-startup registration.
#[derive(Clone, Debug, PartialEq, Eq)]
pub struct StartupStatus {
    /// Platform backend used for registration.
    pub platform: StartupPlatform,
    /// Whether the startup entry currently exists.
    pub installed: bool,
    /// Human-readable artifact or registry location.
    pub location: String,
}

/// The full argument vector: the executable followed by its arguments.
pub open spec fn argv_spec(registration: StartupRegistration) -> Seq<Seq<char>> {
    seq![registration.executable@] + views(registration.arguments@)
}

/// Registry location of the Windows startup value.
pub fn windows_location() -> (r: String)
    ensures
        r@ == WINDOWS_RUN_KEY@ + "\\"@ + WINDOWS_VALUE_NAME@,
{
    concat3(WINDOWS_RUN_KEY, "\\", WINDOWS_VALUE_NAME)
}

/// A registration is acceptable when its executable path is absolute and no argument holds NUL,
/// LF or CR.
pub open spec fn forbidden_char(c: char) -> bool {
    c == '\0' || c == '\n' || c == '\r'
}

pub open spec fn has_forbidden(s: Seq<char>) -> bool {
    exists|i: int| 0 <= i < s.len() && forbidden_char(s[i])
}

pub open spec fn registration_has_forbidden(registration: StartupRegistration) -> bool {
    has_forbidden(registration.executable@) || exists|k: int|
        0 <= k < registration.arguments@.len() && has_forbidden(
            #[trigger] registration.arguments@[k]@,
        )
}

fn text_has_forbidden(s: &str) -> (r: bool)
    ensures
        r == has_forbidden(s@),
{
    let cs = chars_of(s);
    let mut i: usize = 0;
    while i < cs.len()
        invariant
            i <= cs@.len(),
            cs@ == s@,
            forall|j: int| 0 <= j < i ==> !forbidden_char(cs@[j]),
        decreases cs@.len() - i,
    {
        if cs[i] == '\0' || cs[i] == '\n' || cs[i] == '\r' {
            return true;
        }
        i += 1;
    }
    false
}

/// What validating a registration gives, knowing whether its executable path is absolute:
/// a relative path is refused first, then a NUL or line break in the executable or an
/// argument; each refusal is an invalid-state error with the text given here.
pub open spec fn registration_outcome(registration: StartupRegistration, executable_is_absolute: bool) -> Result<
    (),
    Seq<char>,
> {
    if !executable_is_absolute {
        Err("startup executable path must be absolute"@)
    } else if registration_has_forbidden(registration) {
        Err("startup executable and arguments must not contain NUL or newline characters"@)
    } else {
        Ok(())
    }
}

/// Whether a validation result is the outcome `o`.
pub open spec fn is_outcome(r: PlatformResult<()>, o: Result<(), Seq<char>>) -> bool {
    match (r, o) {
        (Ok(()), Ok(())) => true,
        (Err(PlatformError::InvalidState(m)), Err(t)) => m@ == t,
        _ => false,
    }
}

/// Validates a registration given whether its executable path is absolute on this host.
pub fn validate_registration_text(registration: &StartupRegistration, executable_is_absolute: bool) -> (r: PlatformResult<()>)
    ensures
        is_outcome(r, registration_outcome(*registration, executable_is_absolute)),
        r is Ok <==> executable_is_absolute && !registration_has_forbidden(*registration),
        r matches Err(e) ==> e is InvalidState,
{
    if !executable_is_absolute {
        return Err(PlatformError::InvalidState(lit("startup executable path must be absolute")));
    }
    let mut bad = text_has_forbidden(registration.executable.as_str());
    let mut k: usize = 0;
    while k < registration.arguments.len() && !bad
        invariant
            k <= registration.arguments@.len(),
            bad == (has_forbidden(registration.executable@) || exists|j: int|
                0 <= j < k && has_forbidden(#[trigger] registration.arguments@[j]@)),
        decreases registration.arguments@.len() - k,
    {
        bad = text_has_forbidden(registration.arguments[k].as_str());
        k += 1;
    }
    if bad {
        return Err(
            PlatformError::InvalidState(
                lit("startup executable and arguments must not contain NUL or newline characters"),
            ),
        );
    }
    Ok(())
}

/// Whether `path` can be absolute under some host's conventions: it starts with a root
/// separator (`/` or `\\`) or holds a drive or device prefix's `:`.
pub open spec fn may_be_absolute(path: Seq<char>) -> bool {
    (path.len() > 0 && (path[0] == '/' || path[0] == '\\')) || path.contains(':')
}

/// `std::path::Path::is_absolute`; the answer depends on the host's path conventions. As its
/// documentation gives, an absolute path starts with the root on Unix and has a prefix (a
/// drive letter with `:`, or one that starts with `\\`) followed by the root on Windows, so a
/// path that starts with neither separator and holds no `:` is relative on every host.
#[verifier::external_body]
fn path_is_absolute(path: &str) -> (r: bool)
    ensures
        !may_be_absolute(path@) ==> !r,
{
    std::path::Path::new(path).is_absolute()
}

/// Validates a registration against this host's path conventions.
pub fn validate_registration(registration: &StartupRegistration) -> (r: PlatformResult<()>)
    ensures
        r is Ok ==> !registration_has_forbidden(*registration),
        registration_has_forbidden(*registration) ==> r is Err,
        r matches Err(e) ==> e is InvalidState,
        !may_be_absolute(registration.executable@) ==> (r matches Err(PlatformError::InvalidState(m))
            && m@ == "startup executable path must be absolute"@),
        exists|absolute: bool|
            (!may_be_absolute(registration.executable@) ==> !absolute) && #[trigger] is_outcome(
                r,
                registration_outcome(*registration, absolute),
            ),
{
    let absolute = path_is_absolute(registration.executable.as_str());
    validate_registration_text(registration, absolute)
}

/// The executable followed by its arguments.
pub fn argv(registration: &StartupRegistration) -> (r: Vec<String>)
    ensures
        views(r@) == argv_spec(*registration),
{
    let mut out: Vec<String> = Vec::new();
    out.push(registration.executable.clone());
    let mut i: usize = 0;
    while i < registration.arguments.len()
        invariant
            i <= registration.arguments@.len(),
            views(out@) == seq![registration.executable@] + views(registration.arguments@.take(i as int)),
        decreases registration.arguments@.len() - i,
    {
        let ghost before = out@;
        out.push(registration.arguments[i].clone());
        proof {
            lemma_views_take(registration.arguments@, i as int);
            assert(views(out@) =~= views(before).push(registration.arguments@[i as int]@));
        }
        i += 1;
    }
    assert(registration.arguments@.take(registration.arguments@.len() as int) == registration.arguments@);
    out
}

// ---------------------------------------------------------------------------
// macOS LaunchAgent
// ---------------------------------------------------------------------------

/// XML character-entity escaping of one character.
pub open spec fn xml_char(c: char) -> Seq<char> {
    if c == '&' {
        "&amp;"@
    } else if c == '<' {
        "&lt;"@
    } else if c == '>' {
        "&gt;"@
    } else if c == '"' {
        "&quot;"@
    } else if c == '\'' {
        "&apos;"@
    } else {
        seq![c]
    }
}

pub open spec fn xml_escape_spec(s: Seq<char>) -> Seq<char> {
    flat_map(s, |c: char| xml_char(c))
}

/// Escapes `&`, `<`, `>`, `"` and `'` as XML entities.
pub fn xml_escape(value: &str) -> (r: String)
    ensures
        r@ == xml_escape_spec(value@),
{
    let s = chars_of(value);
    let ghost f = |c: char| xml_char(c);
    let mut out = String::new();
    let mut i: usize = 0;
    while i < s.len()
        invariant
            i <= s@.len(),
            s@ == value@,
            f == (|c: char| xml_char(c)),
            out@ == flat_map(s@.take(i as int), f),
        decreases s@.len() - i,
    {
        proof {
            lemma_flat_map_step(s@, f, i as int);
        }
        let c = s[i];
        if c == '&' {
            append_str(&mut out, "&amp;");
        } else if c == '<' {
            append_str(&mut out, "&lt;");
        } else if c == '>' {
            append_str(&mut out, "&gt;");
        } else if c == '"' {
            append_str(&mut out, "&quot;");
        } else if c == '\'' {
            append_str(&mut out, "&apos;");
        } else {
            push_char(&mut out, c);
        }
        i += 1;
    }
    proof {
        lemma_flat_map_all(s@, f);
    }
    out
}

pub open spec fn macos_arg_line(a: Seq<char>) -> Seq<char> {
    "        <string>"@ + xml_escape_spec(a) + "</string>"@
}

pub const MACOS_AGENT_HEAD: &'static str = "<?xml version=\"1.0\" encoding=\"UTF-8\"?>\n<!DOCTYPE plist PUBLIC \"-//Apple//DTD PLIST 1.0//EN\" \"http://www.apple.com/DTDs/PropertyList-1.0.dtd\">\n<plist version=\"1.0\">\n<dict>\n    <key>Label</key>\n    <string>dev.rsproxy.autostart</string>\n    <key>ProgramArguments</key>\n    <array>\n";

pub const MACOS_AGENT_TAIL: &'static str = "\n    </array>\n    <key>RunAtLoad</key>\n    <true/>\n    <key>ProcessType</key>\n    <string>Background</string>\n</dict>\n</plist>\n";

pub open spec fn macos_launch_agent_spec(registration: StartupRegistration) -> Seq<char> {
    MACOS_AGENT_HEAD@ + join(argv_spec(registration).map_values(|a: Seq<char>| macos_arg_line(a)), "\n"@)
        + MACOS_AGENT_TAIL@
}

/// Renders the LaunchAgent property list that starts the registration at login.
pub fn render_macos_launch_agent(registration: &StartupRegistration) -> (r: String)
    ensures
        r@ == macos_launch_agent_spec(*registration),
{
    let args = argv(registration);
    let ghost f = |a: Seq<char>| macos_arg_line(a);
    let mut lines: Vec<String> = Vec::new();
    let mut i: usize = 0;
    while i < args.len()
        invariant
            i <= args@.len(),
            f == (|a: Seq<char>| macos_arg_line(a)),
            views(lines@) == views(args@.take(i as int)).map_values(f),
        decreases args@.len() - i,
    {
        let mut line = lit("        <string>");
        let escaped = xml_escape(args[i].as_str());
        append_str(&mut line, escaped.as_str());
        append_str(&mut line, "</string>");
        let ghost before = lines@;
        lines.push(line);
        proof {
            lemma_views_take(args@, i as int);
            assert(line@ == f(args@[i as int]@));
            assert(views(lines@) =~= views(before).push(line@));
            assert(views(lines@) =~= views(args@.take(i + 1)).map_values(f));
        }
        i += 1;
    }
    assert(args@.take(args@.len() as int) == args@);
    let joined = join_strings(&lines, "\n");
    let mut out = lit(MACOS_AGENT_HEAD);
    append_str(&mut out, joined.as_str());
    append_str(&mut out, MACOS_AGENT_TAIL);
    out
}

// ---------------------------------------------------------------------------
// XDG autostart desktop entry
// ---------------------------------------------------------------------------

/// Quoting-layer escape of one character of an `Exec` argument.
pub open spec fn exec_char(c: char) -> Seq<char> {
    if c == '%' {
        "%%"@
    } else if c == '\\' {
        "\\\\"@
    } else if c == '"' {
        "\\\""@
    } else if c == '`' {
        "\\`"@
    } else if c == '$' {
        "\\$"@
    } else {
        seq![c]
    }
}

pub open spec fn desktop_exec_argument_spec(s: Seq<char>) -> Seq<char> {
    seq!['"'] + flat_map(s, |c: char| exec_char(c)) + seq!['"']
}

/// Quotes one argument for a desktop-entry `Exec` key.
pub fn desktop_exec_argument(value: &str) -> (r: String)
    ensures
        r@ == desktop_exec_argument_spec(value@),
{
    let s = chars_of(value);
    let ghost f = |c: char| exec_char(c);
    let mut out = String::new();
    push_char(&mut out, '"');
    let mut i: usize = 0;
    while i < s.len()
        invariant
            i <= s@.len(),
            s@ == value@,
            f == (|c: char| exec_char(c)),
            out@ == seq!['"'] + flat_map(s@.take(i as int), f),
        decreases s@.len() - i,
    {
        proof {
            lemma_flat_map_step(s@, f, i as int);
        }
        let c = s[i];
        if c == '%' {
            append_str(&mut out, "%%");
        } else if c == '\\' {
            append_str(&mut out, "\\\\");
        } else if c == '"' {
            append_str(&mut out, "\\\"");
        } else if c == '`' {
            append_str(&mut out, "\\`");
        } else if c == '$' {
            append_str(&mut out, "\\$");
        } else {
            push_char(&mut out, c);
        }
        i += 1;
    }
    proof {
        lemma_flat_map_all(s@, f);
    }
    push_char(&mut out, '"');
    out
}

/// Doubles every backslash for the key-file string-escape layer.
pub fn keyfile_escape(value: &str) -> (r: String)
    ensures
        r@ == replace_char(value@, '\\', "\\\\"@),
{
    let s = chars_of(value);
    replace_char_exec(&s, '\\', "\\\\")
}

pub const DESKTOP_ENTRY_HEAD: &'static str = "[Desktop Entry]\nType=Application\nVersion=1.0\nName=rsproxy\nComment=Start rsproxy and restore system proxy routing\nExec=";

pub const DESKTOP_ENTRY_TAIL: &'static str = "\nTerminal=false\nNoDisplay=true\nX-GNOME-Autostart-enabled=true\n";

pub open spec fn linux_desktop_entry_spec(registration: StartupRegistration) -> Seq<char> {
    DESKTOP_ENTRY_HEAD@ + replace_char(
        join(
            argv_spec(registration).map_values(|a: Seq<char>| desktop_exec_argument_spec(a)),
            " "@,
        ),
        '\\',
        "\\\\"@,
    ) + DESKTOP_ENTRY_TAIL@
}

/// Renders the XDG autostart desktop entry for the registration.
pub fn render_linux_desktop_entry(registration: &StartupRegistration) -> (r: String)
    ensures
        r@ == linux_desktop_entry_spec(*registration),
{
    let args = argv(registration);
    let ghost f = |a: Seq<char>| desktop_exec_argument_spec(a);
    let mut quoted: Vec<String> = Vec::new();
    let mut i: usize = 0;
    while i < args.len()
        invariant
            i <= args@.len(),
            f == (|a: Seq<char>| desktop_exec_argument_spec(a)),
            views(quoted@) == views(args@.take(i as int)).map_values(f),
        decreases args@.len() - i,
    {
        let q = desktop_exec_argument(args[i].as_str());
        let ghost before = quoted@;
        quoted.push(q);
        proof {
            lemma_views_take(args@, i as int);
            assert(q@ == f(args@[i as int]@));
            assert(views(quoted@) =~= views(before).push(q@));
            assert(views(quoted@) =~= views(args@.take(i + 1)).map_values(f));
        }
        i += 1;
    }
    assert(args@.take(args@.len() as int) == args@);
    let command = join_strings(&quoted, " ");
    let escaped = keyfile_escape(command.as_str());
    let mut out = lit(DESKTOP_ENTRY_HEAD);
    append_str(&mut out, escaped.as_str());
    append_str(&mut out, DESKTOP_ENTRY_TAIL);
    out
}

// ---------------------------------------------------------------------------
// Windows command line
// ---------------------------------------------------------------------------

/// Quoting of the characters of `s` given `pending` backslashes not yet written, following
/// the `CommandLineToArgvW` convention: backslashes are doubled only before a quote or the
/// closing quote.
pub open spec fn windows_quote_rest(s: Seq<char>, pending: nat) -> Seq<char>
    decreases s.len(),
{
    if s.len() == 0 {
        backslashes(2 * pending) + seq!['"']
    } else if s[0] == '\\' {
        windows_quote_rest(s.drop_first(), pending + 1)
    } else if s[0] == '"' {
        backslashes(2 * pending + 1) + seq!['"'] + windows_quote_rest(s.drop_first(), 0)
    } else {
        backslashes(pending) + seq![s[0]] + windows_quote_rest(s.drop_first(), 0)
    }
}

pub open spec fn windows_quote_argument_spec(s: Seq<char>) -> Seq<char> {
    seq!['"'] + windows_quote_rest(s, 0)
}

/// How `CommandLineToArgvW` reads the inside of a quoted argument, given `pending` backslashes
/// just read: a run of `2n` backslashes before `"` gives `n` backslashes and closes the
/// argument, which must then end the text; `2n + 1` backslashes before `"` give `n` backslashes
/// and a literal `"`; backslashes before any other character stand for themselves. `None` when
/// the quote is never closed or text follows it.
pub open spec fn argv_quoted(s: Seq<char>, pending: nat) -> Option<Seq<char>>
    decreases s.len(),
{
    if s.len() == 0 {
        None
    } else if s[0] == '\\' {
        argv_quoted(s.drop_first(), pending + 1)
    } else if s[0] == '"' {
        if pending % 2 == 0 {
            if s.len() == 1 {
                Some(Seq::new(pending / 2, |i: int| '\\'))
            } else {
                None
            }
        } else {
            match argv_quoted(s.drop_first(), 0) {
                Some(t) => Some(Seq::new(pending / 2, |i: int| '\\') + seq!['"'] + t),
                None => None,
            }
        }
    } else {
        match argv_quoted(s.drop_first(), 0) {
            Some(t) => Some(Seq::new(pending, |i: int| '\\') + seq![s[0]] + t),
            None => None,
        }
    }
}

/// The argument `CommandLineToArgvW` reads from a text that is one quoted argument.
pub open spec fn argv_read_quoted(text: Seq<char>) -> Option<Seq<char>> {
    if text.len() > 0 && text[0] == '"' {
        argv_quoted(text.drop_first(), 0)
    } else {
        None
    }
}

proof fn lemma_argv_backslashes(k: nat, t: Seq<char>, n: nat)
    ensures
        argv_quoted(backslashes(k) + t, n) == argv_quoted(t, n + k),
    decreases k,
{
    if k > 0 {
        let s = backslashes(k) + t;
        assert(s[0] == '\\');
        assert(s.drop_first() =~= backslashes((k - 1) as nat) + t);
        lemma_argv_backslashes((k - 1) as nat, t, n + 1);
    } else {
        assert(backslashes(0) + t =~= t);
    }
}

proof fn lemma_quote_rest_reads_back(s: Seq<char>, p: nat)
    ensures
        argv_quoted(windows_quote_rest(s, p), 0) == Some(backslashes(p) + s),
    decreases s.len(),
{
    if s.len() == 0 {
        lemma_argv_backslashes(2 * p, seq!['"'], 0);
        assert(backslashes(2 * p) + seq!['"'] =~= windows_quote_rest(s, p));
        assert((2 * p) / 2 == p) by (nonlinear_arith);
        assert(Seq::new((2 * p) / 2, |i: int| '\\') =~= backslashes(p));
        assert(backslashes(p) + s =~= backslashes(p));
    } else if s[0] == '\\' {
        lemma_quote_rest_reads_back(s.drop_first(), p + 1);
        assert(backslashes(p + 1) + s.drop_first() =~= backslashes(p) + s);
    } else if s[0] == '"' {
        let rest = windows_quote_rest(s.drop_first(), 0);
        lemma_quote_rest_reads_back(s.drop_first(), 0);
        lemma_argv_backslashes(2 * p + 1, seq!['"'] + rest, 0);
        assert(backslashes(2 * p + 1) + seq!['"'] + rest =~= backslashes(2 * p + 1) + (seq!['"'] + rest));
        assert((seq!['"'] + rest).drop_first() =~= rest);
        assert((2 * p + 1) % 2 == 1 && (2 * p + 1) / 2 == p) by (nonlinear_arith);
        assert(Seq::new(((2 * p + 1) / 2) as nat, |i: int| '\\') =~= backslashes(p));
        assert(backslashes(p) + seq!['"'] + (backslashes(0) + s.drop_first()) =~= backslashes(p) + s);
    } else {
        let c = s[0];
        let rest = windows_quote_rest(s.drop_first(), 0);
        lemma_quote_rest_reads_back(s.drop_first(), 0);
        lemma_argv_backslashes(p, seq![c] + rest, 0);
        assert(backslashes(p) + seq![c] + rest =~= backslashes(p) + (seq![c] + rest));
        assert((seq![c] + rest).drop_first() =~= rest);
        assert(Seq::new(p, |i: int| '\\') =~= backslashes(p));
        assert(backslashes(p) + seq![c] + (backslashes(0) + s.drop_first()) =~= backslashes(p) + s);
    }
}

/// A quoted Windows argument reads back, under the `CommandLineToArgvW` rules, as exactly the
/// argument it quotes: embedded quotes and backslashes survive.
pub proof fn law_windows_quote_round_trip(a: Seq<char>)
    ensures
        argv_read_quoted(windows_quote_argument_spec(a)) == Some(a),
{
    let q = windows_quote_argument_spec(a);
    assert(q.drop_first() =~= windows_quote_rest(a, 0));
    lemma_quote_rest_reads_back(a, 0);
    assert(backslashes(0) + a =~= a);
}

/// Quotes one argument so that `CommandLineToArgvW` recovers it unchanged.
pub fn windows_quote_argument(value: &str) -> (r: String)
    ensures
        r@ == windows_quote_argument_spec(value@),
{
    let s = chars_of(value);
    let mut quoted = String::new();
    push_char(&mut quoted, '"');
    let mut backslash_count: usize = 0;
    let mut i: usize = 0;
    assert(s@.skip(0) == s@);
    while i < s.len()
        invariant
            i <= s@.len(),
            s@ == value@,
            backslash_count <= i,
            quoted@ + windows_quote_rest(s@.skip(i as int), backslash_count as nat)
                == windows_quote_argument_spec(value@),
        decreases s@.len() - i,
    {
        let c = s[i];
        let ghost rest = s@.skip(i as int);
        assert(rest.drop_first() == s@.skip(i + 1));
        assert(rest[0] == c);
        if c == '\\' {
            backslash_count += 1;
        } else if c == '"' {
            push_backslashes(&mut quoted, backslash_count);
            push_backslashes(&mut quoted, backslash_count);
            push_char(&mut quoted, '\\');
            assert(backslashes((2 * backslash_count + 1) as nat) =~= backslashes(backslash_count as nat)
                + backslashes(backslash_count as nat) + seq!['\\']);
            push_char(&mut quoted, '"');
            backslash_count = 0;
            assert(quoted@ + windows_quote_rest(s@.skip(i + 1), 0) == windows_quote_argument_spec(value@));
        } else {
            push_backslashes(&mut quoted, backslash_count);
            push_char(&mut quoted, c);
            backslash_count = 0;
            assert(quoted@ + windows_quote_rest(s@.skip(i + 1), 0) == windows_quote_argument_spec(value@));
        }
        i += 1;
    }
    assert(s@.skip(i as int).len() == 0);
    push_backslashes(&mut quoted, backslash_count);
    push_backslashes(&mut quoted, backslash_count);
    assert(backslashes((2 * backslash_count) as nat) =~= backslashes(backslash_count as nat)
        + backslashes(backslash_count as nat));
    push_char(&mut quoted, '"');
    quoted
}

pub open spec fn windows_command_line_spec(registration: StartupRegistration) -> Seq<char> {
    join(
        argv_spec(registration).map_values(|a: Seq<char>| windows_quote_argument_spec(a)),
        " "@,
    )
}

/// The Windows `Run` command line: every argument quoted, separated by spaces.
pub fn windows_command_line(registration: &StartupRegistration) -> (r: String)
    ensures
        r@ == windows_command_line_spec(*registration),
{
    let args = argv(registration);
    let ghost f = |a: Seq<char>| windows_quote_argument_spec(a);
    let mut quoted: Vec<String> = Vec::new();
    let mut i: usize = 0;
    while i < args.len()
        invariant
            i <= args@.len(),
            f == (|a: Seq<char>| windows_quote_argument_spec(a)),
            views(quoted@) == views(args@.take(i as int)).map_values(f),
        decreases args@.len() - i,
    {
        let q = windows_quote_argument(args[i].as_str());
        let ghost before = quoted@;
        quoted.push(q);
        proof {
            lemma_views_take(args@, i as int);
            assert(q@ == f(args@[i as int]@));
            assert(views(quoted@) =~= views(before).push(q@));
            assert(views(quoted@) =~= views(args@.take(i + 1)).map_values(f));
        }
        i += 1;
    }
    assert(args@.take(args@.len() as int) == args@);
    join_strings(&quoted, " ")
}

} // verus!
