//! Process identifiers and local control-socket naming.
use crate::platform::ca::{sha256, sha256_digest};
use crate::platform::error::{PlatformError, PlatformResult};
use crate::rules::url::last_index;
use crate::text::{
    append_str, chars_of, decimal, has_prefix, lines, lines_of, lit, parse_hex_u16,
    parse_hex_u16_spec, parse_unsigned, parse_unsigned_spec, push_char, push_decimal, rfind_char,
    seq_eq, slice_vec, starts_with_str, trim, trim_chars, words, words_of,
};
use vstd::prelude::*;
use vstd::utf8::encode_utf8;

verus! {

/// The process identifier stored in a pidfile: trimmed decimal text above one.
pub open spec fn pid_spec(input: Seq<char>) -> Option<nat> {
    match parse_unsigned_spec(trim(input), 0xffff_ffff) {
        Some(n) => if n > 1 {
            Some(n)
        } else {
            None
        },
        None => None,
    }
}

/// A parsed process identifier is never 0 or the init process 1, and fits a `u32`.
pub proof fn law_pid_is_never_reserved(input: Seq<char>)
    ensures
        pid_spec(input) matches Some(p) ==> 2 <= p <= u32::MAX,
{
}

/// Parses a pidfile value and rejects non-numeric, zero, and init-process identifiers.
pub fn parse_pid(input: &str) -> (r: PlatformResult<u32>)
    ensures
        match (r, pid_spec(input@)) {
            (Ok(p), Some(n)) => p == n,
            (Err(e), None) => e is InvalidState,
            _ => false,
        },
{
    let cs = chars_of(input);
    let t = trim_chars(&cs);
    let pid = match parse_unsigned(&t, 0xffff_ffff) {
        Some(p) => p as u32,
        None => {
            return Err(
                PlatformError::InvalidState(lit("pidfile does not contain a numeric process id")),
            );
        },
    };
    if pid <= 1 {
        return Err(PlatformError::InvalidState(lit("pidfile process id must be greater than one")));
    }
    Ok(pid)
}

/// `Path::join` of a relative component onto a Unix path.
pub open spec fn unix_join(base: Seq<char>, rel: Seq<char>) -> Seq<char> {
    if base.len() == 0 {
        rel
    } else if base.last() == '/' {
        base + rel
    } else {
        base + seq!['/'] + rel
    }
}

pub open spec fn lower_hex_digit(n: nat) -> char {
    if n < 10 {
        ((n + 48) as u32) as char
    } else {
        ((n + 87) as u32) as char
    }
}

/// Lowercase hexadecimal rendering of bytes, two digits each.
pub open spec fn lower_hex(bytes: Seq<u8>) -> Seq<char>
    decreases bytes.len(),
{
    if bytes.len() == 0 {
        seq![]
    } else {
        lower_hex(bytes.drop_last()) + seq![
            lower_hex_digit((bytes.last() / 16) as nat),
            lower_hex_digit((bytes.last() % 16) as nat),
        ]
    }
}

/// Control-socket path for a storage directory and effective user id: `run/ctl.sock` below the
/// storage directory when that path has at most 96 bytes, otherwise a per-user `/tmp` name
/// derived from the first eight bytes of the SHA-256 digest of the storage path.
pub open spec fn control_socket_path_spec(storage: Seq<char>, storage_bytes: Seq<u8>, euid: nat) -> Seq<char> {
    let local = unix_join(storage, "run/ctl.sock"@);
    if encode_utf8(local).len() <= 96 {
        local
    } else {
        "/tmp/rsproxy-"@ + decimal(euid) + seq!['-'] + lower_hex(sha256(storage_bytes).take(8))
            + ".sock"@
    }
}

fn lower_hex_char(n: u8) -> (r: char)
    requires
        n < 16,
    ensures
        r == lower_hex_digit(n as nat),
{
    if n < 10 {
        (n + 48) as char
    } else {
        (n + 87) as char
    }
}

/// Selects the control-socket path for `storage` and the given effective user id.
pub fn control_socket_path(storage: &str, euid: u32) -> (r: String)
    ensures
        r@ == control_socket_path_spec(storage@, encode_utf8(storage@), euid as nat),
{
    let cs = chars_of(storage);
    let mut local = lit(storage);
    if cs.len() > 0 && cs[cs.len() - 1] != '/' {
        push_char(&mut local, '/');
    }
    append_str(&mut local, "run/ctl.sock");
    assert(local@ == unix_join(storage@, "run/ctl.sock"@));
    let local_bytes = local.as_str().as_bytes();
    if local_bytes.len() <= 96 {
        return local;
    }
    let digest = sha256_digest(storage.as_bytes());
    let mut out = lit("/tmp/rsproxy-");
    push_decimal(&mut out, euid as u64);
    push_char(&mut out, '-');
    let ghost prefix = out@;
    let mut i: usize = 0;
    while i < 8
        invariant
            i <= 8,
            digest@.len() == 32,
            digest@ == sha256(encode_utf8(storage@)),
            out@ == prefix + lower_hex(digest@.take(i as int)),
        decreases 8 - i,
    {
        assert(digest@.take(i + 1).drop_last() == digest@.take(i as int));
        let b = digest[i];
        push_char(&mut out, lower_hex_char(b / 16));
        push_char(&mut out, lower_hex_char(b % 16));
        assert(out@ =~= prefix + lower_hex(digest@.take(i + 1)));
        i += 1;
    }
    append_str(&mut out, ".sock");
    out
}

/// The text after `prefix` on the first line that starts with it.
pub open spec fn first_prefixed(ls: Seq<Seq<char>>, prefix: Seq<char>) -> Option<Seq<char>>
    decreases ls.len(),
{
    if ls.len() == 0 {
        None
    } else if has_prefix(ls[0], prefix) {
        Some(ls[0].skip(prefix.len() as int))
    } else {
        first_prefixed(ls.drop_first(), prefix)
    }
}

/// The resident set size a Linux `/proc/<pid>/status` text reports, in KiB: the first word after
/// the `VmRSS:` prefix of the first line that has it, read as an unsigned 64-bit integer.
pub open spec fn vm_rss_spec(status: Seq<char>) -> Option<nat> {
    match first_prefixed(lines(status), "VmRSS:"@) {
        None => None,
        Some(rest) => if words(rest).len() == 0 {
            None
        } else {
            parse_unsigned_spec(words(rest)[0], 0xffff_ffff_ffff_ffff)
        },
    }
}

/// Reads the resident set size, in KiB, from a Linux `/proc/<pid>/status` text.
pub fn vm_rss_kib(status: &str) -> (r: Option<u64>)
    ensures
        match (r, vm_rss_spec(status@)) {
            (Some(v), Some(n)) => v == n,
            (None, None) => true,
            _ => false,
        },
{
    let ls = lines_of(&chars_of(status));
    let ghost views = ls@.map_values(|v: Vec<char>| v@);
    let mut i: usize = 0;
    proof {
        reveal_strlit("VmRSS:");
    }
    assert(views.skip(0) =~= views);
    while i < ls.len()
        invariant
            i <= ls@.len(),
            views == ls@.map_values(|v: Vec<char>| v@),
            views == lines(status@),
            first_prefixed(views, "VmRSS:"@) == first_prefixed(views.skip(i as int), "VmRSS:"@),
        decreases ls@.len() - i,
    {
        proof {
            reveal_strlit("VmRSS:");
        }
        assert(views.skip(i as int)[0] == ls@[i as int]@);
        assert(views.skip(i as int).drop_first() =~= views.skip(i + 1));
        if starts_with_str(&ls[i], "VmRSS:") {
            let rest = slice_vec(&ls[i], 6, ls[i].len());
            assert(rest@ =~= ls@[i as int]@.skip(6));
            let w = words_of(&rest);
            if w.len() == 0 {
                return None;
            }
            assert(w@.map_values(|v: Vec<char>| v@)[0] == w@[0]@);
            return parse_unsigned(&w[0], 0xffff_ffff_ffff_ffff);
        }
        i += 1;
    }
    None
}

/// The socket inode of a `/proc/net/tcp` table line when it is a listener (state `0A`) on
/// `port`: the tenth word, read as an unsigned 64-bit integer.
pub open spec fn listener_inode(line: Seq<char>, port: u16) -> Option<nat> {
    let f = words(line);
    if f.len() <= 9 || f[3] != "0A"@ {
        None
    } else {
        match last_index(f[1], ':') {
            None => None,
            Some(c) => if parse_hex_u16_spec(f[1].skip(c + 1)) == Some(port as nat) {
                parse_unsigned_spec(f[9], 0xffff_ffff_ffff_ffff)
            } else {
                None
            },
        }
    }
}

/// The lines of a table text after its header line.
pub open spec fn table_rows(text: Seq<char>) -> Seq<Seq<char>> {
    if lines(text).len() == 0 {
        Seq::empty()
    } else {
        lines(text).skip(1)
    }
}

/// The listener inodes of the first `n` table lines, in order.
pub open spec fn listener_inodes(ls: Seq<Seq<char>>, port: u16, n: int) -> Seq<nat>
    decreases n,
{
    if n <= 0 {
        Seq::empty()
    } else {
        let before = listener_inodes(ls, port, n - 1);
        match listener_inode(ls[n - 1], port) {
            Some(i) => before.push(i),
            None => before,
        }
    }
}

fn line_listener_inode(line: &[char], port: u16) -> (r: Option<u64>)
    ensures
        match (r, listener_inode(line@, port)) {
            (Some(v), Some(n)) => v == n,
            (None, None) => true,
            _ => false,
        },
{
    let f = words_of(line);
    let ghost fv = f@.map_values(|v: Vec<char>| v@);
    proof {
        reveal_strlit("0A");
    }
    if f.len() <= 9 {
        return None;
    }
    assert(fv[3] == f@[3]@);
    assert(fv[1] == f@[1]@);
    assert(fv[9] == f@[9]@);
    if !seq_eq(&f[3], &chars_of("0A")) {
        return None;
    }
    let c = match rfind_char(&f[1], ':') {
        Some(c) => c,
        None => {
            return None;
        },
    };
    proof {
        let l = last_index(fv[1], ':');
        assert(l is Some);
        let k = l->0;
        if k < c {
            assert(fv[1][c as int] == ':');
        } else if k > c {
            assert(fv[1][k] == ':');
        }
    }
    assert(c < f[1].len());
    let hex = slice_vec(&f[1], c + 1, f[1].len());
    assert(hex@ =~= fv[1].skip(c + 1));
    match parse_hex_u16(&hex) {
        Some(p) => {
            if p != port {
                return None;
            }
        },
        None => {
            return None;
        },
    }
    parse_unsigned(&f[9], 0xffff_ffff_ffff_ffff)
}

/// The socket inodes of TCP listeners on `port` in a `/proc/net/tcp` or `/proc/net/tcp6` text,
/// skipping its header line.
pub fn listening_socket_inodes(contents: &str, port: u16) -> (r: Vec<u64>)
    ensures
        r@.map_values(|v: u64| v as nat) == listener_inodes(
            table_rows(contents@),
            port,
            table_rows(contents@).len() as int,
        ),
{
    let ls = lines_of(&chars_of(contents));
    let ghost views = ls@.map_values(|v: Vec<char>| v@);
    let ghost table = table_rows(contents@);
    let mut out: Vec<u64> = Vec::new();
    if ls.len() == 0 {
        assert(table =~= Seq::<Seq<char>>::empty());
        assert(out@.map_values(|v: u64| v as nat) =~= Seq::<nat>::empty());
        return out;
    }
    let mut i: usize = 1;
    while i < ls.len()
        invariant
            1 <= i <= ls@.len(),
            views == ls@.map_values(|v: Vec<char>| v@),
            views == lines(contents@),
            table == views.skip(1),
            out@.map_values(|v: u64| v as nat) == listener_inodes(table, port, i - 1),
        decreases ls@.len() - i,
    {
        assert(table[i - 1] == ls@[i as int]@);
        let ghost before = out@.map_values(|v: u64| v as nat);
        match line_listener_inode(&ls[i], port) {
            Some(inode) => {
                out.push(inode);
                assert(out@.map_values(|v: u64| v as nat) =~= before.push(inode as nat));
            },
            None => {},
        }
        i += 1;
    }
    out
}

/// The first line of a text that, trimmed, reads as an unsigned 32-bit integer.
pub open spec fn first_numeric_line(ls: Seq<Seq<char>>) -> Option<nat>
    decreases ls.len(),
{
    if ls.len() == 0 {
        None
    } else {
        match parse_unsigned_spec(trim(ls[0]), 0xffff_ffff) {
            Some(n) => Some(n),
            None => first_numeric_line(ls.drop_first()),
        }
    }
}

/// Reads the first process id listed one per line, as `lsof -t` prints them.
pub fn first_listed_pid(output: &str) -> (r: Option<u32>)
    ensures
        match (r, first_numeric_line(lines(output@))) {
            (Some(v), Some(n)) => v == n,
            (None, None) => true,
            _ => false,
        },
{
    let ls = lines_of(&chars_of(output));
    let ghost views = ls@.map_values(|v: Vec<char>| v@);
    let mut i: usize = 0;
    assert(views.skip(0) =~= views);
    while i < ls.len()
        invariant
            i <= ls@.len(),
            views == ls@.map_values(|v: Vec<char>| v@),
            views == lines(output@),
            first_numeric_line(views) == first_numeric_line(views.skip(i as int)),
        decreases ls@.len() - i,
    {
        assert(views.skip(i as int)[0] == ls@[i as int]@);
        assert(views.skip(i as int).drop_first() =~= views.skip(i + 1));
        match parse_unsigned(&trim_chars(&ls[i]), 0xffff_ffff) {
            Some(v) => {
                return Some(v as u32);
            },
            None => {},
        }
        i += 1;
    }
    None
}

} // verus!
