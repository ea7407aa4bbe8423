//! Parsing `tls(...)`: client identity paths, minimum version, and cipher suites.
use crate::rules::action::{TlsCipherSuite, TlsMinVersion, TlsOp};
use crate::rules::syntax::{unquote, unquote_spec};
use crate::text::{
    append_str, chars_of, concat3, lit, lower_chars, lower_seq, seq_eq, slice_vec, split_once,
    split_once_exec, string_of, trim, trim_chars, upper_chars, upper_seq,
};
use vstd::prelude::*;

verus! {

fn eq_lit(s: &[char], text: &str) -> (r: bool)
    ensures
        r == (s@ == text@),
{
    let t = chars_of(text);
    seq_eq(s, &t)
}

/// A minimum TLS version spelling.
pub open spec fn min_version_spec(s: Seq<char>) -> Option<TlsMinVersion> {
    let l = lower_seq(trim(s));
    if l == "1.2"@ || l == "tls1.2"@ || l == "tlsv1.2"@ || l == "tls12"@ || l == "tlsv12"@ {
        Some(TlsMinVersion::Tls12)
    } else if l == "1.3"@ || l == "tls1.3"@ || l == "tlsv1.3"@ || l == "tls13"@ || l == "tlsv13"@ {
        Some(TlsMinVersion::Tls13)
    } else {
        None
    }
}

fn parse_tls_min_version(input: &[char]) -> (r: Result<TlsMinVersion, String>)
    ensures
        match (r, min_version_spec(input@)) {
            (Ok(v), Some(w)) => v == w,
            (Err(m), None) => m@ == "unsupported tls minimum version `"@ + input@
                + "`; supported: 1.2, 1.3"@,
            _ => false,
        },
{
    let l = lower_chars(&trim_chars(input));
    if eq_lit(&l, "1.2") || eq_lit(&l, "tls1.2") || eq_lit(&l, "tlsv1.2") || eq_lit(&l, "tls12")
        || eq_lit(&l, "tlsv12") {
        return Ok(TlsMinVersion::Tls12);
    }
    if eq_lit(&l, "1.3") || eq_lit(&l, "tls1.3") || eq_lit(&l, "tlsv1.3") || eq_lit(&l, "tls13")
        || eq_lit(&l, "tlsv13") {
        return Ok(TlsMinVersion::Tls13);
    }
    let text = string_of(input);
    Err(concat3("unsupported tls minimum version `", text.as_str(), "`; supported: 1.2, 1.3"))
}

/// A cipher suite by its IANA or OpenSSL name, any case.
pub open spec fn cipher_spec(s: Seq<char>) -> Option<TlsCipherSuite> {
    let n = upper_seq(trim(s));
    if n == "TLS_AES_128_GCM_SHA256"@ || n == "TLS13_AES_128_GCM_SHA256"@ {
        Some(TlsCipherSuite::Tls13Aes128GcmSha256)
    } else if n == "TLS_AES_256_GCM_SHA384"@ || n == "TLS13_AES_256_GCM_SHA384"@ {
        Some(TlsCipherSuite::Tls13Aes256GcmSha384)
    } else if n == "TLS_CHACHA20_POLY1305_SHA256"@ || n == "TLS13_CHACHA20_POLY1305_SHA256"@ {
        Some(TlsCipherSuite::Tls13Chacha20Poly1305Sha256)
    } else if n == "TLS_ECDHE_ECDSA_WITH_AES_128_GCM_SHA256"@ || n == "ECDHE-ECDSA-AES128-GCM-SHA256"@ {
        Some(TlsCipherSuite::Tls12EcdheEcdsaAes128GcmSha256)
    } else if n == "TLS_ECDHE_ECDSA_WITH_AES_256_GCM_SHA384"@ || n == "ECDHE-ECDSA-AES256-GCM-SHA384"@ {
        Some(TlsCipherSuite::Tls12EcdheEcdsaAes256GcmSha384)
    } else if n == "TLS_ECDHE_ECDSA_WITH_CHACHA20_POLY1305_SHA256"@ || n
        == "ECDHE-ECDSA-CHACHA20-POLY1305"@ || n == "ECDHE-ECDSA-CHACHA20-POLY1305-SHA256"@ {
        Some(TlsCipherSuite::Tls12EcdheEcdsaChacha20Poly1305Sha256)
    } else if n == "TLS_ECDHE_RSA_WITH_AES_128_GCM_SHA256"@ || n == "ECDHE-RSA-AES128-GCM-SHA256"@ {
        Some(TlsCipherSuite::Tls12EcdheRsaAes128GcmSha256)
    } else if n == "TLS_ECDHE_RSA_WITH_AES_256_GCM_SHA384"@ || n == "ECDHE-RSA-AES256-GCM-SHA384"@ {
        Some(TlsCipherSuite::Tls12EcdheRsaAes256GcmSha384)
    } else if n == "TLS_ECDHE_RSA_WITH_CHACHA20_POLY1305_SHA256"@ || n
        == "ECDHE-RSA-CHACHA20-POLY1305"@ || n == "ECDHE-RSA-CHACHA20-POLY1305-SHA256"@ {
        Some(TlsCipherSuite::Tls12EcdheRsaChacha20Poly1305Sha256)
    } else {
        None
    }
}

fn parse_tls_cipher_suite(input: &[char]) -> (r: Result<TlsCipherSuite, String>)
    ensures
        match (r, cipher_spec(input@)) {
            (Ok(v), Some(w)) => v == w,
            (Err(m), None) => m@ == "unsupported tls cipher suite `"@ + input@ + "`"@,
            _ => false,
        },
{
    let n = upper_chars(&trim_chars(input));
    if eq_lit(&n, "TLS_AES_128_GCM_SHA256") || eq_lit(&n, "TLS13_AES_128_GCM_SHA256") {
        return Ok(TlsCipherSuite::Tls13Aes128GcmSha256);
    }
    if eq_lit(&n, "TLS_AES_256_GCM_SHA384") || eq_lit(&n, "TLS13_AES_256_GCM_SHA384") {
        return Ok(TlsCipherSuite::Tls13Aes256GcmSha384);
    }
    if eq_lit(&n, "TLS_CHACHA20_POLY1305_SHA256") || eq_lit(&n, "TLS13_CHACHA20_POLY1305_SHA256") {
        return Ok(TlsCipherSuite::Tls13Chacha20Poly1305Sha256);
    }
    if eq_lit(&n, "TLS_ECDHE_ECDSA_WITH_AES_128_GCM_SHA256") || eq_lit(
        &n,
        "ECDHE-ECDSA-AES128-GCM-SHA256",
    ) {
        return Ok(TlsCipherSuite::Tls12EcdheEcdsaAes128GcmSha256);
    }
    if eq_lit(&n, "TLS_ECDHE_ECDSA_WITH_AES_256_GCM_SHA384") || eq_lit(
        &n,
        "ECDHE-ECDSA-AES256-GCM-SHA384",
    ) {
        return Ok(TlsCipherSuite::Tls12EcdheEcdsaAes256GcmSha384);
    }
    if eq_lit(&n, "TLS_ECDHE_ECDSA_WITH_CHACHA20_POLY1305_SHA256") || eq_lit(
        &n,
        "ECDHE-ECDSA-CHACHA20-POLY1305",
    ) || eq_lit(&n, "ECDHE-ECDSA-CHACHA20-POLY1305-SHA256") {
        return Ok(TlsCipherSuite::Tls12EcdheEcdsaChacha20Poly1305Sha256);
    }
    if eq_lit(&n, "TLS_ECDHE_RSA_WITH_AES_128_GCM_SHA256") || eq_lit(
        &n,
        "ECDHE-RSA-AES128-GCM-SHA256",
    ) {
        return Ok(TlsCipherSuite::Tls12EcdheRsaAes128GcmSha256);
    }
    if eq_lit(&n, "TLS_ECDHE_RSA_WITH_AES_256_GCM_SHA384") || eq_lit(
        &n,
        "ECDHE-RSA-AES256-GCM-SHA384",
    ) {
        return Ok(TlsCipherSuite::Tls12EcdheRsaAes256GcmSha384);
    }
    if eq_lit(&n, "TLS_ECDHE_RSA_WITH_CHACHA20_POLY1305_SHA256") || eq_lit(
        &n,
        "ECDHE-RSA-CHACHA20-POLY1305",
    ) || eq_lit(&n, "ECDHE-RSA-CHACHA20-POLY1305-SHA256") {
        return Ok(TlsCipherSuite::Tls12EcdheRsaChacha20Poly1305Sha256);
    }
    let text = string_of(input);
    Err(concat3("unsupported tls cipher suite `", text.as_str(), "`"))
}

/// A TLS file path: unquoted, with one optional `<...>` wrapper removed.
pub open spec fn tls_path_spec(s: Seq<char>) -> Seq<char> {
    let v = unquote_spec(s);
    if v.len() >= 2 && v[0] == '<' && v.last() == '>' {
        v.subrange(1, v.len() - 1)
    } else {
        v
    }
}

fn normalize_tls_path(input: &[char]) -> (r: Vec<char>)
    ensures
        r@ == tls_path_spec(input@),
{
    let text = string_of(input);
    let v = chars_of(unquote(text.as_str()).as_str());
    if v.len() >= 2 && v[0] == '<' && v[v.len() - 1] == '>' {
        slice_vec(&v, 1, v.len() - 1)
    } else {
        v
    }
}

/// A cipher-list separator.
pub open spec fn cipher_sep(c: char) -> bool {
    c == ':' || c == '|' || c == ';'
}

/// The pieces of `s` between cipher-list separators.
pub open spec fn cipher_pieces(s: Seq<char>) -> Seq<Seq<char>>
    decreases s.len(),
{
    if s.len() == 0 {
        seq![seq![]]
    } else {
        let p = cipher_pieces(s.drop_last());
        if cipher_sep(s.last()) {
            p.push(seq![])
        } else {
            p.update(p.len() - 1, p.last().push(s.last()))
        }
    }
}

proof fn lemma_cipher_pieces_nonempty(s: Seq<char>)
    ensures
        cipher_pieces(s).len() >= 1,
    decreases s.len(),
{
    if s.len() > 0 {
        lemma_cipher_pieces_nonempty(s.drop_last());
    }
}

fn split_cipher_list(s: &[char]) -> (r: Vec<Vec<char>>)
    ensures
        r@.map_values(|v: Vec<char>| v@) == cipher_pieces(s@),
{
    let mut pieces: Vec<Vec<char>> = Vec::new();
    let mut cur: Vec<char> = Vec::new();
    let mut i: usize = 0;
    assert(s@.take(0) =~= Seq::<char>::empty());
    assert(pieces@.map_values(|v: Vec<char>| v@).push(cur@) =~= seq![Seq::<char>::empty()]);
    while i < s.len()
        invariant
            i <= s@.len(),
            pieces@.map_values(|v: Vec<char>| v@).push(cur@) == cipher_pieces(s@.take(i as int)),
        decreases s@.len() - i,
    {
        let ghost prev = pieces@.map_values(|v: Vec<char>| v@).push(cur@);
        proof {
            assert(s@.take(i + 1).drop_last() == s@.take(i as int));
            lemma_cipher_pieces_nonempty(s@.take(i as int));
        }
        let c = s[i];
        if c == ':' || c == '|' || c == ';' {
            let done = cur;
            pieces.push(done);
            cur = Vec::new();
            assert(pieces@.map_values(|v: Vec<char>| v@).push(cur@) =~= prev.push(seq![]));
        } else {
            cur.push(c);
            assert(pieces@.map_values(|v: Vec<char>| v@).push(cur@) =~= prev.update(
                prev.len() - 1,
                prev.last().push(c),
            ));
        }
        i += 1;
    }
    assert(s@.take(s@.len() as int) == s@);
    pieces.push(cur);
    pieces
}

/// A TLS policy as plain data: client certificate, client key, minimum version, ciphers.
pub type TlsView = (Option<Seq<char>>, Option<Seq<char>>, Option<TlsMinVersion>, Seq<TlsCipherSuite>);

pub open spec fn opt_text(o: Option<String>) -> Option<Seq<char>> {
    match o {
        Some(s) => Some(s@),
        None => None,
    }
}

pub open spec fn tls_view(t: TlsOp) -> TlsView {
    (opt_text(t.client_cert), opt_text(t.client_key), t.min_version, t.ciphers@)
}

/// Adds the ciphers of the first `n` list pieces, keeping each suite once, in first-seen order.
pub open spec fn add_ciphers(pieces: Seq<Seq<char>>, n: int, acc: Seq<TlsCipherSuite>) -> Result<
    Seq<TlsCipherSuite>,
    Seq<char>,
>
    decreases n,
{
    if n <= 0 || n > pieces.len() {
        Ok(acc)
    } else {
        match add_ciphers(pieces, n - 1, acc) {
            Err(m) => Err(m),
            Ok(cs) => match cipher_spec(pieces[n - 1]) {
                None => Err("unsupported tls cipher suite `"@ + pieces[n - 1] + "`"@),
                Some(c) => if cs.contains(c) {
                    Ok(cs)
                } else {
                    Ok(cs.push(c))
                },
            },
        }
    }
}

/// The `tls(...)` key of an argument: trimmed, lowercase, `_` read as `-`.
pub open spec fn tls_key(k: Seq<char>) -> Seq<char> {
    lower_seq(trim(k)).map_values(|c: char| if c == '_' { '-' } else { c })
}

/// One `tls(...)` argument applied to the policy gathered so far.
pub open spec fn tls_step(arg: Seq<char>, st: TlsView) -> Result<TlsView, Seq<char>> {
    match split_once(arg, '=') {
        None => Err("tls options must use key=value syntax"@),
        Some((k, v)) => {
            let key = tls_key(k);
            if key == "client-cert"@ {
                let p = tls_path_spec(v);
                if p.len() == 0 {
                    Err("tls client-cert must not be empty"@)
                } else {
                    Ok((Some(p), st.1, st.2, st.3))
                }
            } else if key == "client-key"@ {
                let p = tls_path_spec(v);
                if p.len() == 0 {
                    Err("tls client-key must not be empty"@)
                } else {
                    Ok((st.0, Some(p), st.2, st.3))
                }
            } else if key == "min"@ || key == "min-version"@ {
                let u = unquote_spec(v);
                match min_version_spec(u) {
                    Some(m) => Ok((st.0, st.1, Some(m), st.3)),
                    None => Err("unsupported tls minimum version `"@ + u + "`; supported: 1.2, 1.3"@),
                }
            } else if key == "cipher"@ || key == "ciphers"@ {
                let u = unquote_spec(v);
                if u.len() == 0 {
                    Err("tls ciphers must not be empty"@)
                } else {
                    let pieces = cipher_pieces(u);
                    match add_ciphers(pieces, pieces.len() as int, st.3) {
                        Ok(cs) => Ok((st.0, st.1, st.2, cs)),
                        Err(m) => Err(m),
                    }
                }
            } else {
                Err("unsupported tls option `"@ + key
                    + "`; supported: client-cert, client-key, min, ciphers"@)
            }
        },
    }
}

/// The policy after the first `n` arguments.
pub open spec fn tls_run(args: Seq<Seq<char>>, n: int) -> Result<TlsView, Seq<char>>
    decreases n,
{
    if n <= 0 || n > args.len() {
        Ok((None, None, None, seq![]))
    } else {
        match tls_run(args, n - 1) {
            Err(m) => Err(m),
            Ok(st) => tls_step(args[n - 1], st),
        }
    }
}

/// A `tls(...)` policy; a client certificate and key come together, and a TLS 1.3 minimum with
/// an explicit cipher list needs a TLS 1.3 suite in it.
pub open spec fn tls_spec(args: Seq<Seq<char>>) -> Result<TlsView, Seq<char>> {
    if args.len() == 0 {
        Err("tls requires at least one option"@)
    } else {
        match tls_run(args, args.len() as int) {
            Err(m) => Err(m),
            Ok(st) => if (st.0 is Some) != (st.1 is Some) {
                Err("tls client-cert and client-key must be configured together"@)
            } else if st.2 == Some(TlsMinVersion::Tls13) && st.3.len() > 0 && (forall|i: int|
                0 <= i < st.3.len() ==> !(#[trigger] st.3[i]).tls13()) {
                Err("tls min=1.3 requires at least one TLS 1.3 cipher suite"@)
            } else {
                Ok(st)
            },
        }
    }
}

proof fn lemma_tls_failure(args: Seq<Seq<char>>, n: int, m: int)
    requires
        0 <= n <= m <= args.len(),
        tls_run(args, n) is Err,
    ensures
        tls_run(args, m) == tls_run(args, n),
    decreases m - n,
{
    if m > n {
        lemma_tls_failure(args, n, m - 1);
    }
}

fn push_ciphers(pieces: &Vec<Vec<char>>, ciphers: &mut Vec<TlsCipherSuite>) -> (r: Result<
    (),
    String,
>)
    ensures
        match (r, add_ciphers(pieces@.map_values(|v: Vec<char>| v@), pieces@.len() as int, old(ciphers)@)) {
            (Ok(()), Ok(cs)) => final(ciphers)@ == cs,
            (Err(m), Err(n)) => m@ == n,
            _ => false,
        },
{
    let ghost ps = pieces@.map_values(|v: Vec<char>| v@);
    let ghost acc = ciphers@;
    let mut i: usize = 0;
    while i < pieces.len()
        invariant
            i <= pieces@.len(),
            ps == pieces@.map_values(|v: Vec<char>| v@),
            acc == old(ciphers)@,
            add_ciphers(ps, i as int, acc) == Ok::<Seq<TlsCipherSuite>, Seq<char>>(ciphers@),
        decreases pieces@.len() - i,
    {
        assert(ps[i as int] == pieces@[i as int]@);
        let c = match parse_tls_cipher_suite(&pieces[i]) {
            Ok(c) => c,
            Err(m) => {
                proof {
                    assert(add_ciphers(ps, i + 1, acc) == Err::<Seq<TlsCipherSuite>, Seq<char>>(
                        "unsupported tls cipher suite `"@ + ps[i as int] + "`"@,
                    ));
                    lemma_add_ciphers_failure(ps, i + 1, ps.len() as int, acc);
                }
                return Err(m);
            },
        };
        let mut seen = false;
        let mut j: usize = 0;
        while j < ciphers.len()
            invariant
                j <= ciphers@.len(),
                seen == exists|k: int| 0 <= k < j && ciphers@[k] == c,
            decreases ciphers@.len() - j,
        {
            if ciphers[j] == c {
                seen = true;
            }
            j += 1;
        }
        if !seen {
            ciphers.push(c);
        }
        i += 1;
    }
    Ok(())
}

proof fn lemma_add_ciphers_failure(ps: Seq<Seq<char>>, n: int, m: int, acc: Seq<TlsCipherSuite>)
    requires
        0 <= n <= m <= ps.len(),
        add_ciphers(ps, n, acc) is Err,
    ensures
        add_ciphers(ps, m, acc) == add_ciphers(ps, n, acc),
    decreases m - n,
{
    if m > n {
        lemma_add_ciphers_failure(ps, n, m - 1, acc);
    }
}

/// The state of `tls(...)` parsing.
struct TlsState {
    client_cert: Option<String>,
    client_key: Option<String>,
    min_version: Option<TlsMinVersion>,
    ciphers: Vec<TlsCipherSuite>,
}

impl View for TlsState {
    type V = TlsView;

    closed spec fn view(&self) -> TlsView {
        (opt_text(self.client_cert), opt_text(self.client_key), self.min_version, self.ciphers@)
    }
}

fn tls_apply(arg: &[char], st: &mut TlsState) -> (r: Result<(), String>)
    ensures
        match (r, tls_step(arg@, old(st)@)) {
            (Ok(()), Ok(v)) => final(st)@ == v,
            (Err(m), Err(n)) => m@ == n,
            _ => false,
        },
{
    let (k, v) = match split_once_exec(arg, '=') {
        Some(p) => p,
        None => {
            return Err(lit("tls options must use key=value syntax"));
        },
    };
    let low = lower_chars(&trim_chars(&k));
    let mut key: Vec<char> = Vec::new();
    let mut i: usize = 0;
    while i < low.len()
        invariant
            i <= low@.len(),
            key@ == low@.take(i as int).map_values(|c: char| if c == '_' { '-' } else { c }),
        decreases low@.len() - i,
    {
        let c = low[i];
        key.push(if c == '_' { '-' } else { c });
        assert(low@.take(i + 1).map_values(|c: char| if c == '_' { '-' } else { c }) =~= low@.take(
            i as int,
        ).map_values(|c: char| if c == '_' { '-' } else { c }).push(if c == '_' { '-' } else { c }));
        i += 1;
    }
    assert(low@.take(low@.len() as int) == low@);
    if eq_lit(&key, "client-cert") {
        let p = normalize_tls_path(&v);
        if p.len() == 0 {
            return Err(lit("tls client-cert must not be empty"));
        }
        st.client_cert = Some(string_of(&p));
        return Ok(());
    }
    if eq_lit(&key, "client-key") {
        let p = normalize_tls_path(&v);
        if p.len() == 0 {
            return Err(lit("tls client-key must not be empty"));
        }
        st.client_key = Some(string_of(&p));
        return Ok(());
    }
    if eq_lit(&key, "min") || eq_lit(&key, "min-version") {
        let text = string_of(&v);
        let u = chars_of(unquote(text.as_str()).as_str());
        st.min_version = Some(parse_tls_min_version(&u)?);
        return Ok(());
    }
    if eq_lit(&key, "cipher") || eq_lit(&key, "ciphers") {
        let text = string_of(&v);
        let u = chars_of(unquote(text.as_str()).as_str());
        if u.len() == 0 {
            return Err(lit("tls ciphers must not be empty"));
        }
        let pieces = split_cipher_list(&u);
        return push_ciphers(&pieces, &mut st.ciphers);
    }
    let kt = string_of(&key);
    Err(concat3(
        "unsupported tls option `",
        kt.as_str(),
        "`; supported: client-cert, client-key, min, ciphers",
    ))
}

/// Parses the arguments of `tls(...)`; errors are messages.
pub fn parse_tls_op(args: &[String]) -> (r: Result<TlsOp, String>)
    ensures
        match (r, tls_spec(args@.map_values(|x: String| x@))) {
            (Ok(t), Ok(v)) => tls_view(t) == v,
            (Err(m), Err(n)) => m@ == n,
            _ => false,
        },
{
    let ghost a = args@.map_values(|x: String| x@);
    if args.len() == 0 {
        return Err(lit("tls requires at least one option"));
    }
    let mut st = TlsState { client_cert: None, client_key: None, min_version: None, ciphers: Vec::new() };
    let mut i: usize = 0;
    while i < args.len()
        invariant
            i <= args@.len(),
            args@.len() > 0,
            a == args@.map_values(|x: String| x@),
            tls_run(a, i as int) == Ok::<TlsView, Seq<char>>(st@),
        decreases args@.len() - i,
    {
        assert(a[i as int] == args@[i as int]@);
        let arg = chars_of(args[i].as_str());
        match tls_apply(&arg, &mut st) {
            Ok(()) => {},
            Err(m) => {
                proof {
                    lemma_tls_failure(a, i + 1, a.len() as int);
                }
                return Err(m);
            },
        }
        i += 1;
    }
    if st.client_cert.is_some() != st.client_key.is_some() {
        return Err(lit("tls client-cert and client-key must be configured together"));
    }
    let tls13_min = match st.min_version {
        Some(TlsMinVersion::Tls13) => true,
        _ => false,
    };
    if tls13_min && st.ciphers.len() > 0 {
        let mut any13 = false;
        let mut j: usize = 0;
        while j < st.ciphers.len()
            invariant
                j <= st.ciphers@.len(),
                any13 == exists|k: int| 0 <= k < j && (#[trigger] st.ciphers@[k]).tls13(),
            decreases st.ciphers@.len() - j,
        {
            if st.ciphers[j].is_tls13() {
                any13 = true;
            }
            j += 1;
        }
        if !any13 {
            return Err(lit("tls min=1.3 requires at least one TLS 1.3 cipher suite"));
        }
    }
    Ok(TlsOp {
        client_cert: st.client_cert,
        client_key: st.client_key,
        min_version: st.min_version,
        ciphers: st.ciphers,
    })
}

} // verus!
