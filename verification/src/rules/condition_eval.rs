//! Evaluation of rule conditions against a request (and, in the response phase, its response),
//! with glob programs and body literals compiled once per snapshot.
use crate::rules::bounded_replace::opt_texts;
use crate::rules::compiled::{
    glob_compiles, host_match_spec, id_matches, ip_match_spec, key_id, CompiledGlobSet, GlobId,
};
use crate::rules::condition::{lemma_child_decreases, Condition, UrlCondition};
use crate::rules::evaluate::{add_keys, keys_compile};
use crate::rules::regex_matcher::regex_groups_spec;
use crate::rules::matching::{
    chance, contains_ascii_case_insensitive, contains_ci, glob_active, glob_syntax_is_active,
    header, header_value, host_pattern_uses_regex, host_uses_regex, sampled, strip_brackets,
    trim_brackets, RequestMeta, ResponseMeta,
};
use crate::rules::url::UrlParts;
use crate::text::{
    chars_of, ci_eq, ci_eq_str, lower_chars, lower_seq, seq_eq, str_eq, string_of, to_lower, trim,
    trim_chars, views,
};
use aho_corasick::AhoCorasick;
use vstd::prelude::*;
use vstd::utf8::encode_utf8;

verus! {

// ---------------------------------------------------------------------------
// Request text
// ---------------------------------------------------------------------------

/// The text of `bytes` decoded as UTF-8, each invalid sequence replaced by U+FFFD.
pub uninterp spec fn utf8_lossy(bytes: Seq<u8>) -> Seq<char>;

/// `String::from_utf8_lossy`: the bytes decoded as UTF-8 with replacement; bytes that are the
/// UTF-8 encoding of a text decode to that text.
#[verifier::external_body]
fn lossy_text(bytes: &[u8]) -> (r: String)
    ensures
        r@ == utf8_lossy(bytes@),
        forall|s: Seq<char>| bytes@ == #[trigger] encode_utf8(s) ==> r@ == s,
{
    String::from_utf8_lossy(bytes).into_owned()
}

/// The socket-address reading of an IP text: the IP of `value` where the table lists one for
/// it, the first listing counting.
pub open spec fn socket_ip_of(table: Seq<(String, String)>, value: Seq<char>) -> Option<Seq<char>>
    decreases table.len(),
{
    if table.len() == 0 {
        None
    } else if table[0].0@ == value {
        Some(table[0].1@)
    } else {
        socket_ip_of(table.drop_first(), value)
    }
}

/// An IP text in the form conditions compare: the IP of a socket address (`ip:port`,
/// `[ip]:port`) where it reads as one, else the text trimmed and without square brackets.
pub open spec fn normalized_ip(table: Seq<(String, String)>, value: Seq<char>) -> Seq<char> {
    match socket_ip_of(table, value) {
        Some(ip) => ip,
        None => strip_brackets(trim(value)),
    }
}

/// Normalizes an IP text. `socket_ips` lists, for texts that read as socket addresses, the text
/// of their IP; a text it does not list is taken as a bare address.
pub fn normalize_ip_value(value: &str, socket_ips: &Vec<(String, String)>) -> (r: String)
    ensures
        r@ == normalized_ip(socket_ips@, value@),
{
    let mut i: usize = 0;
    assert(socket_ips@.skip(0) =~= socket_ips@);
    while i < socket_ips.len()
        invariant
            i <= socket_ips@.len(),
            socket_ip_of(socket_ips@, value@) == socket_ip_of(socket_ips@.skip(i as int), value@),
        decreases socket_ips@.len() - i,
    {
        assert(socket_ips@.skip(i as int)[0] == socket_ips@[i as int]);
        assert(socket_ips@.skip(i as int).drop_first() =~= socket_ips@.skip(i + 1));
        if str_eq(socket_ips[i].0.as_str(), value) {
            return socket_ips[i].1.clone();
        }
        i += 1;
    }
    let t = trim_chars(&chars_of(value));
    string_of(&trim_brackets(&t))
}

// ---------------------------------------------------------------------------
// Body literals
// ---------------------------------------------------------------------------

#[verifier::external_type_specification]
#[verifier::external_body]
pub struct ExAhoCorasick(AhoCorasick);

/// Whether `aho_corasick` builds an ASCII-case-insensitive, standard-semantics automaton over
/// the given patterns.
pub uninterp spec fn automaton_builds(literals: Seq<Seq<char>>) -> bool;

/// `AhoCorasickBuilder` with ASCII case insensitivity and standard match semantics, built over
/// `literals`; `None` where the crate refuses them.
#[verifier::external_body]
fn build_automaton(literals: &Vec<String>) -> (r: Option<AhoCorasick>)
    ensures
        r is Some == automaton_builds(views(literals@)),
{
    aho_corasick::AhoCorasickBuilder::new()
        .ascii_case_insensitive(true)
        .match_kind(aho_corasick::MatchKind::Standard)
        .build(literals)
        .ok()
}

/// An automaton over a list of literals, kept with the literals it was built from.
#[derive(Debug)]
struct LiteralScanner {
    literals: Vec<String>,
    automaton: AhoCorasick,
}

/// The pattern of every overlapping match of the scanner's automaton in `text`. The crate
/// reports all matches at every position (an empty literal matching at each), so a literal's
/// index is reported exactly when the literal occurs in `text` ignoring ASCII case; the
/// automaton was built from the scanner's literals.
#[verifier::external_body]
fn overlapping_pattern_ids(scanner: &LiteralScanner, text: &str) -> (r: Vec<usize>)
    ensures
        forall|j: int| 0 <= j < r@.len() ==> #[trigger] r@[j] < scanner.literals@.len(),
        forall|i: int|
            0 <= i < scanner.literals@.len() ==> (r@.contains(i as usize) <==> contains_ci(
                encode_utf8(text@),
                encode_utf8(#[trigger] scanner.literals@[i]@),
            )),
{
    scanner.automaton.find_overlapping_iter(text).map(|m| m.pattern().as_usize()).collect()
}

/// Position of a literal within its [`CompiledBodyContainsSet`].
#[derive(Clone, Copy, Debug, PartialEq, Eq, Structural)]
pub struct BodyLiteralId(pub usize);

/// Body-containment literals compiled once with a rule snapshot: the distinct ASCII-lowercased
/// literals, and the id of each source literal.
#[derive(Debug)]
pub struct CompiledBodyContainsSet {
    literals: Vec<String>,
    literal_ids: Vec<(String, usize)>,
    scanner: Option<LiteralScanner>,
}

/// `s` without repeats, each kept at its first occurrence.
pub open spec fn dedup(s: Seq<Seq<char>>) -> Seq<Seq<char>>
    decreases s.len(),
{
    if s.len() == 0 {
        seq![]
    } else {
        let d = dedup(s.drop_last());
        if d.contains(s.last()) {
            d
        } else {
            d.push(s.last())
        }
    }
}

/// The ASCII lowercase of each text.
pub open spec fn lowered(s: Seq<Seq<char>>) -> Seq<Seq<char>> {
    s.map_values(|t: Seq<char>| lower_seq(t))
}

proof fn lemma_dedup_step(s: Seq<Seq<char>>, i: int)
    requires
        0 <= i < s.len(),
    ensures
        dedup(s.take(i + 1)) == if dedup(s.take(i)).contains(s[i]) {
            dedup(s.take(i))
        } else {
            dedup(s.take(i)).push(s[i])
        },
{
    assert(s.take(i + 1).drop_last() =~= s.take(i));
}

impl CompiledBodyContainsSet {
    #[verifier::type_invariant]
    closed spec fn inv(&self) -> bool {
        &&& forall|a: int, b: int|
            0 <= a < b < self.literals@.len() ==> #[trigger] self.literals@[a]@ != #[trigger] self.literals@[b]@
        &&& forall|k: int|
            0 <= k < self.literal_ids@.len() ==> #[trigger] self.literal_ids@[k].1 < self.literals@.len()
                && self.literals@[self.literal_ids@[k].1 as int]@ == lower_seq(self.literal_ids@[k].0@)
        &&& match self.scanner {
            Some(s) => views(s.literals@) == views(self.literals@),
            None => self.literals@.len() == 0,
        }
    }

    /// The distinct lowercased literals, in id order.
    pub closed spec fn literal_texts(&self) -> Seq<Seq<char>> {
        views(self.literals@)
    }

    /// The source literals that have an id.
    pub closed spec fn sources(&self) -> Seq<Seq<char>> {
        self.literal_ids@.map_values(|p: (String, usize)| p.0@)
    }

    /// The distinct ASCII-lowercased literals and the id of each source literal.
    fn literal_table(source_literals: &Vec<String>) -> (r: (Vec<String>, Vec<(String, usize)>))
        ensures
            views(r.0@) == dedup(lowered(views(source_literals@))),
            r.1@.map_values(|p: (String, usize)| p.0@) == views(source_literals@),
            forall|a: int, b: int|
                0 <= a < b < r.0@.len() ==> #[trigger] r.0@[a]@ != #[trigger] r.0@[b]@,
            forall|k: int|
                0 <= k < r.1@.len() ==> #[trigger] r.1@[k].1 < r.0@.len() && r.0@[r.1@[k].1 as int]@
                    == lower_seq(r.1@[k].0@),
    {
        let ghost src = views(source_literals@);
        let mut literals: Vec<String> = Vec::new();
        let mut literal_ids: Vec<(String, usize)> = Vec::new();
        let mut i: usize = 0;
        assert(lowered(src.take(0)) =~= Seq::<Seq<char>>::empty());
        assert(views(literals@) =~= Seq::<Seq<char>>::empty());
        assert(literal_ids@.map_values(|p: (String, usize)| p.0@) =~= src.take(0));
        while i < source_literals.len()
            invariant
                i <= source_literals@.len(),
                src == views(source_literals@),
                views(literals@) == dedup(lowered(src.take(i as int))),
                forall|a: int, b: int|
                    0 <= a < b < literals@.len() ==> #[trigger] literals@[a]@ != #[trigger] literals@[b]@,
                forall|k: int|
                    0 <= k < literal_ids@.len() ==> #[trigger] literal_ids@[k].1 < literals@.len()
                        && literals@[literal_ids@[k].1 as int]@ == lower_seq(literal_ids@[k].0@),
                literal_ids@.map_values(|p: (String, usize)| p.0@) == src.take(i as int),
            decreases source_literals@.len() - i,
        {
            let ghost before_lits = views(literals@);
            let ghost before_ids = literal_ids@.map_values(|p: (String, usize)| p.0@);
            let low = to_lower(source_literals[i].as_str());
            assert(src[i as int] == source_literals@[i as int]@);
            proof {
                assert(lowered(src.take(i + 1)) =~= lowered(src.take(i as int)).push(lower_seq(src[i as int])));
                lemma_dedup_step(lowered(src.take(i + 1)), i as int);
                assert(lowered(src.take(i + 1)).take(i as int) =~= lowered(src.take(i as int)));
                assert(lowered(src.take(i + 1)).take(i + 1) =~= lowered(src.take(i + 1)));
                assert(lowered(src.take(i + 1))[i as int] == low@);
            }
            let mut found: usize = literals.len();
            let mut j: usize = 0;
            while j < literals.len()
                invariant
                    j <= literals@.len(),
                    found == literals@.len() ==> forall|k: int| 0 <= k < j ==> literals@[k]@ != low@,
                    found < literals@.len() ==> literals@[found as int]@ == low@,
                    found <= literals@.len(),
                decreases literals@.len() - j,
            {
                if found == literals.len() && str_eq(literals[j].as_str(), low.as_str()) {
                    found = j;
                }
                j += 1;
            }
            let id: usize;
            if found < literals.len() {
                id = found;
                assert(before_lits[found as int] == low@);
                assert(before_lits.contains(low@));
            } else {
                id = literals.len();
                proof {
                    if before_lits.contains(low@) {
                        let k = choose|k: int| 0 <= k < before_lits.len() && before_lits[k] == low@;
                        assert(literals@[k]@ == low@);
                    }
                }
                let copy = string_of(&chars_of(low.as_str()));
                literals.push(copy);
                assert(views(literals@) =~= before_lits.push(low@));
            }
            assert(id < literals@.len() && literals@[id as int]@ == low@) by {
                if found < literals@.len() {
                    assert(literals@[found as int]@ == low@);
                }
            }
            literal_ids.push((source_literals[i].clone(), id));
            assert(literal_ids@.map_values(|p: (String, usize)| p.0@) =~= before_ids.push(src[i as int]));
            assert(src.take(i + 1) =~= src.take(i as int).push(src[i as int]));
            i += 1;
        }
        assert(src.take(i as int) =~= src);
        (literals, literal_ids)
    }

    /// Compiles the literals of `body.contains` conditions: they are ASCII-lowercased and
    /// de-duplicated, and each source literal gets the id of its lowercase form.
    pub(crate) fn from_literals(source_literals: &Vec<String>) -> (r: Self)
        requires
            dedup(lowered(views(source_literals@))).len() > 0 ==> automaton_builds(
                dedup(lowered(views(source_literals@))),
            ),
        ensures
            r.literal_texts() == dedup(lowered(views(source_literals@))),
            r.sources() == views(source_literals@),
    {
        match Self::try_from_literals(source_literals) {
            Some(r) => r,
            None => {
                assert(false);
                CompiledBodyContainsSet { literals: Vec::new(), literal_ids: Vec::new(), scanner: None }
            },
        }
    }

    /// Compiles the literals of `body.contains` conditions as [`Self::from_literals`] does;
    /// `None` where the automaton crate refuses the literals.
    pub fn try_from_literals(source_literals: &Vec<String>) -> (r: Option<Self>)
        ensures
            r is Some <==> (dedup(lowered(views(source_literals@))).len() > 0 ==> automaton_builds(
                dedup(lowered(views(source_literals@))),
            )),
            r matches Some(set) ==> set.literal_texts() == dedup(lowered(views(source_literals@)))
                && set.sources() == views(source_literals@),
    {
        let (literals, literal_ids) = Self::literal_table(source_literals);
        let scanner = if literals.len() == 0 {
            None
        } else {
            match build_automaton(&literals) {
                Some(automaton) => Some(LiteralScanner { literals: crate::text::clone_strings(&literals), automaton }),
                None => {
                    return None;
                },
            }
        };
        Some(CompiledBodyContainsSet { literals, literal_ids, scanner })
    }

    /// Number of distinct compiled literals.
    pub fn len(&self) -> (r: usize)
        ensures
            r == self.literal_texts().len(),
    {
        self.literals.len()
    }

    /// The id of a source literal.
    pub fn id(&self, literal: &str) -> (r: Option<BodyLiteralId>)
        ensures
            r is Some <==> self.sources().contains(literal@),
            r matches Some(b) ==> b.0 < self.literal_texts().len() && self.literal_texts()[b.0 as int]
                == lower_seq(literal@),
    {
        proof {
            use_type_invariant(self);
        }
        let mut k: usize = 0;
        while k < self.literal_ids.len()
            invariant
                k <= self.literal_ids@.len(),
                forall|j: int| 0 <= j < k ==> self.literal_ids@[j].0@ != literal@,
            decreases self.literal_ids@.len() - k,
        {
            if str_eq(self.literal_ids[k].0.as_str(), literal) {
                proof {
                    use_type_invariant(self);
                    let id = self.literal_ids@[k as int].1 as int;
                    assert(id < self.literals@.len());
                    assert(self.literal_texts()[id] == self.literals@[id]@);
                }
                assert(self.sources()[k as int] == literal@);
                return Some(BodyLiteralId(self.literal_ids[k].1));
            }
            k += 1;
        }
        proof {
            if self.sources().contains(literal@) {
                let j = choose|j: int| 0 <= j < self.sources().len() && self.sources()[j] == literal@;
                assert(self.literal_ids@[j].0@ == literal@);
            }
        }
        None
    }

    /// Whether literal `id` was found, given the result of [`Self::scan`].
    pub fn matches_id(&self, id: BodyLiteralId, matched: &[bool]) -> (r: bool)
        ensures
            r == (id.0 < matched@.len() && matched@[id.0 as int]),
    {
        if id.0 < matched.len() {
            matched[id.0]
        } else {
            false
        }
    }

    /// Which literals occur in `text`, ignoring ASCII case.
    pub fn scan(&self, text: &str) -> (r: Vec<bool>)
        ensures
            r@.len() == self.literal_texts().len(),
            forall|i: int|
                0 <= i < r@.len() ==> #[trigger] r@[i] == contains_ci(
                    encode_utf8(text@),
                    encode_utf8(self.literal_texts()[i]),
                ),
    {
        proof {
            use_type_invariant(self);
        }
        let n = self.literals.len();
        let mut matched: Vec<bool> = Vec::new();
        let found = match &self.scanner {
            Some(scanner) => overlapping_pattern_ids(scanner, text),
            None => Vec::new(),
        };
        let mut i: usize = 0;
        while i < n
            invariant
                n == self.literals@.len(),
                i <= n,
                matched@.len() == i,
                self.scanner is None ==> n == 0,
                self.scanner matches Some(s) ==> forall|q: int|
                    0 <= q < s.literals@.len() ==> (found@.contains(q as usize) <==> contains_ci(
                        encode_utf8(text@),
                        encode_utf8(#[trigger] s.literals@[q]@),
                    )),
                self.scanner matches Some(s) ==> views(s.literals@) == views(self.literals@),
                forall|q: int|
                    0 <= q < i ==> #[trigger] matched@[q] == contains_ci(
                        encode_utf8(text@),
                        encode_utf8(self.literals@[q]@),
                    ),
            decreases n - i,
        {
            let mut seen = false;
            let mut j: usize = 0;
            while j < found.len()
                invariant
                    j <= found@.len(),
                    seen == exists|k: int| 0 <= k < j && found@[k] == i,
                decreases found@.len() - j,
            {
                if found[j] == i {
                    seen = true;
                }
                j += 1;
            }
            proof {
                if seen {
                    let k = choose|k: int| 0 <= k < found@.len() && found@[k] == i;
                    assert(found@.contains(i));
                } else if found@.contains(i) {
                    let k = choose|k: int| 0 <= k < found@.len() && found@[k] == i;
                    assert(false);
                }
                if self.scanner is Some {
                    let s = self.scanner->0;
                    assert(views(s.literals@).len() == s.literals@.len());
                    assert(views(self.literals@).len() == self.literals@.len());
                    assert(views(s.literals@)[i as int] == s.literals@[i as int]@);
                    assert(views(self.literals@)[i as int] == self.literals@[i as int]@);
                    assert(s.literals@[i as int]@ == self.literals@[i as int]@);
                }
            }
            matched.push(seen);
            i += 1;
        }
        proof {
            assert forall|q: int| 0 <= q < matched@.len() implies #[trigger] matched@[q] == contains_ci(
                encode_utf8(text@),
                encode_utf8(self.literal_texts()[q]),
            ) by {
                assert(self.literal_texts()[q] == self.literals@[q]@);
            }
        }
        matched
    }
}

// ---------------------------------------------------------------------------
// Per-request cache and match context
// ---------------------------------------------------------------------------

/// Values derived from one request once and shared by every condition evaluated for it: the
/// normalized client and server IPs, and (computed on first use) the body as lossy UTF-8 text
/// and which compiled body literals it contains.
pub struct ConditionCache<'a> {
    req: &'a RequestMeta,
    client_ip: Option<String>,
    server_ip: Option<String>,
    body_text: Option<String>,
    body_literal_matches: Option<Vec<bool>>,
}

/// The normalized form of an optional IP text.
pub open spec fn normalized_opt(table: Seq<(String, String)>, v: Option<String>) -> Option<Seq<char>> {
    match v {
        Some(t) => Some(normalized_ip(table, t@)),
        None => None,
    }
}

/// Whether each of `lits` occurs in the request body, ignoring ASCII case.
pub open spec fn body_literal_hits(body: Seq<u8>, lits: Seq<Seq<char>>, m: Seq<bool>) -> bool {
    m.len() == lits.len() && forall|i: int|
        0 <= i < m.len() ==> #[trigger] m[i] == contains_ci(encode_utf8(utf8_lossy(body)), encode_utf8(lits[i]))
}

impl<'a> ConditionCache<'a> {
    /// The request the cache belongs to.
    pub closed spec fn request(&self) -> RequestMeta {
        *self.req
    }

    /// The normalized client IP.
    pub closed spec fn client_ip_text(&self) -> Option<Seq<char>> {
        match self.client_ip {
            Some(t) => Some(t@),
            None => None,
        }
    }

    /// The normalized server IP.
    pub closed spec fn server_ip_text(&self) -> Option<Seq<char>> {
        match self.server_ip {
            Some(t) => Some(t@),
            None => None,
        }
    }

    /// Whatever the cache has computed agrees with the request and the literals `lits`.
    pub closed spec fn consistent(&self, lits: Seq<Seq<char>>) -> bool {
        &&& self.body_text matches Some(t) ==> t@ == utf8_lossy(self.req.body@)
        &&& self.body_literal_matches matches Some(m) ==> body_literal_hits(self.req.body@, lits, m@)
    }

    /// A cache for `req`; `socket_ips` gives the IP of each request IP text that reads as a
    /// socket address (see [`normalize_ip_value`]).
    pub fn new(req: &'a RequestMeta, socket_ips: &Vec<(String, String)>) -> (r: Self)
        ensures
            r.request() == *req,
            r.client_ip_text() == normalized_opt(socket_ips@, req.client_ip),
            r.server_ip_text() == normalized_opt(socket_ips@, req.server_ip),
            forall|lits: Seq<Seq<char>>| #[trigger] r.consistent(lits),
    {
        let client_ip = match &req.client_ip {
            Some(v) => Some(normalize_ip_value(v.as_str(), socket_ips)),
            None => None,
        };
        let server_ip = match &req.server_ip {
            Some(v) => Some(normalize_ip_value(v.as_str(), socket_ips)),
            None => None,
        };
        ConditionCache { req, client_ip, server_ip, body_text: None, body_literal_matches: None }
    }

    fn ensure_body_text(&mut self, Ghost(lits): Ghost<Seq<Seq<char>>>)
        requires
            old(self).consistent(lits),
        ensures
            final(self).consistent(lits),
            final(self).req == old(self).req,
            final(self).client_ip == old(self).client_ip,
            final(self).server_ip == old(self).server_ip,
            final(self).body_text matches Some(t) && t@ == utf8_lossy(final(self).req.body@),
    {
        if self.body_text.is_none() {
            self.body_text = Some(lossy_text(self.req.body.as_slice()));
        }
    }

    /// Whether the request body contains body literal `id`, scanning the body once for all
    /// literals of `compiled`.
    fn body_contains(&mut self, compiled: &CompiledBodyContainsSet, id: BodyLiteralId) -> (r: bool)
        requires
            old(self).consistent(compiled.literal_texts()),
        ensures
            final(self).consistent(compiled.literal_texts()),
            final(self).req == old(self).req,
            final(self).client_ip == old(self).client_ip,
            final(self).server_ip == old(self).server_ip,
            r == (id.0 < compiled.literal_texts().len() && contains_ci(
                encode_utf8(utf8_lossy(old(self).req.body@)),
                encode_utf8(compiled.literal_texts()[id.0 as int]),
            )),
    {
        self.ensure_body_text(Ghost(compiled.literal_texts()));
        if self.body_literal_matches.is_none() {
            let m = match &self.body_text {
                Some(t) => compiled.scan(t.as_str()),
                None => Vec::new(),
            };
            self.body_literal_matches = Some(m);
        }
        match &self.body_literal_matches {
            Some(m) => {
                let r = compiled.matches_id(id, m.as_slice());
                proof {
                    if id.0 < compiled.literal_texts().len() {
                        assert(m@[id.0 as int] == contains_ci(
                            encode_utf8(utf8_lossy(self.req.body@)),
                            encode_utf8(compiled.literal_texts()[id.0 as int]),
                        ));
                    }
                }
                r
            },
            None => false,
        }
    }
}

/// What conditions of one rule are evaluated against besides the request: the parsed URL, the
/// response in the response phase, the rule's source line, the snapshot's compiled globs and
/// body literals, and the value of each environment variable the rules name.
pub struct ConditionMatchContext<'c> {
    pub url: Option<&'c UrlParts>,
    pub res: Option<&'c ResponseMeta>,
    pub line: usize,
    pub globs: &'c CompiledGlobSet,
    pub body_literals: &'c CompiledBodyContainsSet,
    pub env: &'c Vec<(String, Option<String>)>,
}

impl<'c> ConditionMatchContext<'c> {
    /// A context over compiled snapshot resources.
    pub fn compiled(
        url: Option<&'c UrlParts>,
        res: Option<&'c ResponseMeta>,
        line: usize,
        globs: &'c CompiledGlobSet,
        body_literals: &'c CompiledBodyContainsSet,
        env: &'c Vec<(String, Option<String>)>,
    ) -> (r: Self)
        ensures
            r == (ConditionMatchContext { url, res, line, globs, body_literals, env }),
    {
        ConditionMatchContext { url, res, line, globs, body_literals, env }
    }

    /// The same resources for another rule's source line.
    pub fn with_line(&self, line: usize) -> (r: Self)
        ensures
            r == (ConditionMatchContext { line, ..*self }),
    {
        ConditionMatchContext {
            url: self.url,
            res: self.res,
            line,
            globs: self.globs,
            body_literals: self.body_literals,
            env: self.env,
        }
    }
}

// ---------------------------------------------------------------------------
// Condition resources
// ---------------------------------------------------------------------------

/// The compiled programs and literals a condition uses, bound once per snapshot.
#[derive(Debug)]
pub enum CompiledConditionResources {
    /// The condition uses nothing compiled.
    Unbound,
    /// Program of a host pattern that needs one.
    Host(Option<GlobId>),
    /// Program of a URL glob that uses glob syntax.
    UrlGlob(Option<GlobId>),
    /// Each client-IP pattern, normalized, with its program where it needs one.
    ClientIp(Vec<(String, Option<GlobId>)>),
    /// Each server-IP pattern, normalized, with its program where it needs one.
    ServerIp(Vec<(String, Option<GlobId>)>),
    /// Id of a body literal.
    BodyContains(BodyLiteralId),
    /// Resources of each nested condition.
    Children(Vec<CompiledConditionResources>),
    /// Resources of a negated condition.
    Not(Box<CompiledConditionResources>),
}

/// Whether a condition reads response metadata anywhere in its tree.
pub open spec fn response_dependent(c: Condition) -> bool
    decreases c,
{
    match c {
        Condition::ResHeaderPresent(_) => true,
        Condition::ResHeaderContains { .. } => true,
        Condition::Status(_) => true,
        Condition::Any(cs) => any_response_dependent(cs@),
        Condition::All(cs) => any_response_dependent(cs@),
        Condition::Not(inner) => response_dependent(*inner),
        _ => false,
    }
}

/// Whether any of `cs` reads response metadata.
pub open spec fn any_response_dependent(cs: Seq<Condition>) -> bool
    decreases cs,
{
    if cs.len() == 0 {
        false
    } else {
        any_response_dependent(cs.drop_last()) || response_dependent(cs.last())
    }
}

proof fn lemma_any_dependent_prefix(cs: Seq<Condition>, n: int)
    requires
        0 <= n <= cs.len(),
    ensures
        any_response_dependent(cs.take(n)) ==> any_response_dependent(cs),
    decreases cs.len() - n,
{
    if n < cs.len() {
        lemma_any_dependent_prefix(cs.drop_last(), n);
        assert(cs.drop_last().take(n) =~= cs.take(n));
    } else {
        assert(cs.take(n) =~= cs);
    }
}

impl Condition {
    /// Whether the condition reads response metadata anywhere in its tree.
    pub fn depends_on_response(&self) -> (r: bool)
        ensures
            r == response_dependent(*self),
        decreases self,
    {
        match self {
            Condition::ResHeaderPresent(_) | Condition::ResHeaderContains { .. } | Condition::Status(_) => true,
            Condition::Any(cs) => {
                let mut i: usize = 0;
                while i < cs.len()
                    invariant
                        i <= cs@.len(),
                        *self == Condition::Any(*cs),
                        !any_response_dependent(cs@.take(i as int)),
                    decreases cs@.len() - i,
                {
                    proof {
                        lemma_child_decreases(*self, *cs, i as int);
                        assert(cs@.take(i + 1).drop_last() =~= cs@.take(i as int));
                        lemma_any_dependent_prefix(cs@, i + 1);
                    }
                    if cs[i].depends_on_response() {
                        return true;
                    }
                    i += 1;
                }
                assert(cs@.take(i as int) =~= cs@);
                false
            },
            Condition::All(cs) => {
                let mut i: usize = 0;
                while i < cs.len()
                    invariant
                        i <= cs@.len(),
                        *self == Condition::All(*cs),
                        !any_response_dependent(cs@.take(i as int)),
                    decreases cs@.len() - i,
                {
                    proof {
                        lemma_child_decreases(*self, *cs, i as int);
                        assert(cs@.take(i + 1).drop_last() =~= cs@.take(i as int));
                        lemma_any_dependent_prefix(cs@, i + 1);
                    }
                    if cs[i].depends_on_response() {
                        return true;
                    }
                    i += 1;
                }
                assert(cs@.take(i as int) =~= cs@);
                false
            },
            Condition::Not(inner) => inner.depends_on_response(),
            _ => false,
        }
    }
}

/// The value of the first listed environment variable called `name`, where it is set.
pub open spec fn env_value(env: Seq<(String, Option<String>)>, name: Seq<char>) -> Option<Seq<char>>
    decreases env.len(),
{
    if env.len() == 0 {
        None
    } else if env[0].0@ == name {
        match env[0].1 {
            Some(v) => Some(v@),
            None => None,
        }
    } else {
        env_value(env.drop_first(), name)
    }
}

/// Looks up an environment variable in the listed values.
fn env_lookup(env: &Vec<(String, Option<String>)>, name: &str) -> (r: Option<String>)
    ensures
        match r {
            Some(v) => env_value(env@, name@) == Some(v@),
            None => env_value(env@, name@) is None,
        },
{
    let mut i: usize = 0;
    assert(env@.skip(0) =~= env@);
    while i < env.len()
        invariant
            i <= env@.len(),
            env_value(env@, name@) == env_value(env@.skip(i as int), name@),
        decreases env@.len() - i,
    {
        assert(env@.skip(i as int)[0] == env@[i as int]);
        assert(env@.skip(i as int).drop_first() =~= env@.skip(i + 1));
        if str_eq(env[i].0.as_str(), name) {
            return match &env[i].1 {
                Some(v) => Some(v.clone()),
                None => None,
            };
        }
        i += 1;
    }
    None
}

/// Whether a URL predicate admits the raw request URL: a glob using glob syntax through its
/// compiled program, a plain glob by equality, a regex by matching.
pub open spec fn url_condition_holds(
    keys: Seq<(char, Seq<char>)>,
    uc: UrlCondition,
    raw: Seq<char>,
    r: CompiledConditionResources,
) -> bool {
    match uc {
        UrlCondition::Glob(p) => if glob_active(p@) {
            r matches CompiledConditionResources::UrlGlob(id) && id_matches(keys, id, raw)
        } else {
            p@ == raw
        },
        UrlCondition::Regex(rm) => regex_groups_spec(rm, raw) is Some,
    }
}

impl UrlCondition {
    /// Matches the complete raw URL.
    pub fn matches(&self, raw_url: &str, globs: &CompiledGlobSet, resources: &CompiledConditionResources) -> (r: bool)
        ensures
            r == url_condition_holds(globs.keys(), *self, raw_url@, *resources),
    {
        match self {
            UrlCondition::Glob(pattern) => if glob_syntax_is_active(pattern.as_str()) {
                match resources {
                    CompiledConditionResources::UrlGlob(id) => match id {
                        Some(g) => globs.glob_match_id(*g, raw_url),
                        None => false,
                    },
                    _ => false,
                }
            } else {
                str_eq(pattern.as_str(), raw_url)
            },
            UrlCondition::Regex(regex) => regex.matches(raw_url).is_some(),
        }
    }
}

/// Whether any of the first `n` normalized IP patterns matches `actual`.
pub open spec fn ip_any(keys: Seq<(char, Seq<char>)>, v: Seq<(String, Option<GlobId>)>, n: int, actual: Seq<char>) -> bool {
    exists|i: int| 0 <= i < n && i < v.len() && ip_match_spec(keys, #[trigger] v[i].0@, actual, v[i].1)
}

/// Whether a condition holds for a request, with `ctx` and resources `r` bound for it, the
/// request's normalized client and server IPs `cip` and `sip`.
pub open spec fn condition_holds(
    c: Condition,
    r: CompiledConditionResources,
    ctx: ConditionMatchContext,
    req: RequestMeta,
    cip: Option<Seq<char>>,
    sip: Option<Seq<char>>,
) -> bool
    decreases c,
{
    let keys = ctx.globs.keys();
    match c {
        Condition::Method(ms) => exists|i: int| 0 <= i < ms@.len() && ci_eq(#[trigger] ms@[i]@, req.method@),
        Condition::Host(p) => r matches CompiledConditionResources::Host(id) && ctx.url matches Some(u)
            && host_match_spec(keys, p@, u.host@, id),
        Condition::Url(uc) => url_condition_holds(keys, uc, req.url@, r),
        Condition::ClientIp(ps) => cip matches Some(a) && r matches CompiledConditionResources::ClientIp(v)
            && ip_any(keys, v@, ps@.len() as int, a),
        Condition::ServerIp(ps) => sip matches Some(a) && r matches CompiledConditionResources::ServerIp(v)
            && ip_any(keys, v@, ps@.len() as int, a),
        Condition::HeaderPresent(n) => header_value(req.headers@, n@) is Some,
        Condition::HeaderContains { name, value } => header_value(req.headers@, name@) matches Some(a)
            && contains_ci(encode_utf8(a), encode_utf8(value@)),
        Condition::ResHeaderPresent(n) => ctx.res matches Some(rm) && header_value(rm.headers@, n@) is Some,
        Condition::ResHeaderContains { name, value } => ctx.res matches Some(rm) && header_value(
            rm.headers@,
            name@,
        ) matches Some(a) && contains_ci(encode_utf8(a), encode_utf8(value@)),
        Condition::BodyContains(_) => r matches CompiledConditionResources::BodyContains(id) && id.0
            < ctx.body_literals.literal_texts().len() && contains_ci(
            encode_utf8(utf8_lossy(req.body@)),
            encode_utf8(ctx.body_literals.literal_texts()[id.0 as int]),
        ),
        Condition::BodyRegex(rm) => regex_groups_spec(rm, utf8_lossy(req.body@)) is Some,
        Condition::Status(ss) => ctx.res matches Some(rm) && ss@.contains(rm.status),
        Condition::ChancePermille(p) => sampled(
            encode_utf8(req.url@),
            encode_utf8(req.method@),
            ctx.line as u64,
            p,
        ),
        Condition::EnvPresent(n) => env_value(ctx.env@, n@) is Some,
        Condition::EnvEquals { name, value } => env_value(ctx.env@, name@) == Some(value@),
        Condition::Any(cs) => r matches CompiledConditionResources::Children(rs) && any_holds(
            cs@,
            rs@,
            ctx,
            req,
            cip,
            sip,
        ),
        Condition::All(cs) => r matches CompiledConditionResources::Children(rs) && all_hold(
            cs@,
            rs@,
            ctx,
            req,
            cip,
            sip,
        ),
        Condition::Not(inner) => if ctx.res is None && response_dependent(*inner) {
            false
        } else {
            r matches CompiledConditionResources::Not(ir) && !condition_holds(*inner, *ir, ctx, req, cip, sip)
        },
    }
}

/// Whether any of `cs`, each with the resources at its position in `rs`, holds.
pub open spec fn any_holds(
    cs: Seq<Condition>,
    rs: Seq<CompiledConditionResources>,
    ctx: ConditionMatchContext,
    req: RequestMeta,
    cip: Option<Seq<char>>,
    sip: Option<Seq<char>>,
) -> bool
    decreases cs,
{
    if cs.len() == 0 {
        false
    } else {
        any_holds(cs.drop_last(), rs, ctx, req, cip, sip) || (cs.len() - 1 < rs.len() && condition_holds(
            cs.last(),
            rs[cs.len() - 1],
            ctx,
            req,
            cip,
            sip,
        ))
    }
}

/// Whether each of `cs` that has resources at its position in `rs` holds with them.
pub open spec fn all_hold(
    cs: Seq<Condition>,
    rs: Seq<CompiledConditionResources>,
    ctx: ConditionMatchContext,
    req: RequestMeta,
    cip: Option<Seq<char>>,
    sip: Option<Seq<char>>,
) -> bool
    decreases cs,
{
    if cs.len() == 0 {
        true
    } else {
        all_hold(cs.drop_last(), rs, ctx, req, cip, sip) && (cs.len() - 1 < rs.len() ==> condition_holds(
            cs.last(),
            rs[cs.len() - 1],
            ctx,
            req,
            cip,
            sip,
        ))
    }
}

proof fn lemma_holds_prefix(
    cs: Seq<Condition>,
    rs: Seq<CompiledConditionResources>,
    ctx: ConditionMatchContext,
    req: RequestMeta,
    cip: Option<Seq<char>>,
    sip: Option<Seq<char>>,
    n: int,
)
    requires
        0 <= n <= cs.len(),
    ensures
        any_holds(cs.take(n), rs, ctx, req, cip, sip) ==> any_holds(cs, rs, ctx, req, cip, sip),
        !all_hold(cs.take(n), rs, ctx, req, cip, sip) ==> !all_hold(cs, rs, ctx, req, cip, sip),
        n >= rs.len() ==> any_holds(cs.take(n), rs, ctx, req, cip, sip) == any_holds(cs, rs, ctx, req, cip, sip),
        n >= rs.len() ==> all_hold(cs.take(n), rs, ctx, req, cip, sip) == all_hold(cs, rs, ctx, req, cip, sip),
        n == cs.len() ==> cs.take(n) == cs,
    decreases cs.len() - n,
{
    if n < cs.len() {
        lemma_holds_prefix(cs.drop_last(), rs, ctx, req, cip, sip, n);
        assert(cs.drop_last().take(n) =~= cs.take(n));
    } else {
        assert(cs.take(n) =~= cs);
    }
}

impl Condition {
    /// Evaluates the condition with its bound resources, sharing per-request values through
    /// `cache`.
    pub fn matches_with_compiled(
        &self,
        resources: &CompiledConditionResources,
        context: &ConditionMatchContext,
        cache: &mut ConditionCache,
    ) -> (r: bool)
        requires
            old(cache).consistent(context.body_literals.literal_texts()),
        ensures
            final(cache).consistent(context.body_literals.literal_texts()),
            final(cache).request() == old(cache).request(),
            final(cache).client_ip_text() == old(cache).client_ip_text(),
            final(cache).server_ip_text() == old(cache).server_ip_text(),
            r == condition_holds(
                *self,
                *resources,
                *context,
                old(cache).request(),
                old(cache).client_ip_text(),
                old(cache).server_ip_text(),
            ),
        decreases self,
    {
        let ghost req = cache.request();
        let ghost cip = cache.client_ip_text();
        let ghost sip = cache.server_ip_text();
        match self {
            Condition::Method(methods) => any_method(methods, cache.req.method.as_str()),
            Condition::Host(pattern) => match resources {
                CompiledConditionResources::Host(id) => match context.url {
                    Some(url) => context.globs.host_matches_id(pattern.as_str(), url.host.as_str(), *id),
                    None => false,
                },
                _ => false,
            },
            Condition::Url(condition) => condition.matches(cache.req.url.as_str(), context.globs, resources),
            Condition::ClientIp(patterns) => {
                let actual = match &cache.client_ip {
                    Some(a) => a,
                    None => {
                        return false;
                    },
                };
                match resources {
                    CompiledConditionResources::ClientIp(v) => ip_patterns_match(
                        context.globs,
                        v,
                        patterns.len(),
                        actual.as_str(),
                    ),
                    _ => false,
                }
            },
            Condition::ServerIp(patterns) => {
                let actual = match &cache.server_ip {
                    Some(a) => a,
                    None => {
                        return false;
                    },
                };
                match resources {
                    CompiledConditionResources::ServerIp(v) => ip_patterns_match(
                        context.globs,
                        v,
                        patterns.len(),
                        actual.as_str(),
                    ),
                    _ => false,
                }
            },
            Condition::HeaderPresent(name) => header(cache.req.headers.as_slice(), name.as_str()).is_some(),
            Condition::HeaderContains { name, value } => match header(
                cache.req.headers.as_slice(),
                name.as_str(),
            ) {
                Some(actual) => contains_ascii_case_insensitive(actual, value.as_str()),
                None => false,
            },
            Condition::ResHeaderPresent(name) => match context.res {
                Some(res) => header(res.headers.as_slice(), name.as_str()).is_some(),
                None => false,
            },
            Condition::ResHeaderContains { name, value } => match context.res {
                Some(res) => match header(res.headers.as_slice(), name.as_str()) {
                    Some(actual) => contains_ascii_case_insensitive(actual, value.as_str()),
                    None => false,
                },
                None => false,
            },
            Condition::BodyContains(_) => match resources {
                CompiledConditionResources::BodyContains(id) => cache.body_contains(context.body_literals, *id),
                _ => false,
            },
            Condition::BodyRegex(regex) => {
                cache.ensure_body_text(Ghost(context.body_literals.literal_texts()));
                match &cache.body_text {
                    Some(t) => regex.matches(t.as_str()).is_some(),
                    None => false,
                }
            },
            Condition::Status(statuses) => match context.res {
                Some(res) => status_listed(statuses, res.status),
                None => false,
            },
            Condition::ChancePermille(permille) => chance(cache.req, context.line, *permille),
            Condition::EnvPresent(name) => env_lookup(context.env, name.as_str()).is_some(),
            Condition::EnvEquals { name, value } => match env_lookup(context.env, name.as_str()) {
                Some(actual) => str_eq(actual.as_str(), value.as_str()),
                None => false,
            },
            Condition::Any(conditions) => {
                let children = match resources {
                    CompiledConditionResources::Children(children) => children,
                    _ => {
                        return false;
                    },
                };
                let mut i: usize = 0;
                while i < conditions.len() && i < children.len()
                    invariant
                        i <= conditions@.len(),
                        *self == Condition::Any(*conditions),
                        *resources == CompiledConditionResources::Children(*children),
                        cache.consistent(context.body_literals.literal_texts()),
                        cache.request() == req,
                        cache.client_ip_text() == cip,
                        cache.server_ip_text() == sip,
                        req == old(cache).request(),
                        cip == old(cache).client_ip_text(),
                        sip == old(cache).server_ip_text(),
                        i <= children@.len(),
                        !any_holds(conditions@.take(i as int), children@, *context, req, cip, sip),
                    decreases conditions@.len() - i,
                {
                    proof {
                        lemma_child_decreases(*self, *conditions, i as int);
                        assert(conditions@.take(i + 1).drop_last() =~= conditions@.take(i as int));
                        lemma_holds_prefix(conditions@, children@, *context, req, cip, sip, i + 1);
                    }
                    if conditions[i].matches_with_compiled(&children[i], context, cache) {
                        return true;
                    }
                    i += 1;
                }
                proof {
                    lemma_holds_prefix(conditions@, children@, *context, req, cip, sip, i as int);
                }
                false
            },
            Condition::All(conditions) => {
                let children = match resources {
                    CompiledConditionResources::Children(children) => children,
                    _ => {
                        return false;
                    },
                };
                let mut i: usize = 0;
                while i < conditions.len() && i < children.len()
                    invariant
                        i <= conditions@.len(),
                        *self == Condition::All(*conditions),
                        *resources == CompiledConditionResources::Children(*children),
                        cache.consistent(context.body_literals.literal_texts()),
                        cache.request() == req,
                        cache.client_ip_text() == cip,
                        cache.server_ip_text() == sip,
                        req == old(cache).request(),
                        cip == old(cache).client_ip_text(),
                        sip == old(cache).server_ip_text(),
                        i <= children@.len(),
                        all_hold(conditions@.take(i as int), children@, *context, req, cip, sip),
                    decreases conditions@.len() - i,
                {
                    proof {
                        lemma_child_decreases(*self, *conditions, i as int);
                        assert(conditions@.take(i + 1).drop_last() =~= conditions@.take(i as int));
                        lemma_holds_prefix(conditions@, children@, *context, req, cip, sip, i + 1);
                    }
                    if !conditions[i].matches_with_compiled(&children[i], context, cache) {
                        return false;
                    }
                    i += 1;
                }
                proof {
                    lemma_holds_prefix(conditions@, children@, *context, req, cip, sip, i as int);
                }
                true
            },
            Condition::Not(inner) => {
                if context.res.is_none() && inner.depends_on_response() {
                    return false;
                }
                match resources {
                    CompiledConditionResources::Not(inner_resources) => !inner.matches_with_compiled(
                        inner_resources,
                        context,
                        cache,
                    ),
                    _ => false,
                }
            },
        }
    }
}

/// Whether any listed method equals `method`, ignoring ASCII case.
fn any_method(methods: &Vec<String>, method: &str) -> (r: bool)
    ensures
        r == exists|i: int| 0 <= i < methods@.len() && ci_eq(#[trigger] methods@[i]@, method@),
{
    let mut i: usize = 0;
    while i < methods.len()
        invariant
            i <= methods@.len(),
            forall|j: int| 0 <= j < i ==> !ci_eq(#[trigger] methods@[j]@, method@),
        decreases methods@.len() - i,
    {
        if ci_eq_str(methods[i].as_str(), method) {
            return true;
        }
        i += 1;
    }
    false
}

/// Whether `status` is listed.
fn status_listed(statuses: &Vec<u16>, status: u16) -> (r: bool)
    ensures
        r == statuses@.contains(status),
{
    let mut i: usize = 0;
    while i < statuses.len()
        invariant
            i <= statuses@.len(),
            forall|j: int| 0 <= j < i ==> statuses@[j] != status,
        decreases statuses@.len() - i,
    {
        if statuses[i] == status {
            assert(statuses@[i as int] == status);
            return true;
        }
        i += 1;
    }
    false
}

/// Whether any of the first `n` normalized IP patterns matches `actual`.
fn ip_patterns_match(globs: &CompiledGlobSet, v: &Vec<(String, Option<GlobId>)>, n: usize, actual: &str) -> (r: bool)
    ensures
        r == ip_any(globs.keys(), v@, n as int, actual@),
{
    let mut i: usize = 0;
    while i < n && i < v.len()
        invariant
            forall|j: int| 0 <= j < i && j < n && j < v@.len() ==> !ip_match_spec(
                globs.keys(),
                #[trigger] v@[j].0@,
                actual@,
                v@[j].1,
            ),
        decreases n - i,
    {
        if globs.ip_matches_id(v[i].0.as_str(), actual, v[i].1) {
            return true;
        }
        i += 1;
    }
    false
}

/// Response-header and status conditions never hold without response metadata.
pub proof fn law_response_conditions_need_response(
    c: Condition,
    r: CompiledConditionResources,
    ctx: ConditionMatchContext,
    req: RequestMeta,
    cip: Option<Seq<char>>,
    sip: Option<Seq<char>>,
)
    requires
        c is ResHeaderPresent || c is ResHeaderContains || c is Status,
        ctx.res is None,
    ensures
        !condition_holds(c, r, ctx, req, cip, sip),
{
}

/// A negation stays non-matching, rather than matching, when the response metadata that its
/// condition reads is absent.
pub proof fn law_negation_without_response_does_not_match(
    inner: Condition,
    r: CompiledConditionResources,
    ctx: ConditionMatchContext,
    req: RequestMeta,
    cip: Option<Seq<char>>,
    sip: Option<Seq<char>>,
)
    requires
        ctx.res is None,
        response_dependent(inner),
    ensures
        !condition_holds(Condition::Not(Box::new(inner)), r, ctx, req, cip, sip),
{
}

/// Method conditions compare the request method ignoring ASCII case: two requests whose
/// methods differ only in case satisfy the same method conditions.
pub proof fn law_method_condition_ignores_case(
    ms: Vec<String>,
    r: CompiledConditionResources,
    ctx: ConditionMatchContext,
    a: RequestMeta,
    b: RequestMeta,
    cip: Option<Seq<char>>,
    sip: Option<Seq<char>>,
)
    requires
        ci_eq(a.method@, b.method@),
    ensures
        condition_holds(Condition::Method(ms), r, ctx, a, cip, sip) == condition_holds(
            Condition::Method(ms),
            r,
            ctx,
            b,
            cip,
            sip,
        ),
{
    assert forall|i: int| 0 <= i < ms@.len() implies ci_eq(#[trigger] ms@[i]@, a.method@) == ci_eq(
        ms@[i]@,
        b.method@,
    ) by {}
}

} // verus!
