//! Glob programs compiled once per rule snapshot, looked up by pattern and separator, and the
//! captures that matchers hand to action templates.
use crate::rules::bounded_replace::opt_texts;
use crate::rules::glob::{build_glob_program, glob_program_compiles, glob_regex_source, glob_source};
use crate::rules::language::MAX_RULE_GLOB_CAPTURES;
use crate::rules::matching::{dotted_prefix, dotted_suffix_prefix, glob_active, strip_brackets, trim_brackets};
use crate::text::{
    chars_of, ci_eq, ci_eq_chars, contains_char, has_prefix, lower_chars, lower_seq, seq_eq,
    slice_vec, starts_with, str_eq, string_of,
};
use regex::Regex;
use std::sync::Arc;
use vstd::prelude::*;

verus! {

// ---------------------------------------------------------------------------
// Captures
// ---------------------------------------------------------------------------

/// Matcher captures available to `$0`-`$9`, `${name}`, and action templates.
///
/// Glob wildcards populate numbered captures. Regex matchers additionally retain the complete
/// match and named captures; unmatched numbered groups hold empty text.
#[derive(Clone, Debug, PartialEq, Eq)]
pub struct Captures {
    pub(crate) whole: Option<String>,
    pub(crate) indexed: Vec<String>,
    pub(crate) named: Vec<(String, String)>,
}

/// Captures as plain data: the whole match, the numbered captures from `$1` on, and the named
/// captures in group order.
pub struct CapturesView {
    pub whole: Option<Seq<char>>,
    pub indexed: Seq<Seq<char>>,
    pub named: Seq<(Seq<char>, Seq<char>)>,
}

impl View for Captures {
    type V = CapturesView;

    closed spec fn view(&self) -> CapturesView {
        CapturesView {
            whole: match self.whole {
                Some(w) => Some(w@),
                None => None,
            },
            indexed: self.indexed@.map_values(|s: String| s@),
            named: self.named@.map_values(|p: (String, String)| (p.0@, p.1@)),
        }
    }
}

impl Captures {
    /// No captures at all.
    pub fn new() -> (r: Self)
        ensures
            r@.whole is None,
            r@.indexed == Seq::<Seq<char>>::empty(),
            r@.named == Seq::<(Seq<char>, Seq<char>)>::empty(),
    {
        let r = Captures { whole: None, indexed: Vec::new(), named: Vec::new() };
        assert(r@.indexed =~= Seq::<Seq<char>>::empty());
        assert(r@.named =~= Seq::<(Seq<char>, Seq<char>)>::empty());
        r
    }

    /// Appends the next numbered capture.
    pub fn insert_index(&mut self, value: String)
        ensures
            final(self)@.whole == old(self)@.whole,
            final(self)@.named == old(self)@.named,
            final(self)@.indexed == old(self)@.indexed.push(value@),
    {
        self.indexed.push(value);
        assert(self@.indexed =~= old(self)@.indexed.push(value@));
    }

    /// The complete match of a regex matcher, if any.
    pub fn whole(&self) -> (r: Option<String>)
        ensures
            match r {
                Some(w) => self@.whole == Some(w@),
                None => self@.whole is None,
            },
    {
        match &self.whole {
            Some(w) => Some(w.clone()),
            None => None,
        }
    }

    /// The numbered captures from `$1` on.
    pub fn indexed(&self) -> (r: Vec<String>)
        ensures
            r@.map_values(|s: String| s@) == self@.indexed,
    {
        crate::text::clone_strings(&self.indexed)
    }

    /// The value of the first named capture called `name`.
    pub fn named(&self, name: &str) -> (r: Option<String>)
        ensures
            match r {
                Some(v) => exists|i: int|
                    0 <= i < self@.named.len() && self@.named[i] == (name@, v@) && forall|j: int|
                        0 <= j < i ==> self@.named[j].0 != name@,
                None => forall|j: int| 0 <= j < self@.named.len() ==> self@.named[j].0 != name@,
            },
    {
        let mut i: usize = 0;
        while i < self.named.len()
            invariant
                i <= self@.named.len(),
                forall|j: int| 0 <= j < i ==> self@.named[j].0 != name@,
            decreases self@.named.len() - i,
        {
            if str_eq(self.named[i].0.as_str(), name) {
                assert(self@.named[i as int] == (self.named@[i as int].0@, self.named@[i as int].1@));
                return Some(self.named[i].1.clone());
            }
            i += 1;
        }
        None
    }
}

/// The named captures among the first `k` group names: each named group that took part, with
/// its text, in group order.
pub open spec fn named_pairs(
    groups: Seq<Option<Seq<char>>>,
    names: Seq<Option<Seq<char>>>,
    k: int,
) -> Seq<(Seq<char>, Seq<char>)>
    decreases k,
{
    if k <= 0 {
        seq![]
    } else {
        let before = named_pairs(groups, names, k - 1);
        match names[k - 1] {
            Some(n) => if k - 1 < groups.len() && groups[k - 1] is Some {
                before.push((n, groups[k - 1]->0))
            } else {
                before
            },
            None => before,
        }
    }
}

/// Number of numbered captures a regex match keeps: the groups after the whole match, at most
/// nine.
pub open spec fn kept_groups(n: int) -> int {
    if n <= 1 {
        0
    } else if n < 10 {
        n - 1
    } else {
        9
    }
}

/// The captures of a regex match with the given group texts (the whole match first) and group
/// names: the whole match, up to nine numbered groups (empty where a group took no part), and
/// each named group that took part.
pub open spec fn captures_of(groups: Seq<Option<Seq<char>>>, names: Seq<Option<Seq<char>>>) -> CapturesView {
    CapturesView {
        whole: if groups.len() > 0 {
            groups[0]
        } else {
            None
        },
        indexed: Seq::new(
            kept_groups(groups.len() as int) as nat,
            |i: int| group_text(groups[i + 1]),
        ),
        named: named_pairs(groups, names, names.len() as int),
    }
}

/// Builds the captures of a regex match from its group texts (the whole match first) and the
/// regex's group names, keeping the `$1`-`$9` numbered-capture limit.
pub fn collect_captures(groups: &Vec<Option<String>>, names: &Vec<Option<String>>) -> (r: Captures)
    ensures
        r@ == captures_of(opt_texts(groups@), opt_texts(names@)),
{
    let ghost gs = opt_texts(groups@);
    let ghost ns = opt_texts(names@);
    let whole = if groups.len() > 0 {
        match &groups[0] {
            Some(w) => Some(w.clone()),
            None => None,
        }
    } else {
        None
    };
    let mut out = Captures { whole, indexed: Vec::new(), named: Vec::new() };
    let last: usize = if groups.len() < 10 {
        groups.len()
    } else {
        10
    };
    let mut idx: usize = 1;
    assert(out@.indexed =~= Seq::new(0, |i: int| group_text(gs[i + 1])));
    while idx < last
        invariant
            1 <= idx,
            idx <= last || idx == 1,
            gs.len() == groups@.len(),
            last <= groups@.len(),
            last == (if groups@.len() < 10 { groups@.len() } else { 10 }),
            gs == opt_texts(groups@),
            out@.whole == (if gs.len() > 0 { gs[0] } else { None }),
            out@.named == Seq::<(Seq<char>, Seq<char>)>::empty(),
            out@.indexed == Seq::new((idx - 1) as nat, |i: int| group_text(gs[i + 1])),
        decreases last - idx,
    {
        let text = match &groups[idx] {
            Some(t) => t.clone(),
            None => String::new(),
        };
        assert(text@ == group_text(gs[idx as int]));
        out.insert_index(text);
        assert(Seq::new(idx as nat, |i: int| group_text(gs[i + 1])) =~= Seq::new(
            (idx - 1) as nat,
            |i: int| group_text(gs[i + 1]),
        ).push(group_text(gs[idx as int])));
        idx += 1;
    }
    assert(out@.indexed =~= Seq::new(kept_groups(gs.len() as int) as nat, |i: int| group_text(gs[i + 1])));
    let mut k: usize = 0;
    while k < names.len()
        invariant
            k <= names@.len(),
            gs == opt_texts(groups@),
            ns == opt_texts(names@),
            out@.whole == (if gs.len() > 0 { gs[0] } else { None }),
            out@.indexed == Seq::new(kept_groups(gs.len() as int) as nat, |i: int| group_text(gs[i + 1])),
            out@.named == named_pairs(gs, ns, k as int),
        decreases names@.len() - k,
    {
        match &names[k] {
            Some(n) => {
                if k < groups.len() {
                    match &groups[k] {
                        Some(v) => {
                            let ghost before = out@.named;
                            out.named.push((n.clone(), v.clone()));
                            assert(out@.named =~= before.push((n@, v@)));
                        },
                        None => {},
                    }
                }
            },
            None => {},
        }
        k += 1;
    }
    out
}

impl Default for Captures {
    fn default() -> (r: Self)
        ensures
            r@.whole is None,
            r@.indexed == Seq::<Seq<char>>::empty(),
            r@.named == Seq::<(Seq<char>, Seq<char>)>::empty(),
    {
        Captures::new()
    }
}

// ---------------------------------------------------------------------------
// Glob programs
// ---------------------------------------------------------------------------

/// Whether the glob `pattern`, with `sep` as its segment separator, has a program that the
/// regex compiler accepts.
pub open spec fn glob_compiles(pattern: Seq<char>, sep: char) -> bool {
    glob_source(pattern, sep) matches Some(s) && glob_program_compiles(s)
}

/// Whether the compiled glob program with regex source `source` matches `text`.
pub uninterp spec fn glob_program_matches(source: Seq<char>, text: Seq<char>) -> bool;

/// The text of each group (the whole match first) of the compiled glob program with regex
/// source `source` on `text`, where it matches.
pub uninterp spec fn glob_program_groups(source: Seq<char>, text: Seq<char>) -> Seq<Option<Seq<char>>>;

/// A glob compiled into its anchored regex program, kept with the program's source text.
///
/// The only constructor is [`GlobProgram::compile`], which builds the regex from the source
/// it records, so the regex is always the compilation of [`GlobProgram::source_text`].
#[derive(Clone, Debug)]
pub struct GlobProgram {
    source: String,
    regex: Arc<Regex>,
}

impl GlobProgram {
    /// The regex source the program was compiled from.
    pub closed spec fn source_text(&self) -> Seq<char> {
        self.source@
    }

    /// Compiles `pattern` with `sep` as its segment separator; `None` for a trailing unpaired
    /// `\` or a program the regex compiler rejects.
    pub fn compile(pattern: &str, sep: char) -> (r: Option<GlobProgram>)
        ensures
            r is Some == glob_compiles(pattern@, sep),
            r matches Some(p) ==> glob_source(pattern@, sep) == Some(p.source_text()),
    {
        match glob_regex_source(pattern, sep) {
            Some(source) => match build_glob_program(source.as_str()) {
                Some(regex) => Some(GlobProgram { source, regex: Arc::new(regex) }),
                None => None,
            },
            None => None,
        }
    }

    /// Whether the program matches `text`.
    pub fn is_match(&self, text: &str) -> (r: bool)
        ensures
            r == glob_program_matches(self.source_text(), text@),
    {
        program_is_match(self, text)
    }
}

/// `Regex::is_match` of the program's regex on `text`. The regex of a [`GlobProgram`] is the
/// compilation of its source text, so the result is named over that text.
#[verifier::external_body]
fn program_is_match(program: &GlobProgram, text: &str) -> (r: bool)
    ensures
        r == glob_program_matches(program.source_text(), text@),
{
    program.regex.is_match(text)
}

/// `Regex::captures` of the program's regex on `text`, each group taken as its text: `None`
/// exactly where the regex does not match (as `is_match` reports), else the groups, the whole
/// match first and `None` for a group that took no part.
#[verifier::external_body]
fn program_groups(program: &GlobProgram, text: &str) -> (r: Option<Vec<Option<String>>>)
    ensures
        r is Some == glob_program_matches(program.source_text(), text@),
        r matches Some(g) ==> opt_texts(g@) == glob_program_groups(program.source_text(), text@),
{
    program.regex.captures(text).map(|c| c.iter().map(|g| g.map(|m| m.as_str().to_string())).collect())
}

// ---------------------------------------------------------------------------
// The compiled glob set
// ---------------------------------------------------------------------------

/// Position of a compiled glob program within its [`CompiledGlobSet`].
#[derive(Clone, Copy, Debug, PartialEq, Eq, Structural)]
pub struct GlobId(pub usize);

#[derive(Debug)]
struct GlobEntry {
    separator: char,
    pattern: String,
    program: GlobProgram,
}

/// Glob programs compiled once with a rule snapshot, one per distinct pattern and separator.
#[derive(Debug)]
pub struct CompiledGlobSet {
    entries: Vec<GlobEntry>,
}

/// Whether the glob `key.1`, separated by `key.0`, matches `text`.
pub open spec fn glob_key_matches(key: (char, Seq<char>), text: Seq<char>) -> bool {
    match glob_source(key.1, key.0) {
        Some(s) => glob_program_matches(s, text),
        None => false,
    }
}

/// The groups of the glob `key.1`, separated by `key.0`, on `text`.
pub open spec fn glob_key_groups(key: (char, Seq<char>), text: Seq<char>) -> Seq<Option<Seq<char>>> {
    match glob_source(key.1, key.0) {
        Some(s) => glob_program_groups(s, text),
        None => seq![],
    }
}

/// Text of a capture group; empty where the group took no part.
pub open spec fn group_text(g: Option<Seq<char>>) -> Seq<char> {
    match g {
        Some(t) => t,
        None => seq![],
    }
}

/// Numbered captures after appending the groups after the whole match, as many as still fit
/// under the numbered-capture limit.
pub open spec fn with_groups(indexed: Seq<Seq<char>>, groups: Seq<Option<Seq<char>>>) -> Seq<Seq<char>> {
    let room: int = if indexed.len() < MAX_RULE_GLOB_CAPTURES {
        MAX_RULE_GLOB_CAPTURES - indexed.len()
    } else {
        0
    };
    let rest = if groups.len() > 0 {
        groups.skip(1)
    } else {
        groups
    };
    let n: int = if rest.len() < room {
        rest.len() as int
    } else {
        room
    };
    indexed + rest.take(n).map_values(|g: Option<Seq<char>>| group_text(g))
}

impl CompiledGlobSet {
    #[verifier::type_invariant]
    closed spec fn inv(&self) -> bool {
        &&& forall|i: int|
            0 <= i < self.entries@.len() ==> glob_source(
                #[trigger] self.entries@[i].pattern@,
                self.entries@[i].separator,
            ) == Some(self.entries@[i].program.source_text())
        &&& forall|i: int, j: int|
            0 <= i < j < self.entries@.len() ==> (#[trigger] self.entries@[i].separator,
            self.entries@[i].pattern@) != (#[trigger] self.entries@[j].separator,
            self.entries@[j].pattern@)
    }

    /// The separator and pattern of each compiled program, in registration order.
    pub closed spec fn keys(&self) -> Seq<(char, Seq<char>)> {
        self.entries@.map_values(|e: GlobEntry| (e.separator, e.pattern@))
    }

    /// An empty set.
    pub fn new() -> (r: Self)
        ensures
            r.keys() == Seq::<(char, Seq<char>)>::empty(),
    {
        let r = CompiledGlobSet { entries: Vec::new() };
        assert(r.keys() =~= Seq::<(char, Seq<char>)>::empty());
        r
    }

    /// Number of compiled programs.
    pub fn len(&self) -> (r: usize)
        ensures
            r == self.keys().len(),
    {
        self.entries.len()
    }

    /// The id of the program compiled for `pattern` with `separator`.
    pub fn id(&self, pattern: &str, separator: char) -> (r: Option<GlobId>)
        ensures
            r == key_id(self.keys(), (separator, pattern@)),
    {
        let ghost k = (separator, pattern@);
        let mut i: usize = 0;
        while i < self.entries.len()
            invariant
                i <= self.entries@.len(),
                k == (separator, pattern@),
                forall|j: int| 0 <= j < i ==> self.keys()[j] != k,
            decreases self.entries@.len() - i,
        {
            assert(self.keys()[i as int] == (self.entries@[i as int].separator, self.entries@[i as int].pattern@));
            let same_sep = self.entries[i].separator == separator;
            let same_pattern = str_eq(self.entries[i].pattern.as_str(), pattern);
            if same_sep && same_pattern {
                assert(self.entries@[i as int].separator == separator);
                assert(self.entries@[i as int].pattern@ == pattern@);
                proof {
                    assert(self.keys()[i as int] == (self.entries@[i as int].separator, self.entries@[i as int].pattern@));
                    lemma_key_position_first(self.keys(), k, i as int);
                }
                return Some(GlobId(i));
            }
            i += 1;
        }
        proof {
            lemma_key_position_none(self.keys(), k);
        }
        None
    }

    /// Compiles `pattern` with `separator` unless it is already present, and returns its id.
    pub(crate) fn register(&mut self, pattern: &str, separator: char) -> (r: GlobId)
        requires
            glob_compiles(pattern@, separator),
        ensures
            final(self).keys() == if old(self).keys().contains((separator, pattern@)) {
                old(self).keys()
            } else {
                old(self).keys().push((separator, pattern@))
            },
            r.0 < final(self).keys().len(),
            final(self).keys()[r.0 as int] == (separator, pattern@),
    {
        match self.id(pattern, separator) {
            Some(id) => {
                proof {
                    lemma_key_position_some(self.keys(), (separator, pattern@));
                    assert(key_position(self.keys(), (separator, pattern@)) is Some);
                    let p = key_position(self.keys(), (separator, pattern@))->0;
                    assert(self.keys().len() == self.entries@.len());
                    assert(self.entries@.len() == self.entries.len());
                    assert(0 <= p < self.keys().len());
                    assert(key_id(self.keys(), (separator, pattern@)) == Some(GlobId(p as usize)));
                    assert(id == GlobId(p as usize));
                    assert(id.0 as int == p);
                    assert(self.keys()[p] == (separator, pattern@));
                    assert(self.keys().contains((separator, pattern@)));
                }
                id
            },
            None => {
                proof {
                    lemma_key_position_some(self.keys(), (separator, pattern@));
                }
                let program = match GlobProgram::compile(pattern, separator) {
                    Some(p) => p,
                    None => {
                        assert(false);
                        return GlobId(0);
                    },
                };
                let id = GlobId(self.entries.len());
                let ghost before = self.keys();
                proof {
                    use_type_invariant(&*self);
                }
                let entry = GlobEntry { separator, pattern: string_of(&chars_of(pattern)), program };
                let mut entries = Vec::new();
                std::mem::swap(&mut entries, &mut self.entries);
                let ghost old_entries = entries@;
                entries.push(entry);
                proof {
                    assert forall|i: int, j: int|
                        0 <= i < j < entries@.len() implies (entries@[i].separator,
                        entries@[i].pattern@) != (entries@[j].separator, entries@[j].pattern@) by {
                        if j == entries@.len() - 1 {
                            assert(before[i] == (entries@[i].separator, entries@[i].pattern@));
                            assert(!before.contains((separator, pattern@)));
                        }
                    }
                }
                self.entries = entries;
                assert(self.keys() =~= before.push((separator, pattern@)));
                id
            },
        }
    }

    /// Whether the program with id `id` exists and matches `text`.
    pub fn glob_match_id(&self, id: GlobId, text: &str) -> (r: bool)
        ensures
            r == (id.0 < self.keys().len() && glob_key_matches(self.keys()[id.0 as int], text@)),
    {
        proof {
            use_type_invariant(self);
        }
        if id.0 < self.entries.len() {
            self.entries[id.0].program.is_match(text)
        } else {
            false
        }
    }

    /// Whether the program with id `id` exists and matches `text`; on a match, the groups after
    /// the whole match are appended to the numbered captures, as many as still fit.
    pub fn glob_match_with_captures_id(&self, id: GlobId, text: &str, captures: &mut Captures) -> (r: bool)
        ensures
            r == (id.0 < self.keys().len() && glob_key_matches(self.keys()[id.0 as int], text@)),
            final(captures)@.whole == old(captures)@.whole,
            final(captures)@.named == old(captures)@.named,
            final(captures)@.indexed == if r {
                with_groups(old(captures)@.indexed, glob_key_groups(self.keys()[id.0 as int], text@))
            } else {
                old(captures)@.indexed
            },
    {
        proof {
            use_type_invariant(self);
        }
        if id.0 >= self.entries.len() {
            return false;
        }
        let groups = match program_groups(&self.entries[id.0].program, text) {
            Some(g) => g,
            None => return false,
        };
        let ghost gs = opt_texts(groups@);
        let ghost start = captures@.indexed;
        let room: usize = if captures.indexed.len() < MAX_RULE_GLOB_CAPTURES {
            MAX_RULE_GLOB_CAPTURES - captures.indexed.len()
        } else {
            0
        };
        let ghost rest = if gs.len() > 0 {
            gs.skip(1)
        } else {
            gs
        };
        let mut k: usize = 1;
        let mut added: usize = 0;
        while k < groups.len() && added < room
            invariant
                gs == opt_texts(groups@),
                rest == (if gs.len() > 0 { gs.skip(1) } else { gs }),
                1 <= k,
                added == k - 1,
                k <= groups@.len() || (groups@.len() == 0 && k == 1),
                added <= room,
                captures@.whole == old(captures)@.whole,
                captures@.named == old(captures)@.named,
                captures@.indexed == start + rest.take(added as int).map_values(
                    |g: Option<Seq<char>>| group_text(g),
                ),
            decreases groups@.len() - k,
        {
            let text_k = match &groups[k] {
                Some(t) => t.clone(),
                None => String::new(),
            };
            assert(rest[added as int] == gs[k as int]);
            assert(text_k@ == group_text(gs[k as int]));
            let ghost before = captures@.indexed;
            captures.insert_index(text_k);
            assert(rest.take(added + 1).map_values(|g: Option<Seq<char>>| group_text(g)) =~= rest.take(
                added as int,
            ).map_values(|g: Option<Seq<char>>| group_text(g)).push(group_text(rest[added as int])));
            assert(captures@.indexed =~= start + rest.take(added + 1).map_values(
                |g: Option<Seq<char>>| group_text(g),
            ));
            k += 1;
            added += 1;
        }
        assert(glob_key_groups(self.keys()[id.0 as int], text@) == gs);
        true
    }

    /// Host-glob semantics: brackets and ASCII case are ignored; `*` and `**` match any host;
    /// `**.base` matches `base` and its subdomains; `*.base` matches exactly one extra label;
    /// other glob patterns use the compiled program with id `id`; plain patterns compare equal.
    pub fn host_matches_id(&self, pattern: &str, host: &str, id: Option<GlobId>) -> (r: bool)
        ensures
            r == host_match_spec(self.keys(), pattern@, host@, id),
    {
        let p = lower_chars(&trim_brackets(&chars_of(pattern)));
        let h = lower_chars(&trim_brackets(&chars_of(host)));
        if seq_eq(&p, &chars_of("**")) || seq_eq(&p, &chars_of("*")) {
            proof {
                reveal_strlit("**");
                reveal_strlit("*");
            }
            return true;
        }
        proof {
            reveal_strlit("**");
            reveal_strlit("*");
            reveal_strlit("**.");
            reveal_strlit("*.");
        }
        let hs = string_of(&h);
        if starts_with(&p, &chars_of("**.")) {
            let base = string_of(&slice_vec(&p, 3, p.len()));
            assert(base@ =~= p@.skip(3));
            return seq_eq(&h, &chars_of(base.as_str())) || dotted_suffix_prefix(hs.as_str(), base.as_str()).is_some();
        }
        if starts_with(&p, &chars_of("*.")) {
            let base = string_of(&slice_vec(&p, 2, p.len()));
            assert(base@ =~= p@.skip(2));
            return match dotted_suffix_prefix(hs.as_str(), base.as_str()) {
                Some(prefix) => {
                    let pc = chars_of(prefix.as_str());
                    pc.len() > 0 && !contains_char(&pc, '.')
                },
                None => false,
            };
        }
        if contains_char(&p, '*') || contains_char(&p, '\\') {
            match id {
                Some(g) => self.glob_match_id(g, hs.as_str()),
                None => false,
            }
        } else {
            seq_eq(&p, &h)
        }
    }

    /// Host-glob matching with the program compiled for the pattern itself (brackets trimmed,
    /// ASCII-lowercased), where there is one.
    pub fn host_matches(&self, pattern: &str, host: &str) -> (r: bool)
        ensures
            r == host_match_spec(
                self.keys(),
                pattern@,
                host@,
                key_id(self.keys(), ('.', lower_seq(strip_brackets(pattern@)))),
            ),
    {
        let normalized = string_of(&lower_chars(&trim_brackets(&chars_of(pattern))));
        let id = self.id(normalized.as_str(), '.');
        self.host_matches_id(pattern, host, id)
    }

    /// Matches an already-normalized IP pattern against an already-normalized IP: `*` and `**`
    /// match anything, other glob patterns use the compiled program with id `id`, and plain
    /// patterns compare equal ignoring ASCII case.
    pub fn ip_matches_id(&self, pattern: &str, actual: &str, id: Option<GlobId>) -> (r: bool)
        ensures
            r == ip_match_spec(self.keys(), pattern@, actual@, id),
    {
        let p = chars_of(pattern);
        proof {
            reveal_strlit("**");
            reveal_strlit("*");
        }
        if seq_eq(&p, &chars_of("*")) || seq_eq(&p, &chars_of("**")) {
            true
        } else if contains_char(&p, '*') || contains_char(&p, '\\') {
            match id {
                Some(g) => self.glob_match_id(g, actual),
                None => false,
            }
        } else {
            ci_eq_chars(&p, &chars_of(actual))
        }
    }
}

/// Position of the first occurrence of `k` in `keys`.
pub open spec fn key_position(keys: Seq<(char, Seq<char>)>, k: (char, Seq<char>)) -> Option<int>
    decreases keys.len(),
{
    if keys.len() == 0 {
        None
    } else if keys[0] == k {
        Some(0)
    } else {
        match key_position(keys.drop_first(), k) {
            Some(i) => Some(i + 1),
            None => None,
        }
    }
}

/// The id of the first program compiled for key `k`, if any.
pub open spec fn key_id(keys: Seq<(char, Seq<char>)>, k: (char, Seq<char>)) -> Option<GlobId> {
    match key_position(keys, k) {
        Some(i) => Some(GlobId(i as usize)),
        None => None,
    }
}

pub proof fn lemma_key_position_first(keys: Seq<(char, Seq<char>)>, k: (char, Seq<char>), i: int)
    requires
        0 <= i < keys.len(),
        keys[i] == k,
        forall|j: int| 0 <= j < i ==> keys[j] != k,
    ensures
        key_position(keys, k) == Some(i),
    decreases i,
{
    if i > 0 {
        lemma_key_position_first(keys.drop_first(), k, i - 1);
    }
}

pub proof fn lemma_key_position_none(keys: Seq<(char, Seq<char>)>, k: (char, Seq<char>))
    requires
        forall|j: int| 0 <= j < keys.len() ==> keys[j] != k,
    ensures
        key_position(keys, k) is None,
    decreases keys.len(),
{
    if keys.len() > 0 {
        lemma_key_position_none(keys.drop_first(), k);
    }
}

pub proof fn lemma_key_position_some(keys: Seq<(char, Seq<char>)>, k: (char, Seq<char>))
    ensures
        match key_position(keys, k) {
            Some(i) => 0 <= i < keys.len() && keys[i] == k,
            None => !keys.contains(k),
        },
    decreases keys.len(),
{
    if keys.len() > 0 {
        lemma_key_position_some(keys.drop_first(), k);
        if keys[0] != k {
            if keys.contains(k) {
                let j = choose|j: int| 0 <= j < keys.len() && keys[j] == k;
                assert(keys.drop_first()[j - 1] == k);
            }
        }
    }
}

/// Whether the compiled glob with id `id`, among `keys`, exists and matches `text`.
pub open spec fn id_matches(keys: Seq<(char, Seq<char>)>, id: Option<GlobId>, text: Seq<char>) -> bool {
    match id {
        Some(g) => g.0 < keys.len() && glob_key_matches(keys[g.0 as int], text),
        None => false,
    }
}

/// Host-glob matching of `host` against `pattern`, with `id` the compiled program of the
/// lowercased pattern where it needs one.
pub open spec fn host_match_spec(
    keys: Seq<(char, Seq<char>)>,
    pattern: Seq<char>,
    host: Seq<char>,
    id: Option<GlobId>,
) -> bool {
    let p = lower_seq(strip_brackets(pattern));
    let h = lower_seq(strip_brackets(host));
    if p == "**"@ || p == "*"@ {
        true
    } else if has_prefix(p, "**."@) {
        h == p.skip(3) || dotted_prefix(h, p.skip(3)) is Some
    } else if has_prefix(p, "*."@) {
        dotted_prefix(h, p.skip(2)) matches Some(pre) && pre.len() > 0 && !pre.contains('.')
    } else if glob_active(p) {
        id_matches(keys, id, h)
    } else {
        p == h
    }
}

/// IP matching of a normalized `actual` address against a normalized `pattern`.
pub open spec fn ip_match_spec(
    keys: Seq<(char, Seq<char>)>,
    pattern: Seq<char>,
    actual: Seq<char>,
    id: Option<GlobId>,
) -> bool {
    if pattern == "*"@ || pattern == "**"@ {
        true
    } else if glob_active(pattern) {
        id_matches(keys, id, actual)
    } else {
        ci_eq(pattern, actual)
    }
}

} // verus!
