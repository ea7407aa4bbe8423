//! Stable limits and spellings of the rule language.
use crate::text::{chars_of, has_prefix, seq_eq, starts_with, substring};
use vstd::prelude::*;

verus! {

/// Current rule-language compatibility version.
pub const RULE_LANGUAGE_VERSION: u16 = 3;

/// Required directive for standalone and persisted v3 rule sources.
pub const RULE_LANGUAGE_HEADER: &'static str = "@language 3";

/// Maximum UTF-8 bytes accepted in one physical rule source line.
pub const MAX_RULE_SOURCE_LINE_BYTES: usize = 65536;

/// Maximum aggregate UTF-8 source bytes compiled into one snapshot.
pub const MAX_RULE_SNAPSHOT_SOURCE_BYTES: usize = 16777216;

/// Maximum bytes accepted in one caller-supplied rule-group identifier.
pub const MAX_RULE_GROUP_NAME_BYTES: usize = 128;

/// Maximum source groups compiled into one immutable snapshot.
pub const MAX_RULE_GROUPS_PER_SNAPSHOT: usize = 1024;

/// Maximum non-empty, non-comment source rule lines accepted in one snapshot.
pub const MAX_RULES_PER_SNAPSHOT: usize = 10000;

/// Maximum source diagnostics returned from one parse attempt.
pub const MAX_RULE_DIAGNOSTICS: usize = 256;

/// Maximum actions accepted on one source rule.
pub const MAX_RULE_ACTIONS_PER_RULE: usize = 256;

/// Maximum total parsed actions retained by one immutable snapshot.
pub const MAX_RULE_ACTIONS_PER_SNAPSHOT: usize = 100000;

/// Maximum total condition nodes accepted on one source rule.
pub const MAX_RULE_CONDITION_NODES_PER_RULE: usize = 256;

/// Maximum total condition nodes retained by one immutable snapshot.
pub const MAX_RULE_CONDITION_NODES_PER_SNAPSHOT: usize = 100000;

/// Maximum body substring/regex condition leaves retained by one snapshot.
pub const MAX_RULE_BODY_CONDITIONS_PER_SNAPSHOT: usize = 256;

/// Maximum property tokens accepted on one source rule.
pub const MAX_RULE_PROPERTIES_PER_RULE: usize = 64;

/// Maximum top-level comma-separated arguments accepted by one call.
pub const MAX_RULE_CALL_ARGUMENTS: usize = 256;

/// Maximum bytes loaded from one external `@key`, `<path>`, or mock file.
pub const MAX_RULE_EXTERNAL_VALUE_BYTES: usize = 8388608;

/// Maximum bytes produced by rendering one action value or replacement.
pub const MAX_RULE_RENDERED_VALUE_BYTES: usize = 8388608;

/// Maximum UTF-8 bytes retained for one rendered trace tag.
pub const MAX_RULE_RENDERED_TAG_BYTES: usize = 4096;

/// Maximum distinct rule-produced trace tags retained for one request.
pub const MAX_RULE_TAGS_PER_REQUEST: usize = 256;

/// Maximum bytes rendered for one value embedded in human explanation output.
pub const MAX_RULE_EXPLAIN_VALUE_BYTES: usize = 4096;

/// Maximum bytes returned from one human explanation.
pub const MAX_RULE_EXPLAIN_BYTES: usize = 8388608;

/// Maximum proxy hops parsed from one rendered `upstream(...)` value.
pub const MAX_RULE_UPSTREAM_HOPS: usize = 32;

/// Maximum `|`-separated filesystem candidates tried by one mock action.
pub const MAX_RULE_MOCK_FILE_CANDIDATES: usize = 32;

/// Maximum pairwise comparisons performed by one conservative shadow lint.
pub const MAX_RULE_LINT_COMPARISONS: usize = 1000000;

/// Maximum matcher-source bytes charged across one shadow-lint comparison run.
pub const MAX_RULE_LINT_COMPARISON_BYTES: usize = 268435456;

/// Maximum findings retained by one shadow or semantic lint report.
pub const MAX_RULE_LINT_FINDINGS: usize = 10000;

/// Approximate source/message bytes retained by one lint report.
pub const MAX_RULE_LINT_REPORT_BYTES: usize = 4194304;

/// Maximum bytes produced when rendering one filesystem path from a rule.
pub const MAX_RULE_EXTERNAL_PATH_BYTES: usize = 4096;

/// Maximum bytes loaded from one PEM certificate-chain or private-key file.
pub const MAX_RULE_TLS_PEM_BYTES: usize = 1048576;

/// Maximum recursive matcher, condition, and delimiter nesting.
pub const MAX_RULE_PARSE_NESTING: usize = 32;

/// Maximum numbered wildcard captures retained from one matched rule.
pub const MAX_RULE_GLOB_CAPTURES: usize = 9;

/// Inclusive minimum HTTP status accepted by status predicates.
pub const MIN_HTTP_STATUS: u16 = 100;

/// Inclusive maximum HTTP status accepted by predicates and final-response actions.
pub const MAX_HTTP_STATUS: u16 = 599;

/// Inclusive minimum status accepted by final-response actions.
pub const MIN_FINAL_HTTP_STATUS: u16 = 200;

/// Bytes allowed in an RFC 9110 HTTP token (header names, methods).
pub open spec fn http_token_byte(b: u8) -> bool {
    ||| (48 <= b && b <= 57)
    ||| (65 <= b && b <= 90)
    ||| (97 <= b && b <= 122)
    ||| b == 33 || b == 35 || b == 36 || b == 37 || b == 38 || b == 39 || b == 42 || b == 43
    ||| b == 45 || b == 46 || b == 94 || b == 95 || b == 96 || b == 124 || b == 126
}

/// True for bytes allowed in an RFC 9110 HTTP token (header names, methods).
pub fn is_http_token_byte(byte: u8) -> (r: bool)
    ensures
        r == http_token_byte(byte),
{
    (48 <= byte && byte <= 57) || (65 <= byte && byte <= 90) || (97 <= byte && byte <= 122)
        || byte == 33 || byte == 35 || byte == 36 || byte == 37 || byte == 38 || byte == 39
        || byte == 42 || byte == 43 || byte == 45 || byte == 46 || byte == 94 || byte == 95
        || byte == 96 || byte == 124 || byte == 126
}

/// The statuses accepted by `redirect`.
pub open spec fn redirect_status(s: u16) -> bool {
    s == 301 || s == 302 || s == 303 || s == 307 || s == 308
}

/// The complete set of redirect statuses accepted by `redirect`, in ascending order.
pub fn redirect_statuses() -> (r: Vec<u16>)
    ensures
        r@ == seq![301u16, 302u16, 303u16, 307u16, 308u16],
{
    vec![301, 302, 303, 307, 308]
}


// ---------------------------------------------------------------------------
// Spellings
// ---------------------------------------------------------------------------

/// One canonical spelling/form and all compatibility aliases for it.
#[derive(Clone, Debug, PartialEq, Eq)]
pub struct RuleSyntaxSpelling {
    /// Help topics that describe this spelling.
    pub topics: Vec<&'static str>,
    /// Canonical spelling used by named dispatch or symbolic matcher form.
    pub canonical: &'static str,
    /// Additional spellings accepted by the parser.
    pub aliases: Vec<&'static str>,
    /// Whether accepted source begins with the spelling and carries a suffix.
    pub prefix: bool,
}

/// A spelling as plain data: canonical form, aliases, and whether it is a prefix form.
pub type SpellingView = (Seq<char>, Seq<&'static str>, bool);

impl View for RuleSyntaxSpelling {
    type V = SpellingView;

    open spec fn view(&self) -> SpellingView {
        (self.canonical@, self.aliases@, self.prefix)
    }
}

/// The views of a list of spellings.
pub open spec fn spelling_views(v: Seq<RuleSyntaxSpelling>) -> Seq<SpellingView> {
    v.map_values(|x: RuleSyntaxSpelling| x@)
}

/// The help topics of a list of spellings.
pub open spec fn topic_views(v: Seq<RuleSyntaxSpelling>) -> Seq<Seq<&'static str>> {
    v.map_values(|x: RuleSyntaxSpelling| x.topics@)
}

fn spelling(
    topics: Vec<&'static str>,
    canonical: &'static str,
    aliases: Vec<&'static str>,
    prefix: bool,
) -> (r: RuleSyntaxSpelling)
    ensures
        r@ == (canonical@, aliases@, prefix),
        r.topics@ == topics@,
{
    RuleSyntaxSpelling { topics, canonical, aliases, prefix }
}

/// `s` begins with `p` and continues past it.
pub open spec fn strict_prefix(s: Seq<char>, p: Seq<char>) -> bool {
    has_prefix(s, p) && s.len() > p.len()
}

/// Whether a spelling accepts `s`: a prefix form accepts text that continues past its canonical
/// spelling or an alias; another form accepts exactly its canonical spelling or an alias.
pub open spec fn accepts_spec(sp: SpellingView, s: Seq<char>) -> bool {
    if sp.2 {
        strict_prefix(s, sp.0) || exists|i: int| 0 <= i < sp.1.len() && strict_prefix(s, (#[trigger] sp.1[i])@)
    } else {
        s == sp.0 || exists|i: int| 0 <= i < sp.1.len() && s == (#[trigger] sp.1[i])@
    }
}

impl RuleSyntaxSpelling {
    /// Reports whether `input` is the canonical spelling or an accepted alias.
    pub fn accepts(&self, input: &str) -> (r: bool)
        ensures
            r == accepts_spec(self@, input@),
    {
        let s = chars_of(input);
        let c = chars_of(self.canonical);
        if self.prefix {
            if starts_with(&s, &c) && s.len() > c.len() {
                return true;
            }
            let mut i: usize = 0;
            while i < self.aliases.len()
                invariant
                    i <= self.aliases@.len(),
                    s@ == input@,
                    self.prefix,
                    !strict_prefix(s@, self@.0),
                    forall|j: int| 0 <= j < i ==> !strict_prefix(s@, (#[trigger] self@.1[j])@),
                decreases self.aliases@.len() - i,
            {
                let a = chars_of(self.aliases[i]);
                assert(self@.1[i as int]@ == a@);
                if starts_with(&s, &a) && s.len() > a.len() {
                    assert(strict_prefix(s@, self@.1[i as int]@));
                    assert(accepts_spec(self@, s@));
                    return true;
                }
                i += 1;
            }
            false
        } else {
            if seq_eq(&s, &c) {
                return true;
            }
            let mut i: usize = 0;
            while i < self.aliases.len()
                invariant
                    i <= self.aliases@.len(),
                    s@ == input@,
                    !self.prefix,
                    s@ != self@.0,
                    forall|j: int| 0 <= j < i ==> s@ != (#[trigger] self@.1[j])@,
                decreases self.aliases@.len() - i,
            {
                let a = chars_of(self.aliases[i]);
                assert(self@.1[i as int]@ == a@);
                if seq_eq(&s, &a) {
                    assert(s@ == self@.1[i as int]@);
                    assert(accepts_spec(self@, s@));
                    return true;
                }
                i += 1;
            }
            false
        }
    }
}

/// The canonical spelling of the first spelling that accepts `s`.
pub open spec fn canonical_in(sps: Seq<SpellingView>, s: Seq<char>) -> Option<Seq<char>>
    decreases sps.len(),
{
    if sps.len() == 0 {
        None
    } else if accepts_spec(sps[0], s) {
        Some(sps[0].0)
    } else {
        canonical_in(sps.drop_first(), s)
    }
}

/// The canonical spelling of the first spelling whose canonical form itself matches `s`.
pub open spec fn canonical_v3_in(sps: Seq<SpellingView>, s: Seq<char>) -> Option<Seq<char>>
    decreases sps.len(),
{
    if sps.len() == 0 {
        None
    } else if (if sps[0].2 {
        strict_prefix(s, sps[0].0)
    } else {
        s == sps[0].0
    }) {
        Some(sps[0].0)
    } else {
        canonical_v3_in(sps.drop_first(), s)
    }
}

fn canonical_name(spellings: &Vec<RuleSyntaxSpelling>, input: &str) -> (r: Option<&'static str>)
    ensures
        match r {
            Some(c) => canonical_in(spelling_views(spellings@), input@) == Some(c@),
            None => canonical_in(spelling_views(spellings@), input@) is None,
        },
{
    let mut i: usize = 0;
    assert(spelling_views(spellings@).skip(0) == spelling_views(spellings@));
    while i < spellings.len()
        invariant
            i <= spellings@.len(),
            canonical_in(spelling_views(spellings@), input@) == canonical_in(
                spelling_views(spellings@).skip(i as int),
                input@,
            ),
        decreases spellings@.len() - i,
    {
        let ghost rest = spelling_views(spellings@).skip(i as int);
        assert(rest[0] == spellings@[i as int]@);
        assert(rest.drop_first() == spelling_views(spellings@).skip(i + 1));
        if spellings[i].accepts(input) {
            return Some(spellings[i].canonical);
        }
        i += 1;
    }
    None
}

fn canonical_v3_name(spellings: &Vec<RuleSyntaxSpelling>, input: &str) -> (r: Option<&'static str>)
    ensures
        match r {
            Some(c) => canonical_v3_in(spelling_views(spellings@), input@) == Some(c@),
            None => canonical_v3_in(spelling_views(spellings@), input@) is None,
        },
{
    let s = chars_of(input);
    let mut i: usize = 0;
    assert(spelling_views(spellings@).skip(0) == spelling_views(spellings@));
    while i < spellings.len()
        invariant
            i <= spellings@.len(),
            s@ == input@,
            canonical_v3_in(spelling_views(spellings@), input@) == canonical_v3_in(
                spelling_views(spellings@).skip(i as int),
                input@,
            ),
        decreases spellings@.len() - i,
    {
        let ghost rest = spelling_views(spellings@).skip(i as int);
        assert(rest[0] == spellings@[i as int]@);
        assert(rest.drop_first() == spelling_views(spellings@).skip(i + 1));
        let c = chars_of(spellings[i].canonical);
        let hit = if spellings[i].prefix {
            starts_with(&s, &c) && s.len() > c.len()
        } else {
            seq_eq(&s, &c)
        };
        if hit {
            return Some(spellings[i].canonical);
        }
        i += 1;
    }
    None
}

/// Returns the canonical action spelling for an accepted name.
pub fn canonical_action_name(input: &str) -> (r: Option<&'static str>)
    ensures
        match r {
            Some(c) => canonical_in(action_spellings(), input@) == Some(c@),
            None => canonical_in(action_spellings(), input@) is None,
        },
{
    canonical_name(&action_syntax(), input)
}

/// Returns the canonical action spelling when `input` is itself canonical.
pub fn canonical_v3_action_name(input: &str) -> (r: Option<&'static str>)
    ensures
        match r {
            Some(c) => canonical_v3_in(action_spellings(), input@) == Some(c@),
            None => canonical_v3_in(action_spellings(), input@) is None,
        },
{
    canonical_v3_name(&action_syntax(), input)
}

/// Returns the canonical condition spelling for an accepted name.
pub fn canonical_condition_name(input: &str) -> (r: Option<&'static str>)
    ensures
        match r {
            Some(c) => canonical_in(condition_spellings(), input@) == Some(c@),
            None => canonical_in(condition_spellings(), input@) is None,
        },
{
    canonical_name(&condition_syntax(), input)
}

/// Returns the canonical condition spelling when `input` is itself canonical.
pub fn canonical_v3_condition_name(input: &str) -> (r: Option<&'static str>)
    ensures
        match r {
            Some(c) => canonical_v3_in(condition_spellings(), input@) == Some(c@),
            None => canonical_v3_in(condition_spellings(), input@) is None,
        },
{
    canonical_v3_name(&condition_syntax(), input)
}

/// Returns the canonical property spelling for an accepted name.
pub fn canonical_property_name(input: &str) -> (r: Option<&'static str>)
    ensures
        match r {
            Some(c) => canonical_in(property_spellings(), input@) == Some(c@),
            None => canonical_in(property_spellings(), input@) is None,
        },
{
    canonical_name(&property_syntax(), input)
}

/// The texts of a list of literals.
pub open spec fn literal_seq(v: Seq<&'static str>) -> Seq<Seq<char>> {
    v.map_values(|a: &'static str| a@)
}

/// The first of `prefixes` that `s` starts with, and the rest of `s` after it.
pub open spec fn first_prefix_rest(s: Seq<char>, prefixes: Seq<Seq<char>>) -> Option<Seq<char>>
    decreases prefixes.len(),
{
    if prefixes.len() == 0 {
        None
    } else if has_prefix(s, prefixes[0]) {
        Some(s.skip(prefixes[0].len() as int))
    } else {
        first_prefix_rest(s, prefixes.drop_first())
    }
}

/// The canonical property and, for a prefix form, the rest after the matched prefix (possibly
/// empty; other forms give an empty rest).
pub open spec fn property_in(sps: Seq<SpellingView>, s: Seq<char>) -> Option<(Seq<char>, Seq<char>)>
    decreases sps.len(),
{
    if sps.len() == 0 {
        None
    } else if sps[0].2 {
        match first_prefix_rest(s, seq![sps[0].0] + literal_seq(sps[0].1)) {
            Some(rest) => Some((sps[0].0, rest)),
            None => property_in(sps.drop_first(), s),
        }
    } else if s == sps[0].0 || literal_seq(sps[0].1).contains(s) {
        Some((sps[0].0, seq![]))
    } else {
        property_in(sps.drop_first(), s)
    }
}

/// Returns the canonical property spelling and, for prefix spellings, the remainder after the
/// matched prefix.
pub fn canonical_property(input: &str) -> (r: Option<(&'static str, String)>)
    ensures
        match r {
            Some((c, rest)) => property_in(property_spellings(), input@) == Some((c@, rest@)),
            None => property_in(property_spellings(), input@) is None,
        },
{
    let sps = property_syntax();
    let s = chars_of(input);
    let mut i: usize = 0;
    assert(spelling_views(sps@).skip(0) == spelling_views(sps@));
    while i < sps.len()
        invariant
            i <= sps@.len(),
            s@ == input@,
            spelling_views(sps@) == property_spellings(),
            property_in(property_spellings(), input@) == property_in(
                spelling_views(sps@).skip(i as int),
                input@,
            ),
        decreases sps@.len() - i,
    {
        let ghost rest = spelling_views(sps@).skip(i as int);
        assert(rest[0] == sps@[i as int]@);
        assert(rest.drop_first() == spelling_views(sps@).skip(i + 1));
        let sp = &sps[i];
        if sp.prefix {
            let ghost prefixes = seq![sp@.0] + literal_seq(sp@.1);
            let c = chars_of(sp.canonical);
            if starts_with(&s, &c) {
                assert(first_prefix_rest(s@, prefixes) == Some(s@.skip(c@.len() as int)));
                return Some((sp.canonical, substring(&s, c.len(), s.len())));
            }
            assert(prefixes.drop_first() == literal_seq(sp@.1));
            let mut j: usize = 0;
            assert(literal_seq(sp@.1).skip(0) == literal_seq(sp@.1));
            while j < sp.aliases.len()
                invariant
                    j <= sp.aliases@.len(),
                    s@ == input@,
                    i < sps@.len(),
                    sp@.2,
                    spelling_views(sps@).skip(i as int)[0] == sp@,
                    prefixes == seq![sp@.0] + literal_seq(sp@.1),
                    property_in(property_spellings(), input@) == property_in(
                        spelling_views(sps@).skip(i as int),
                        input@,
                    ),
                    first_prefix_rest(s@, prefixes) == first_prefix_rest(
                        s@,
                        literal_seq(sp@.1).skip(j as int),
                    ),
                decreases sp.aliases@.len() - j,
            {
                let a = chars_of(sp.aliases[j]);
                assert(literal_seq(sp@.1).skip(j as int)[0] == a@);
                assert(literal_seq(sp@.1).skip(j as int).drop_first() == literal_seq(sp@.1).skip(j + 1));
                if starts_with(&s, &a) {
                    assert(has_prefix(s@, literal_seq(sp@.1).skip(j as int)[0]));
                    assert(first_prefix_rest(s@, literal_seq(sp@.1).skip(j as int)) == Some(
                        s@.skip(a@.len() as int),
                    ));
                    assert(property_in(spelling_views(sps@).skip(i as int), input@) == Some(
                        (sp@.0, s@.skip(a@.len() as int)),
                    ));
                    return Some((sp.canonical, substring(&s, a.len(), s.len())));
                }
                j += 1;
            }
        } else {
            let c = chars_of(sp.canonical);
            let mut hit = seq_eq(&s, &c);
            let mut j: usize = 0;
            while j < sp.aliases.len()
                invariant
                    j <= sp.aliases@.len(),
                    s@ == input@,
                    hit == (s@ == sp@.0 || exists|k: int| 0 <= k < j && s@ == (#[trigger] sp@.1[k])@),
                decreases sp.aliases@.len() - j,
            {
                let a = chars_of(sp.aliases[j]);
                assert(sp@.1[j as int]@ == a@);
                if seq_eq(&s, &a) {
                    hit = true;
                }
                j += 1;
            }
            proof {
                if hit && s@ != sp@.0 {
                    let k = choose|k: int| 0 <= k < sp@.1.len() && s@ == (#[trigger] sp@.1[k])@;
                    assert(literal_seq(sp@.1)[k] == s@);
                }
                if literal_seq(sp@.1).contains(s@) {
                    let k = choose|k: int| 0 <= k < literal_seq(sp@.1).len() && literal_seq(sp@.1)[k] == s@;
                    assert(s@ == sp@.1[k]@);
                }
            }
            if hit {
                return Some((sp.canonical, String::new()));
            }
        }
        i += 1;
    }
    None
}

/// The action spellings: canonical form, aliases, and whether it is a prefix form.
pub open spec fn action_spellings() -> Seq<SpellingView> {
    seq![
        ("host"@, seq![], false),
        ("upstream"@, seq![], false),
        ("direct"@, seq![], false),
        ("mock"@, seq![], false),
        ("mock.raw"@, seq!["mockRaw", "mock_raw", "mock-raw"], false),
        ("map.remote"@, seq!["mapRemote", "map_remote", "map-remote"], false),
        ("status"@, seq![], false),
        ("redirect"@, seq![], false),
        ("req.header"@, seq![], false),
        ("res.header"@, seq![], false),
        ("res.status"@, seq![], false),
        ("req.method"@, seq![], false),
        ("req.cookie"@, seq![], false),
        ("res.cookie"@, seq![], false),
        ("req.ua"@, seq![], false),
        ("req.referer"@, seq![], false),
        ("req.auth"@, seq![], false),
        ("req.forwarded"@, seq![], false),
        ("req.type"@, seq![], false),
        ("req.charset"@, seq![], false),
        ("res.cors"@, seq![], false),
        ("res.type"@, seq![], false),
        ("res.charset"@, seq![], false),
        ("res.merge"@, seq![], false),
        ("res.trailer"@, seq![], false),
        ("attachment"@, seq![], false),
        ("cache"@, seq![], false),
        ("tls"@, seq![], false),
        ("url.rewrite"@, seq![], false),
        ("url.query"@, seq![], false),
        ("delete"@, seq![], false),
        ("req.body.set"@, seq![], false),
        ("req.body.prepend"@, seq![], false),
        ("req.body.append"@, seq![], false),
        ("req.body.replace"@, seq![], false),
        ("res.body.set"@, seq![], false),
        ("res.body.prepend"@, seq![], false),
        ("res.body.append"@, seq![], false),
        ("res.body.replace"@, seq![], false),
        ("inject"@, seq![], false),
        ("delay"@, seq![], false),
        ("throttle"@, seq![], false),
        ("bypass"@, seq![], false),
        ("hide"@, seq![], false),
        ("tag"@, seq![], false),
        ("skip"@, seq![], false),
    ]
}

/// The help topics of each action spelling, in the same order.
pub open spec fn action_topics() -> Seq<Seq<&'static str>> {
    seq![
        seq!["action.host"],
        seq!["action.upstream"],
        seq!["action.direct"],
        seq!["action.mock"],
        seq!["action.mock"],
        seq!["action.map.remote"],
        seq!["action.status"],
        seq!["action.redirect"],
        seq!["action.req.header"],
        seq!["action.res.header"],
        seq!["action.res.status"],
        seq!["action.req.method"],
        seq!["action.req.cookie"],
        seq!["action.res.cookie"],
        seq!["action.req.ua"],
        seq!["action.req.referer"],
        seq!["action.req.auth"],
        seq!["action.req.forwarded"],
        seq!["action.req.type"],
        seq!["action.req.charset"],
        seq!["action.res.cors"],
        seq!["action.res.type"],
        seq!["action.res.charset"],
        seq!["action.res.merge"],
        seq!["action.res.trailer"],
        seq!["action.attachment"],
        seq!["action.cache"],
        seq!["action.tls"],
        seq!["action.url.rewrite"],
        seq!["action.url.query"],
        seq!["action.delete"],
        seq!["action.req.body.set"],
        seq!["action.req.body.prepend"],
        seq!["action.req.body.append"],
        seq!["action.req.body.replace"],
        seq!["action.res.body.set"],
        seq!["action.res.body.prepend"],
        seq!["action.res.body.append"],
        seq!["action.res.body.replace"],
        seq!["action.inject"],
        seq!["action.delay.req", "action.delay.res"],
        seq!["action.throttle.req", "action.throttle.res"],
        seq!["action.bypass"],
        seq!["action.hide"],
        seq!["action.tag"],
        seq!["action.skip"],
    ]
}

/// The action surface accepted by the parser, in stable order.
pub fn action_syntax() -> (r: Vec<RuleSyntaxSpelling>)
    ensures
        spelling_views(r@) == action_spellings(),
        topic_views(r@) == action_topics(),
{
    let r = vec![
        spelling(vec!["action.host"], "host", vec![], false),
        spelling(vec!["action.upstream"], "upstream", vec![], false),
        spelling(vec!["action.direct"], "direct", vec![], false),
        spelling(vec!["action.mock"], "mock", vec![], false),
        spelling(vec!["action.mock"], "mock.raw", vec!["mockRaw", "mock_raw", "mock-raw"], false),
        spelling(vec!["action.map.remote"], "map.remote", vec!["mapRemote", "map_remote", "map-remote"], false),
        spelling(vec!["action.status"], "status", vec![], false),
        spelling(vec!["action.redirect"], "redirect", vec![], false),
        spelling(vec!["action.req.header"], "req.header", vec![], false),
        spelling(vec!["action.res.header"], "res.header", vec![], false),
        spelling(vec!["action.res.status"], "res.status", vec![], false),
        spelling(vec!["action.req.method"], "req.method", vec![], false),
        spelling(vec!["action.req.cookie"], "req.cookie", vec![], false),
        spelling(vec!["action.res.cookie"], "res.cookie", vec![], false),
        spelling(vec!["action.req.ua"], "req.ua", vec![], false),
        spelling(vec!["action.req.referer"], "req.referer", vec![], false),
        spelling(vec!["action.req.auth"], "req.auth", vec![], false),
        spelling(vec!["action.req.forwarded"], "req.forwarded", vec![], false),
        spelling(vec!["action.req.type"], "req.type", vec![], false),
        spelling(vec!["action.req.charset"], "req.charset", vec![], false),
        spelling(vec!["action.res.cors"], "res.cors", vec![], false),
        spelling(vec!["action.res.type"], "res.type", vec![], false),
        spelling(vec!["action.res.charset"], "res.charset", vec![], false),
        spelling(vec!["action.res.merge"], "res.merge", vec![], false),
        spelling(vec!["action.res.trailer"], "res.trailer", vec![], false),
        spelling(vec!["action.attachment"], "attachment", vec![], false),
        spelling(vec!["action.cache"], "cache", vec![], false),
        spelling(vec!["action.tls"], "tls", vec![], false),
        spelling(vec!["action.url.rewrite"], "url.rewrite", vec![], false),
        spelling(vec!["action.url.query"], "url.query", vec![], false),
        spelling(vec!["action.delete"], "delete", vec![], false),
        spelling(vec!["action.req.body.set"], "req.body.set", vec![], false),
        spelling(vec!["action.req.body.prepend"], "req.body.prepend", vec![], false),
        spelling(vec!["action.req.body.append"], "req.body.append", vec![], false),
        spelling(vec!["action.req.body.replace"], "req.body.replace", vec![], false),
        spelling(vec!["action.res.body.set"], "res.body.set", vec![], false),
        spelling(vec!["action.res.body.prepend"], "res.body.prepend", vec![], false),
        spelling(vec!["action.res.body.append"], "res.body.append", vec![], false),
        spelling(vec!["action.res.body.replace"], "res.body.replace", vec![], false),
        spelling(vec!["action.inject"], "inject", vec![], false),
        spelling(vec!["action.delay.req", "action.delay.res"], "delay", vec![], false),
        spelling(vec!["action.throttle.req", "action.throttle.res"], "throttle", vec![], false),
        spelling(vec!["action.bypass"], "bypass", vec![], false),
        spelling(vec!["action.hide"], "hide", vec![], false),
        spelling(vec!["action.tag"], "tag", vec![], false),
        spelling(vec!["action.skip"], "skip", vec![], false),
    ];
    assert(spelling_views(r@) =~= action_spellings());
    assert(topic_views(r@) =~~= action_topics());
    r
}

/// The condition spellings: canonical form, aliases, and whether it is a prefix form.
pub open spec fn condition_spellings() -> Seq<SpellingView> {
    seq![
        ("method"@, seq![], false),
        ("host"@, seq![], false),
        ("url"@, seq![], false),
        ("client.ip"@, seq!["clientIp", "ip", "client_ip", "client-ip"], false),
        ("server.ip"@, seq!["serverIp", "server_ip", "server-ip"], false),
        ("header"@, seq![], false),
        ("res.header"@, seq!["resHeader", "res_header", "res-header"], false),
        ("body"@, seq![], false),
        ("status"@, seq![], false),
        ("chance"@, seq![], false),
        ("env"@, seq![], false),
        ("any"@, seq![], false),
        ("all"@, seq![], false),
        ("not"@, seq![], false),
    ]
}

/// The help topics of each condition spelling, in the same order.
pub open spec fn condition_topics() -> Seq<Seq<&'static str>> {
    seq![
        seq!["condition.method"],
        seq!["condition.host"],
        seq!["condition.url"],
        seq!["condition.client-ip"],
        seq!["condition.server-ip"],
        seq!["condition.header"],
        seq!["condition.res.header"],
        seq!["condition.body"],
        seq!["condition.status"],
        seq!["condition.chance"],
        seq!["condition.env"],
        seq!["condition.any"],
        seq!["condition.all"],
        seq!["condition.not"],
    ]
}

/// The condition surface accepted by the parser, in stable order.
pub fn condition_syntax() -> (r: Vec<RuleSyntaxSpelling>)
    ensures
        spelling_views(r@) == condition_spellings(),
        topic_views(r@) == condition_topics(),
{
    let r = vec![
        spelling(vec!["condition.method"], "method", vec![], false),
        spelling(vec!["condition.host"], "host", vec![], false),
        spelling(vec!["condition.url"], "url", vec![], false),
        spelling(vec!["condition.client-ip"], "client.ip", vec!["clientIp", "ip", "client_ip", "client-ip"], false),
        spelling(vec!["condition.server-ip"], "server.ip", vec!["serverIp", "server_ip", "server-ip"], false),
        spelling(vec!["condition.header"], "header", vec![], false),
        spelling(vec!["condition.res.header"], "res.header", vec!["resHeader", "res_header", "res-header"], false),
        spelling(vec!["condition.body"], "body", vec![], false),
        spelling(vec!["condition.status"], "status", vec![], false),
        spelling(vec!["condition.chance"], "chance", vec![], false),
        spelling(vec!["condition.env"], "env", vec![], false),
        spelling(vec!["condition.any"], "any", vec![], false),
        spelling(vec!["condition.all"], "all", vec![], false),
        spelling(vec!["condition.not"], "not", vec![], false),
    ];
    assert(spelling_views(r@) =~= condition_spellings());
    assert(topic_views(r@) =~~= condition_topics());
    r
}

/// The matcher spellings: canonical form, aliases, and whether it is a prefix form.
pub open spec fn matcher_spellings() -> Seq<SpellingView> {
    seq![
        ("HOST|URL-GLOB"@, seq![], false),
        ("=ABSOLUTE-URL"@, seq![], false),
        ("/REGEX/"@, seq![], false),
        (":PORT"@, seq![], false),
        ("!MATCHER"@, seq![], false),
    ]
}

/// The help topics of each matcher spelling, in the same order.
pub open spec fn matcher_topics() -> Seq<Seq<&'static str>> {
    seq![
        seq!["matcher.glob"],
        seq!["matcher.exact"],
        seq!["matcher.regex"],
        seq!["matcher.port"],
        seq!["matcher.not"],
    ]
}

/// The matcher surface accepted by the parser, in stable order.
pub fn matcher_syntax() -> (r: Vec<RuleSyntaxSpelling>)
    ensures
        spelling_views(r@) == matcher_spellings(),
        topic_views(r@) == matcher_topics(),
{
    let r = vec![
        spelling(vec!["matcher.glob"], "HOST|URL-GLOB", vec![], false),
        spelling(vec!["matcher.exact"], "=ABSOLUTE-URL", vec![], false),
        spelling(vec!["matcher.regex"], "/REGEX/", vec![], false),
        spelling(vec!["matcher.port"], ":PORT", vec![], false),
        spelling(vec!["matcher.not"], "!MATCHER", vec![], false),
    ];
    assert(spelling_views(r@) =~= matcher_spellings());
    assert(topic_views(r@) =~~= matcher_topics());
    r
}

/// The property spellings: canonical form, aliases, and whether it is a prefix form.
pub open spec fn property_spellings() -> Seq<SpellingView> {
    seq![
        ("@important"@, seq![], false),
        ("@disabled"@, seq![], false),
        ("@tag:"@, seq![], true),
    ]
}

/// The help topics of each property spelling, in the same order.
pub open spec fn property_topics() -> Seq<Seq<&'static str>> {
    seq![
        seq!["property.important"],
        seq!["property.disabled"],
        seq!["property.tag"],
    ]
}

/// The property surface accepted by the parser, in stable order.
pub fn property_syntax() -> (r: Vec<RuleSyntaxSpelling>)
    ensures
        spelling_views(r@) == property_spellings(),
        topic_views(r@) == property_topics(),
{
    let r = vec![
        spelling(vec!["property.important"], "@important", vec![], false),
        spelling(vec!["property.disabled"], "@disabled", vec![], false),
        spelling(vec!["property.tag"], "@tag:", vec![], true),
    ];
    assert(spelling_views(r@) =~= property_spellings());
    assert(topic_views(r@) =~~= property_topics());
    r
}

} // verus!
