//! Regex replacement with `$`-capture expansion under a byte limit on the rendered output.
//!
//! A replacement text is split into literal runs, `$$` (a literal dollar), and capture
//! references (`$1`, `$name`, `${1}`, `${name}`); a `$` that starts no reference stays literal.
use crate::rules::error::{ModelErrorKind, RuleModelError};
use crate::text::{
    append_str, lit, char_utf8_width, chars_of, concat3, decimal, decimal_text, is_alnum,
    lemma_utf8_len_concat, lemma_utf8_len_encode, lemma_utf8_len_prefix_mono,
    lemma_utf8_len_take, parse_unsigned, parse_unsigned_spec, seq_eq, slice_vec, string_of,
    substring, utf8_byte_len, utf8_len, char_is_alnum,
};
use crate::rules::replace_pattern::{found_matches, found_names, pattern_group_names, pattern_matches, RegexReplacePattern};
use vstd::prelude::*;

verus! {

/// One piece of a parsed replacement text.
#[derive(Debug)]
pub enum ReplacementToken {
    Literal(String),
    CaptureIndex(usize),
    CaptureName(String),
    Dollar,
}

/// A replacement piece as plain data.
pub enum TokenView {
    Literal(Seq<char>),
    Index(nat),
    Name(Seq<char>),
    Dollar,
}

impl View for ReplacementToken {
    type V = TokenView;

    open spec fn view(&self) -> TokenView {
        match self {
            ReplacementToken::Literal(s) => TokenView::Literal(s@),
            ReplacementToken::CaptureIndex(i) => TokenView::Index(*i as nat),
            ReplacementToken::CaptureName(n) => TokenView::Name(n@),
            ReplacementToken::Dollar => TokenView::Dollar,
        }
    }
}

/// Number of leading characters of `s` different from `c`.
pub open spec fn run_before(s: Seq<char>, c: char) -> nat
    decreases s.len(),
{
    if s.len() == 0 || s[0] == c {
        0
    } else {
        1 + run_before(s.drop_first(), c)
    }
}

/// Characters of a bare capture name: ASCII alphanumerics and `_`.
pub open spec fn ident_char(c: char) -> bool {
    is_alnum(c) || c == '_'
}

/// Number of leading capture-name characters of `s`.
pub open spec fn ident_run(s: Seq<char>) -> nat
    decreases s.len(),
{
    if s.len() == 0 || !ident_char(s[0]) {
        0
    } else {
        1 + ident_run(s.drop_first())
    }
}

pub proof fn lemma_run_before(s: Seq<char>, c: char)
    ensures
        run_before(s, c) <= s.len(),
        run_before(s, c) < s.len() ==> s[run_before(s, c) as int] == c,
        forall|j: int| 0 <= j < run_before(s, c) ==> s[j] != c,
    decreases s.len(),
{
    if s.len() > 0 && s[0] != c {
        lemma_run_before(s.drop_first(), c);
        assert forall|j: int| 0 <= j < run_before(s, c) implies s[j] != c by {
            if j > 0 {
                assert(s[j] == s.drop_first()[j - 1]);
            }
        }
    }
}

pub proof fn lemma_ident_run(s: Seq<char>)
    ensures
        ident_run(s) <= s.len(),
        ident_run(s) < s.len() ==> !ident_char(s[ident_run(s) as int]),
        forall|j: int| 0 <= j < ident_run(s) ==> ident_char(s[j]),
    decreases s.len(),
{
    if s.len() > 0 && ident_char(s[0]) {
        lemma_ident_run(s.drop_first());
        assert forall|j: int| 0 <= j < ident_run(s) implies ident_char(s[j]) by {
            if j > 0 {
                assert(s[j] == s.drop_first()[j - 1]);
            }
        }
    }
}

/// A reference names a group by number when it parses as a `usize`, by name otherwise.
pub open spec fn name_or_index(name: Seq<char>) -> TokenView {
    match parse_unsigned_spec(name, usize::MAX as nat) {
        Some(v) => TokenView::Index(v),
        None => TokenView::Name(name),
    }
}

/// The capture reference at the start of `r` and its length in characters: `${...}` up to the
/// first `}`, or `$` followed by one or more name characters.
pub open spec fn capture_token_spec(r: Seq<char>) -> Option<(TokenView, int)> {
    if r.len() <= 1 || r[0] != '$' {
        None
    } else if r[1] == '{' {
        let c = run_before(r.skip(2), '}') as int;
        if c >= r.len() - 2 {
            None
        } else {
            Some((name_or_index(r.subrange(2, c + 2)), c + 3))
        }
    } else {
        let e = ident_run(r.skip(1)) + 1;
        if e == 1 {
            None
        } else {
            Some((name_or_index(r.subrange(1, e as int)), e as int))
        }
    }
}

/// The pieces of a replacement text, in order.
pub open spec fn template_spec(r: Seq<char>) -> Seq<TokenView>
    decreases r.len(),
{
    if r.len() == 0 {
        Seq::empty()
    } else {
        let o = run_before(r, '$') as int;
        proof {
            lemma_run_before(r, '$');
        }
        if o >= r.len() {
            seq![TokenView::Literal(r)]
        } else if o > 0 {
            seq![TokenView::Literal(r.take(o))] + template_spec(r.skip(o))
        } else if r.len() >= 2 && r[1] == '$' {
            seq![TokenView::Dollar] + template_spec(r.skip(2))
        } else {
            proof {
                lemma_run_before(r.skip(2), '}');
                lemma_ident_run(r.skip(1));
            }
            match capture_token_spec(r) {
                None => seq![TokenView::Literal(seq!['$'])] + template_spec(r.skip(1)),
                Some(p) => if 0 < p.1 <= r.len() {
                    seq![p.0] + template_spec(r.skip(p.1))
                } else {
                    Seq::empty()
                },
            }
        }
    }
}

/// Reads a capture reference as a group number when it parses as one, as a name otherwise.
pub fn capture_name_or_index(name: &[char]) -> (r: ReplacementToken)
    ensures
        r@ == name_or_index(name@),
{
    match parse_unsigned(name, usize::MAX as u64) {
        Some(v) => ReplacementToken::CaptureIndex(v as usize),
        None => ReplacementToken::CaptureName(string_of(name)),
    }
}

/// The capture reference at the start of `replacement` and the number of characters it spans.
pub fn capture_token(replacement: &[char]) -> (r: Option<(ReplacementToken, usize)>)
    ensures
        match (r, capture_token_spec(replacement@)) {
            (Some(a), Some(b)) => a.0@ == b.0 && a.1 == b.1,
            (None, None) => true,
            _ => false,
        },
{
    let n = replacement.len();
    if n <= 1 || replacement[0] != '$' {
        return None;
    }
    if replacement[1] == '{' {
        let ghost t = replacement@.skip(2);
        proof {
            lemma_run_before(t, '}');
        }
        let mut c: usize = 2;
        while c < n && replacement[c] != '}'
            invariant
                2 <= c <= n,
                n == replacement@.len(),
                t == replacement@.skip(2),
                forall|j: int| 2 <= j < c ==> replacement@[j] != '}',
                c - 2 <= run_before(t, '}'),
                run_before(t, '}') <= t.len(),
                run_before(t, '}') < t.len() ==> t[run_before(t, '}') as int] == '}',
            decreases n - c,
        {
            assert(t[c - 2] == replacement@[c as int]);
            c += 1;
        }
        assert(c - 2 == run_before(t, '}')) by {
            if c - 2 < run_before(t, '}') {
                assert(t[c - 2] == replacement@[c as int]);
            }
        }
        if c >= n {
            return None;
        }
        let name = slice_vec(replacement, 2, c);
        return Some((capture_name_or_index(&name), c + 1));
    }
    let ghost t = replacement@.skip(1);
    proof {
        lemma_ident_run(t);
    }
    let mut e: usize = 1;
    while e < n && (char_is_alnum(replacement[e]) || replacement[e] == '_')
        invariant
            1 <= e <= n,
            n == replacement@.len(),
            t == replacement@.skip(1),
            e - 1 <= ident_run(t),
            ident_run(t) <= t.len(),
            ident_run(t) < t.len() ==> !ident_char(t[ident_run(t) as int]),
        decreases n - e,
    {
        assert(t[e - 1] == replacement@[e as int]);
        e += 1;
    }
    assert(e - 1 == ident_run(t)) by {
        if e - 1 < ident_run(t) {
            assert(t[e - 1] == replacement@[e as int]);
        }
    }
    if e == 1 {
        return None;
    }
    let name = slice_vec(replacement, 1, e);
    Some((capture_name_or_index(&name), e))
}

/// A parsed replacement text.
pub struct ReplacementTemplate {
    pub tokens: Vec<ReplacementToken>,
}

/// The views of a list of tokens.
pub open spec fn token_views(ts: Seq<ReplacementToken>) -> Seq<TokenView> {
    ts.map_values(|t: ReplacementToken| t@)
}

/// Text of group `i` of a match, empty where the group is absent or did not participate.
pub open spec fn group_text(groups: Seq<Option<Seq<char>>>, i: int) -> Seq<char> {
    if 0 <= i < groups.len() && groups[i] is Some {
        groups[i]->0
    } else {
        Seq::empty()
    }
}

/// Index of the first group called `name`.
pub open spec fn named_index(names: Seq<Option<Seq<char>>>, name: Seq<char>) -> Option<int>
    decreases names.len(),
{
    if names.len() == 0 {
        None
    } else if names[0] == Some(name) {
        Some(0)
    } else {
        match named_index(names.drop_first(), name) {
            Some(i) => Some(i + 1),
            None => None,
        }
    }
}

/// What one piece renders to for a match with the given group texts and group names.
pub open spec fn token_text(
    t: TokenView,
    groups: Seq<Option<Seq<char>>>,
    names: Seq<Option<Seq<char>>>,
) -> Seq<char> {
    match t {
        TokenView::Literal(v) => v,
        TokenView::Index(i) => group_text(groups, i as int),
        TokenView::Name(n) => match named_index(names, n) {
            Some(i) => group_text(groups, i),
            None => Seq::empty(),
        },
        TokenView::Dollar => seq!['$'],
    }
}

/// What a whole template renders to for one match.
pub open spec fn expand_spec(
    ts: Seq<TokenView>,
    groups: Seq<Option<Seq<char>>>,
    names: Seq<Option<Seq<char>>>,
) -> Seq<char>
    decreases ts.len(),
{
    if ts.len() == 0 {
        Seq::empty()
    } else {
        expand_spec(ts.drop_last(), groups, names) + token_text(ts.last(), groups, names)
    }
}

/// Optional texts as plain data.
pub open spec fn opt_texts(v: Seq<Option<String>>) -> Seq<Option<Seq<char>>> {
    v.map_values(|o: Option<String>| match o {
        Some(s) => Some(s@),
        None => None,
    })
}

/// The identity of the error for output over the byte limit in `context`.
pub open spec fn limit_message(context: Seq<char>, limit: nat) -> Seq<char> {
    context + " exceeds the "@ + decimal(limit) + "-byte rendered output limit"@
}

/// The error for rendered output over `limit` bytes.
pub fn limit_error(context: &'static str, limit: usize) -> (r: RuleModelError)
    ensures
        r.kind() == ModelErrorKind::LimitExceeded,
        r.context_spec() == context,
        r.message_spec() == limit_message(context@, limit as nat),
{
    let head = concat3(context, " exceeds the ", decimal_text(limit as u64).as_str());
    let message = concat3(head.as_str(), "-byte rendered output limit", "");
    proof {
        reveal_strlit("");
    }
    assert(message@ =~= limit_message(context@, limit as nat));
    RuleModelError::LimitExceeded { context, message }
}

/// Appends `value` to `output` only if the result stays within `limit` UTF-8 bytes.
pub fn push_bounded(output: &mut String, value: &str, limit: usize, context: &'static str) -> (r:
    Result<(), RuleModelError>)
    ensures
        r is Ok <==> utf8_len(old(output)@) + utf8_len(value@) <= limit,
        r is Ok ==> final(output)@ == old(output)@ + value@,
        r is Err ==> final(output)@ == old(output)@,
        r matches Err(e) ==> e.kind() == ModelErrorKind::LimitExceeded && e.context_spec()
            == context && e.message_spec() == limit_message(context@, limit as nat),
{
    let used = utf8_byte_len(output.as_str());
    let more = utf8_byte_len(value);
    match used.checked_add(more) {
        Some(total) => {
            if total > limit {
                return Err(limit_error(context, limit));
            }
        },
        None => {
            return Err(limit_error(context, limit));
        },
    }
    append_str(output, value);
    Ok(())
}

impl ReplacementTemplate {
    /// Splits a replacement text into literal runs, `$$`, and capture references.
    pub fn parse(replacement: &str) -> (r: ReplacementTemplate)
        ensures
            token_views(r.tokens@) == template_spec(replacement@),
    {
        let s = chars_of(replacement);
        let n = s.len();
        let mut tokens: Vec<ReplacementToken> = Vec::new();
        let mut i: usize = 0;
        assert(s@.skip(0) =~= s@);
        while i < n
            invariant
                n == s@.len(),
                s@ == replacement@,
                i <= n,
                template_spec(s@) == token_views(tokens@) + template_spec(s@.skip(i as int)),
            decreases n - i,
        {
            let ghost rest = s@.skip(i as int);
            let ghost before = tokens@;
            proof {
                lemma_run_before(rest, '$');
            }
            let mut o: usize = i;
            while o < n && s[o] != '$'
                invariant
                    i <= o <= n,
                    n == s@.len(),
                    rest == s@.skip(i as int),
                    o - i <= run_before(rest, '$'),
                    run_before(rest, '$') <= rest.len(),
                    run_before(rest, '$') < rest.len() ==> rest[run_before(rest, '$') as int] == '$',
                decreases n - o,
            {
                assert(rest[o - i] == s@[o as int]);
                o += 1;
            }
            assert(o - i == run_before(rest, '$')) by {
                if o - i < run_before(rest, '$') {
                    assert(rest[o - i] == s@[o as int]);
                }
            }
            if o >= n {
                let lit_text = substring(&s, i, n);
                assert(rest =~= s@.subrange(i as int, n as int));
                tokens.push(ReplacementToken::Literal(lit_text));
                assert(token_views(tokens@) =~= token_views(before).push(TokenView::Literal(rest)));
                assert(template_spec(rest) == seq![TokenView::Literal(rest)]);
                assert(s@.skip(n as int) =~= Seq::<char>::empty());
                assert(template_spec(s@) == token_views(tokens@) + template_spec(s@.skip(n as int)));
                i = n;
            } else if o > i {
                let lit_text = substring(&s, i, o);
                assert(rest.take(o - i) =~= s@.subrange(i as int, o as int));
                assert(rest.skip(o - i) =~= s@.skip(o as int));
                tokens.push(ReplacementToken::Literal(lit_text));
                assert(token_views(tokens@) =~= token_views(before).push(
                    TokenView::Literal(rest.take(o - i)),
                ));
                i = o;
            } else if i + 1 < n && s[i + 1] == '$' {
                assert(rest[1] == s@[i + 1]);
                assert(rest.skip(2) =~= s@.skip(i + 2));
                tokens.push(ReplacementToken::Dollar);
                assert(token_views(tokens@) =~= token_views(before).push(TokenView::Dollar));
                i = i + 2;
            } else {
                let tail = slice_vec(&s, i, n);
                assert(tail@ =~= rest);
                proof {
                    lemma_run_before(rest.skip(2), '}');
                    lemma_ident_run(rest.skip(1));
                }
                match capture_token(&tail) {
                    None => {
                        proof {
                            reveal_strlit("$");
                            assert("$"@ =~= seq!['$']);
                        }
                        tokens.push(ReplacementToken::Literal(lit("$")));
                        assert(rest.skip(1) =~= s@.skip(i + 1));
                        assert(token_views(tokens@) =~= token_views(before).push(
                            TokenView::Literal(seq!['$']),
                        ));
                        i = i + 1;
                    },
                    Some((token, end)) => {
                        tokens.push(token);
                        assert(rest.skip(end as int) =~= s@.skip(i + end));
                        assert(token_views(tokens@) =~= token_views(before).push(token@));
                        i = i + end;
                    },
                }
            }
        }
        ReplacementTemplate { tokens }
    }

    /// Renders the template for one match onto `output`, failing once `output` would pass
    /// `limit` UTF-8 bytes.
    pub fn expand_bounded(
        &self,
        groups: &[Option<String>],
        names: &[Option<String>],
        output: &mut String,
        limit: usize,
        context: &'static str,
    ) -> (r: Result<(), RuleModelError>)
        requires
            utf8_len(old(output)@) <= limit,
        ensures
            r is Ok <==> utf8_len(
                old(output)@ + expand_spec(token_views(self.tokens@), opt_texts(groups@), opt_texts(names@)),
            ) <= limit,
            r is Ok ==> final(output)@ == old(output)@ + expand_spec(
                token_views(self.tokens@),
                opt_texts(groups@),
                opt_texts(names@),
            ),
            utf8_len(final(output)@) <= limit,
            r matches Err(e) ==> e.kind() == ModelErrorKind::LimitExceeded && e.context_spec()
                == context && e.message_spec() == limit_message(context@, limit as nat),
    {
        let ghost ts = token_views(self.tokens@);
        let ghost gs = opt_texts(groups@);
        let ghost ns = opt_texts(names@);
        let ghost start = output@;
        let mut k: usize = 0;
        while k < self.tokens.len()
            invariant
                k <= self.tokens@.len(),
                ts == token_views(self.tokens@),
                gs == opt_texts(groups@),
                ns == opt_texts(names@),
                output@ == start + expand_spec(ts.take(k as int), gs, ns),
                start == old(output)@,
                utf8_len(output@) <= limit,
            decreases self.tokens@.len() - k,
        {
            assert(ts.take(k + 1).drop_last() =~= ts.take(k as int));
            let ghost piece = token_text(ts[k as int], gs, ns);
            let value: Option<&str> = match &self.tokens[k] {
                ReplacementToken::Literal(v) => Some(v.as_str()),
                ReplacementToken::CaptureIndex(index) => {
                    if *index < groups.len() {
                        match &groups[*index] {
                            Some(g) => Some(g.as_str()),
                            None => None,
                        }
                    } else {
                        None
                    }
                },
                ReplacementToken::CaptureName(name) => match find_named(names, name.as_str()) {
                    Some(i) => {
                        if i < groups.len() {
                            match &groups[i] {
                                Some(g) => Some(g.as_str()),
                                None => None,
                            }
                        } else {
                            None
                        }
                    },
                    None => None,
                },
                ReplacementToken::Dollar => Some("$"),
            };
            proof {
                reveal_strlit("$");
            }
            assert(match value {
                Some(v) => v@ == piece,
                None => piece.len() == 0,
            });
            match value {
                Some(v) => {
                    let ghost cur = output@;
                    let pushed = push_bounded(output, v, limit, context);
                    if pushed.is_err() {
                        proof {
                            let rest = expand_spec(ts.skip(k + 1), gs, ns);
                            lemma_expand_split(ts, gs, ns, k as int);
                            lemma_utf8_len_concat(cur, piece);
                            lemma_utf8_len_concat(cur + piece, rest);
                            assert(start + expand_spec(ts, gs, ns) =~= cur + piece + rest);
                            assert(utf8_len(start + expand_spec(ts, gs, ns)) > limit);
                        }
                        return pushed;
                    }
                    proof {
                        lemma_utf8_len_concat(cur, v@);
                    }
                },
                None => {
                    assert(piece =~= Seq::<char>::empty());
                },
            }
            assert(output@ =~= start + expand_spec(ts.take(k + 1), gs, ns));
            k += 1;
        }
        assert(ts.take(k as int) =~= ts);
        Ok(())
    }
}

/// Splitting a rendering at piece `k`: everything before it, the piece, and everything after.
pub proof fn lemma_expand_split(
    ts: Seq<TokenView>,
    gs: Seq<Option<Seq<char>>>,
    ns: Seq<Option<Seq<char>>>,
    k: int,
)
    requires
        0 <= k < ts.len(),
    ensures
        expand_spec(ts, gs, ns) == expand_spec(ts.take(k), gs, ns) + token_text(ts[k], gs, ns)
            + expand_spec(ts.skip(k + 1), gs, ns),
    decreases ts.len(),
{
    if k == ts.len() - 1 {
        assert(ts.take(k) =~= ts.drop_last());
        assert(ts.skip(k + 1) =~= Seq::<TokenView>::empty());
        assert(expand_spec(ts.skip(k + 1), gs, ns) =~= Seq::<char>::empty());
    } else {
        lemma_expand_split(ts.drop_last(), gs, ns, k);
        assert(ts.drop_last().take(k) =~= ts.take(k));
        assert(ts.drop_last()[k] == ts[k]);
        let mid = ts.drop_last().skip(k + 1);
        assert(ts.skip(k + 1).drop_last() =~= mid);
        assert(ts.skip(k + 1).last() == ts.last());
    }
}

/// The first group whose name is `name`.
fn find_named(names: &[Option<String>], name: &str) -> (r: Option<usize>)
    ensures
        match (r, named_index(opt_texts(names@), name@)) {
            (Some(i), Some(j)) => i == j && i < names@.len(),
            (None, None) => true,
            _ => false,
        },
{
    let ghost ns = opt_texts(names@);
    let n = chars_of(name);
    let mut i: usize = 0;
    assert(ns.skip(0) =~= ns);
    while i < names.len()
        invariant
            i <= names@.len(),
            ns == opt_texts(names@),
            n@ == name@,
            named_index(ns, name@) == match named_index(ns.skip(i as int), name@) {
                Some(j) => Some(j + i),
                None => None,
            },
        decreases names@.len() - i,
    {
        let ghost rest = ns.skip(i as int);
        assert(rest.drop_first() =~= ns.skip(i + 1));
        match &names[i] {
            Some(g) => {
                if seq_eq(&chars_of(g.as_str()), &n) {
                    assert(rest[0] == Some(name@));
                    return Some(i);
                }
                assert(rest[0] != Some(name@));
            },
            None => {
                assert(rest[0] != Some(name@));
            },
        }
        i += 1;
    }
    assert(ns.skip(i as int) =~= Seq::<Option<Seq<char>>>::empty());
    None
}

/// One regex match: its byte range in the searched text and the text of each capture group,
/// group 0 being the whole match.
#[derive(Debug)]
pub struct RegexMatch {
    pub start: usize,
    pub end: usize,
    pub groups: Vec<Option<String>>,
}

/// `b` is the UTF-8 byte offset of a character position of `s`.
pub open spec fn char_boundary(s: Seq<char>, b: int) -> bool {
    exists|k: int| 0 <= k <= s.len() && #[trigger] utf8_len(s.take(k)) == b
}

/// The character position of `s` whose UTF-8 byte offset is `b`.
pub open spec fn char_pos(s: Seq<char>, b: int) -> int {
    choose|k: int| 0 <= k <= s.len() && #[trigger] utf8_len(s.take(k)) == b
}

/// Matches that a search of `s` can yield: each range lies on character boundaries of `s` and
/// starts no later than it ends, and each ends no later than the next one starts.
pub open spec fn matches_in(s: Seq<char>, ms: Seq<RegexMatch>) -> bool {
    &&& forall|j: int|
        0 <= j < ms.len() ==> #[trigger] ms[j].start <= ms[j].end && char_boundary(
            s,
            ms[j].start as int,
        ) && char_boundary(s, ms[j].end as int)
    &&& forall|i: int, j: int| 0 <= i < j < ms.len() ==> #[trigger] ms[i].end <= #[trigger] ms[j].start
}

/// Byte offset where the text after the last of `ms` begins.
pub open spec fn resume_at(ms: Seq<RegexMatch>) -> int {
    if ms.len() == 0 {
        0
    } else {
        ms.last().end as int
    }
}

/// The output up to the end of the last of `ms`: for each match, the text since the previous
/// match followed by the template rendered for it.
pub open spec fn pieces(
    s: Seq<char>,
    ms: Seq<RegexMatch>,
    ns: Seq<Option<Seq<char>>>,
    ts: Seq<TokenView>,
) -> Seq<char>
    decreases ms.len(),
{
    if ms.len() == 0 {
        Seq::empty()
    } else {
        let before = ms.drop_last();
        pieces(s, before, ns, ts) + s.subrange(
            char_pos(s, resume_at(before)),
            char_pos(s, ms.last().start as int),
        ) + expand_spec(ts, opt_texts(ms.last().groups@), ns)
    }
}

/// `s` with every match of `ms` replaced by the rendered template.
pub open spec fn replaced(
    s: Seq<char>,
    ms: Seq<RegexMatch>,
    ns: Seq<Option<Seq<char>>>,
    ts: Seq<TokenView>,
) -> Seq<char> {
    pieces(s, ms, ns, ts) + s.skip(char_pos(s, resume_at(ms)))
}

/// What replacing the matches `ms` of `s` gives under a byte limit: the replaced text when it
/// fits in `limit` UTF-8 bytes, the limit error for `context` otherwise.
pub open spec fn replace_outcome(
    r: Result<String, RuleModelError>,
    s: Seq<char>,
    ms: Seq<RegexMatch>,
    ns: Seq<Option<Seq<char>>>,
    ts: Seq<TokenView>,
    limit: usize,
    context: &'static str,
) -> bool {
    &&& r is Ok <==> utf8_len(replaced(s, ms, ns, ts)) <= limit
    &&& r matches Ok(out) ==> out@ == replaced(s, ms, ns, ts)
    &&& r matches Err(e) ==> e.kind() == ModelErrorKind::LimitExceeded && e.context_spec()
        == context && e.message_spec() == limit_message(context@, limit as nat)
}

/// Equal byte offsets come from equal character positions.
pub proof fn lemma_char_pos_unique(s: Seq<char>, k: int)
    requires
        0 <= k <= s.len(),
    ensures
        char_pos(s, utf8_len(s.take(k)) as int) == k,
{
    let b = utf8_len(s.take(k)) as int;
    assert(char_boundary(s, b));
    let c = char_pos(s, b);
    if c < k {
        lemma_utf8_len_prefix_mono(s, c, k);
    } else if c > k {
        lemma_utf8_len_prefix_mono(s, k, c);
    }
}

/// Character positions keep the order of their byte offsets.
pub proof fn lemma_char_pos_mono(s: Seq<char>, a: int, b: int)
    requires
        char_boundary(s, a),
        char_boundary(s, b),
        a <= b,
    ensures
        0 <= char_pos(s, a) <= char_pos(s, b) <= s.len(),
{
    let i = char_pos(s, a);
    let j = char_pos(s, b);
    if j < i {
        lemma_utf8_len_prefix_mono(s, j, i);
    }
}

/// The position in `s` of the character at byte offset `b`, if one starts there.
fn char_index(s: &[char], b: usize) -> (r: Option<usize>)
    ensures
        r matches Some(k) ==> k <= s@.len() && utf8_len(s@.take(k as int)) == b && k == char_pos(
            s@,
            b as int,
        ),
        r is None ==> !char_boundary(s@, b as int),
{
    let mut k: usize = 0;
    let mut acc: usize = 0;
    assert(s@.take(0) =~= Seq::<char>::empty());
    while k < s.len() && acc < b
        invariant
            k <= s@.len(),
            acc == utf8_len(s@.take(k as int)),
            acc <= b,
        decreases s@.len() - k,
    {
        proof {
            lemma_utf8_len_take(s@, k as int);
        }
        let w = char_utf8_width(s[k]);
        if w > b - acc {
            proof {
                assert forall|j: int| 0 <= j <= s@.len() implies #[trigger] utf8_len(s@.take(j)) != b by {
                    if j <= k {
                        lemma_utf8_len_prefix_mono(s@, j, k as int);
                        if j < k {
                            lemma_utf8_len_prefix_mono(s@, j, k as int);
                        }
                    } else {
                        lemma_utf8_len_prefix_mono(s@, k + 1, j);
                    }
                }
            }
            return None;
        }
        acc = acc + w;
        k += 1;
    }
    if acc == b {
        proof {
            lemma_char_pos_unique(s@, k as int);
        }
        Some(k)
    } else {
        proof {
            assert(k == s@.len());
            assert(s@.take(k as int) =~= s@);
            assert forall|j: int| 0 <= j <= s@.len() implies #[trigger] utf8_len(s@.take(j)) != b by {
                lemma_utf8_len_prefix_mono(s@, j, s@.len() as int);
            }
        }
        None
    }
}

/// `pieces` of a prefix of the matches is a prefix of `pieces` of all of them.
pub proof fn lemma_pieces_prefix(
    s: Seq<char>,
    ms: Seq<RegexMatch>,
    ns: Seq<Option<Seq<char>>>,
    ts: Seq<TokenView>,
    j: int,
)
    requires
        0 <= j <= ms.len(),
    ensures
        pieces(s, ms.take(j), ns, ts).len() <= pieces(s, ms, ns, ts).len(),
        pieces(s, ms, ns, ts) == pieces(s, ms.take(j), ns, ts) + pieces(s, ms, ns, ts).skip(
            pieces(s, ms.take(j), ns, ts).len() as int,
        ),
    decreases ms.len() - j,
{
    if j == ms.len() {
        assert(ms.take(j) =~= ms);
        assert(pieces(s, ms, ns, ts) =~= pieces(s, ms.take(j), ns, ts) + pieces(s, ms, ns, ts).skip(
            pieces(s, ms.take(j), ns, ts).len() as int,
        ));
    } else {
        lemma_pieces_prefix(s, ms, ns, ts, j + 1);
        let m = ms.take(j + 1);
        assert(m.drop_last() =~= ms.take(j));
        let mid = s.subrange(char_pos(s, resume_at(ms.take(j))), char_pos(s, m.last().start as int))
            + expand_spec(ts, opt_texts(m.last().groups@), ns);
        assert(pieces(s, m, ns, ts) == pieces(s, ms.take(j), ns, ts) + mid);
        let all = pieces(s, ms, ns, ts);
        let t = all.skip(pieces(s, m, ns, ts).len() as int);
        assert(all =~= pieces(s, ms.take(j), ns, ts) + (mid + t));
        assert(all.skip(pieces(s, ms.take(j), ns, ts).len() as int) =~= mid + t);
    }
}

/// A text with something appended is at least as long in UTF-8 bytes.
pub proof fn lemma_utf8_len_grows(a: Seq<char>, t: Seq<char>)
    ensures
        utf8_len(a) <= utf8_len(a + t),
{
    lemma_utf8_len_concat(a, t);
}

/// Appends the text of `chars` between two positions, then the template rendered for one match.
fn push_match(
    output: &mut String,
    chars: &Vec<char>,
    from: usize,
    to: usize,
    template: &ReplacementTemplate,
    groups: &[Option<String>],
    names: &[Option<String>],
    limit: usize,
    context: &'static str,
) -> (r: Result<(), RuleModelError>)
    requires
        from <= to <= chars@.len(),
        utf8_len(old(output)@) <= limit,
    ensures
        r is Ok <==> utf8_len(
            old(output)@ + chars@.subrange(from as int, to as int) + expand_spec(
                token_views(template.tokens@),
                opt_texts(groups@),
                opt_texts(names@),
            ),
        ) <= limit,
        r is Ok ==> final(output)@ == old(output)@ + chars@.subrange(from as int, to as int)
            + expand_spec(token_views(template.tokens@), opt_texts(groups@), opt_texts(names@)),
        utf8_len(final(output)@) <= limit,
        r matches Err(e) ==> e.kind() == ModelErrorKind::LimitExceeded && e.context_spec()
            == context && e.message_spec() == limit_message(context@, limit as nat),
{
    let ghost gap = chars@.subrange(from as int, to as int);
    let ghost rendered = expand_spec(
        token_views(template.tokens@),
        opt_texts(groups@),
        opt_texts(names@),
    );
    let ghost before = output@;
    let between = substring(chars, from, to);
    match push_bounded(output, between.as_str(), limit, context) {
        Ok(()) => {},
        Err(e) => {
            proof {
                lemma_utf8_len_concat(before, gap);
                lemma_utf8_len_grows(before + gap, rendered);
            }
            return Err(e);
        },
    }
    proof {
        lemma_utf8_len_concat(before, gap);
    }
    template.expand_bounded(groups, names, output, limit, context)
}

/// Replaces the given matches of `input` with `replacement`, expanding `$` references against
/// each match's groups and the group `names`, failing once the output passes `limit` bytes.
#[verifier::rlimit(40)]
pub fn replace_matches(
    input: &str,
    matches: &[RegexMatch],
    names: &[Option<String>],
    replacement: &str,
    limit: usize,
    context: &'static str,
) -> (r: Result<String, RuleModelError>)
    requires
        matches_in(input@, matches@),
    ensures
        replace_outcome(
            r,
            input@,
            matches@,
            opt_texts(names@),
            template_spec(replacement@),
            limit,
            context,
        ),
{
    let ghost s = input@;
    let ghost ms = matches@;
    let ghost ns = opt_texts(names@);
    let ghost ts = template_spec(replacement@);
    let chars = chars_of(input);
    let template = ReplacementTemplate::parse(replacement);
    let mut output = String::new();
    let mut last: usize = 0;
    proof {
        assert(s.take(0) =~= Seq::<char>::empty());
        lemma_char_pos_unique(s, 0);
        assert(ms.take(0) =~= Seq::<RegexMatch>::empty());
    }
    let mut j: usize = 0;
    while j < matches.len()
        invariant
            chars@ == s,
            s == input@,
            ms == matches@,
            ns == opt_texts(names@),
            ts == template_spec(replacement@),
            token_views(template.tokens@) == ts,
            matches_in(s, ms),
            j <= ms.len(),
            output@ == pieces(s, ms.take(j as int), ns, ts),
            last as int == char_pos(s, resume_at(ms.take(j as int))),
            last <= s.len(),
            j > 0 ==> ms[j - 1].end as int == resume_at(ms.take(j as int)),
            j == 0 ==> resume_at(ms.take(j as int)) == 0,
            char_boundary(s, resume_at(ms.take(j as int))),
            forall|i: int| j <= i < ms.len() ==> resume_at(ms.take(j as int)) <= #[trigger] ms[i].start,
            utf8_len(output@) <= limit,
        decreases ms.len() - j,
    {
        let m = &matches[j];
        assert(ms[j as int] == *m);
        let ghost prefix = ms.take(j as int);
        let ghost next = ms.take(j + 1);
        assert(next.drop_last() =~= prefix);
        assert(next.last() == *m);
        let start = match char_index(&chars, m.start) {
            Some(k) => k,
            None => {
                proof {
                    assert(false);
                }
                0
            },
        };
        proof {
            lemma_char_pos_mono(s, resume_at(prefix), m.start as int);
        }
        let ghost gap = s.subrange(last as int, start as int);
        let ghost rendered = expand_spec(ts, opt_texts(m.groups@), ns);
        proof {
            lemma_pieces_prefix(s, ms, ns, ts, j + 1);
        }
        let ghost t = pieces(s, ms, ns, ts).skip(pieces(s, next, ns, ts).len() as int);
        assert(pieces(s, next, ns, ts) == output@ + gap + rendered);
        let ghost full = replaced(s, ms, ns, ts);
        let ghost tail = s.skip(char_pos(s, resume_at(ms)));
        assert(full =~= (output@ + gap + rendered) + (t + tail));
        let ghost before = output@;
        match push_match(&mut output, &chars, last, start, &template, &m.groups, names, limit, context) {
            Ok(()) => {},
            Err(e) => {
                proof {
                    lemma_utf8_len_grows(before + gap + rendered, t + tail);
                }
                return Err(e);
            },
        }
        let end = match char_index(&chars, m.end) {
            Some(k) => k,
            None => {
                proof {
                    assert(false);
                }
                0
            },
        };
        last = end;
        j += 1;
        assert(output@ =~= pieces(s, ms.take(j as int), ns, ts));
        assert(resume_at(ms.take(j as int)) == m.end as int);
        assert forall|i: int| j <= i < ms.len() implies resume_at(ms.take(j as int)) <= #[trigger] ms[i].start by {
            assert(ms[j - 1].end <= ms[i].start);
        }
    }
    assert(ms.take(j as int) =~= ms);
    let tail = substring(&chars, last, chars.len());
    assert(s.subrange(last as int, s.len() as int) =~= s.skip(last as int));
    proof {
        lemma_utf8_len_concat(output@, s.skip(last as int));
    }
    match push_bounded(&mut output, tail.as_str(), limit, context) {
        Ok(()) => Ok(output),
        Err(e) => Err(e),
    }
}

/// A match as plain data: its byte range and the text of each group.
pub open spec fn match_views(ms: Seq<RegexMatch>) -> Seq<(usize, usize, Seq<Option<Seq<char>>>)> {
    ms.map_values(|m: RegexMatch| (m.start, m.end, opt_texts(m.groups@)))
}

/// Replaces every match of `pattern` in `input`, expanding `$` references in `replacement`,
/// while the output fits in `limit` UTF-8 bytes. The matches and group names are those the
/// regex crate gives for the pattern's program; the output is the searched text with each match
/// replaced by the template rendered for it, or the limit error exactly when that text is
/// longer than `limit` bytes.
pub fn regex_replace_all(
    pattern: &RegexReplacePattern,
    input: &str,
    replacement: &str,
    limit: usize,
    context: &'static str,
) -> (r: Result<String, RuleModelError>)
    ensures
        exists|ms: Seq<RegexMatch>|
            #[trigger] match_views(ms) == found_matches(pattern.pattern_spec(), pattern.case_insensitive_spec(), input@)
                && matches_in(input@, ms) && replace_outcome(
                r,
                input@,
                ms,
                found_names(pattern.pattern_spec(), pattern.case_insensitive_spec()),
                template_spec(replacement@),
                limit,
                context,
            ),
{
    let found = pattern_matches(pattern, input);
    let names = pattern_group_names(pattern);
    let r = replace_matches(input, &found, &names, replacement, limit, context);
    assert(match_views(found@) == found_matches(pattern.pattern_spec(), pattern.case_insensitive_spec(), input@));
    r
}

proof fn lemma_pieces_depend_on_match_data(
    s: Seq<char>,
    a: Seq<RegexMatch>,
    b: Seq<RegexMatch>,
    ns: Seq<Option<Seq<char>>>,
    ts: Seq<TokenView>,
)
    requires
        match_views(a) == match_views(b),
    ensures
        pieces(s, a, ns, ts) == pieces(s, b, ns, ts),
        resume_at(a) == resume_at(b),
    decreases a.len(),
{
    assert(a.len() == match_views(a).len() && b.len() == match_views(b).len());
    if a.len() > 0 {
        assert(match_views(a.drop_last()) =~= match_views(a).drop_last());
        assert(match_views(b.drop_last()) =~= match_views(b).drop_last());
        lemma_pieces_depend_on_match_data(s, a.drop_last(), b.drop_last(), ns, ts);
        assert(match_views(a)[a.len() - 1] == match_views(b)[a.len() - 1]);
    }
}

/// Replacements of matches with equal plain data are equal, so the replacement text is fixed
/// by the match data alone.
pub proof fn law_replacement_depends_on_match_data(
    s: Seq<char>,
    a: Seq<RegexMatch>,
    b: Seq<RegexMatch>,
    ns: Seq<Option<Seq<char>>>,
    ts: Seq<TokenView>,
)
    requires
        match_views(a) == match_views(b),
    ensures
        replaced(s, a, ns, ts) == replaced(s, b, ns, ts),
{
    lemma_pieces_depend_on_match_data(s, a, b, ns, ts);
}

/// Replacing no matches gives back the searched text unchanged.
pub proof fn law_no_matches_leave_text(
    s: Seq<char>,
    ns: Seq<Option<Seq<char>>>,
    ts: Seq<TokenView>,
)
    ensures
        replaced(s, Seq::empty(), ns, ts) == s,
{
    assert(utf8_len(s.take(0)) == 0) by {
        assert(s.take(0) =~= Seq::<char>::empty());
    }
    lemma_char_pos_unique(s, 0);
    assert(s.skip(0) =~= s);
    assert(Seq::<char>::empty() + s =~= s);
}

/// A non-empty replacement text without `$` is a single literal piece.
pub proof fn law_dollar_free_template_is_literal(r: Seq<char>)
    requires
        r.len() > 0,
        !r.contains('$'),
    ensures
        template_spec(r) == seq![TokenView::Literal(r)],
{
    lemma_run_before(r, '$');
    if run_before(r, '$') < r.len() {
        assert(r.contains(r[run_before(r, '$') as int]));
    }
}

} // verus!
