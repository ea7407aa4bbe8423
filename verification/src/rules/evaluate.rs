//! Evaluation of URL matchers against a request URL, with glob programs taken from a snapshot's
//! compiled glob set and regex captures handed on to action templates.
use crate::rules::compiled::{
    captures_of, collect_captures, glob_compiles, glob_key_groups, host_match_spec, id_matches,
    key_id, with_groups, Captures, CapturesView, CompiledGlobSet, GlobId, GlobProgram,
};
use crate::rules::matching::{
    glob_active, glob_syntax_is_active, host_pattern_uses_regex, host_uses_regex, path_prefix,
    path_prefix_matches,
};
use crate::rules::regex_matcher::{regex_groups_spec, regex_names_spec, Matcher, RegexMatcher};
use crate::rules::url::{exact_match_spec, exact_url_matches, url_view, GlobMatcher, UrlParts};
use crate::text::{ci_eq, ci_eq_str, decimal, decimal_text, has_prefix};
use vstd::prelude::*;

verus! {

// ---------------------------------------------------------------------------
// Regex matchers
// ---------------------------------------------------------------------------

/// What a regex matcher yields on `text`: the captures of its match, if it matches.
pub open spec fn regex_result(m: RegexMatcher, text: Seq<char>) -> Option<CapturesView> {
    match regex_groups_spec(m, text) {
        Some(g) => Some(captures_of(g, regex_names_spec(m))),
        None => None,
    }
}

/// The captures seen as plain data.
pub open spec fn opt_view(r: Option<Captures>) -> Option<CapturesView> {
    match r {
        Some(c) => Some(c@),
        None => None,
    }
}

/// No captures.
pub open spec fn empty_captures() -> CapturesView {
    CapturesView { whole: None, indexed: seq![], named: seq![] }
}

impl RegexMatcher {
    /// Matches the complete raw URL, returning the whole match, numbered, and named captures.
    pub fn matches(&self, raw_url: &str) -> (r: Option<Captures>)
        ensures
            opt_view(r) == regex_result(*self, raw_url@),
    {
        match self.groups(raw_url) {
            Some(g) => {
                let names = self.group_names();
                Some(collect_captures(&g, &names))
            },
            None => None,
        }
    }
}

// ---------------------------------------------------------------------------
// Matcher resources
// ---------------------------------------------------------------------------

/// The compiled glob programs a matcher uses, bound once per snapshot.
#[derive(Debug)]
pub enum CompiledMatcherResources {
    /// The matcher uses no glob program.
    Unbound,
    /// Programs of a glob matcher's host (where it needs one), port, path (where it uses glob
    /// syntax), and query.
    Glob { host: Option<GlobId>, port: Option<GlobId>, path: Option<GlobId>, query: Option<GlobId> },
    /// Resources of a negated matcher.
    Not(Box<CompiledMatcherResources>),
}

/// The resources bound for matcher `m` among the programs `keys`.
pub open spec fn bound_matcher(keys: Seq<(char, Seq<char>)>, m: Matcher) -> CompiledMatcherResources
    decreases m,
{
    match m {
        Matcher::Glob(g) => CompiledMatcherResources::Glob {
            host: if host_uses_regex(g.host@) {
                key_id(keys, ('.', g.host@))
            } else {
                None
            },
            port: match g.port {
                Some(p) => key_id(keys, ('.', p@)),
                None => None,
            },
            path: match g.path {
                Some(p) => if glob_active(p@) {
                    key_id(keys, ('/', p@))
                } else {
                    None
                },
                None => None,
            },
            query: match g.query {
                Some(q) => key_id(keys, ('&', q@)),
                None => None,
            },
        },
        Matcher::Not(inner) => CompiledMatcherResources::Not(Box::new(bound_matcher(keys, *inner))),
        _ => CompiledMatcherResources::Unbound,
    }
}

/// Looks up the glob programs a matcher uses.
pub fn bind_matcher_resources(matcher: &Matcher, globs: &CompiledGlobSet) -> (r: CompiledMatcherResources)
    ensures
        r == bound_matcher(globs.keys(), *matcher),
    decreases matcher,
{
    match matcher {
        Matcher::Glob(glob) => {
            let host = if host_pattern_uses_regex(glob.host.as_str()) {
                globs.id(glob.host.as_str(), '.')
            } else {
                None
            };
            let port = match &glob.port {
                Some(p) => globs.id(p.as_str(), '.'),
                None => None,
            };
            let path = match &glob.path {
                Some(p) => if glob_syntax_is_active(p.as_str()) {
                    globs.id(p.as_str(), '/')
                } else {
                    None
                },
                None => None,
            };
            let query = match &glob.query {
                Some(q) => globs.id(q.as_str(), '&'),
                None => None,
            };
            CompiledMatcherResources::Glob { host, port, path, query }
        },
        Matcher::Not(inner) => CompiledMatcherResources::Not(Box::new(bind_matcher_resources(inner, globs))),
        _ => CompiledMatcherResources::Unbound,
    }
}

/// The glob programs matcher `m` needs, as separator and pattern, in registration order.
pub open spec fn matcher_keys(m: Matcher) -> Seq<(char, Seq<char>)>
    decreases m,
{
    match m {
        Matcher::Glob(g) => {
            let a: Seq<(char, Seq<char>)> = if host_uses_regex(g.host@) {
                seq![('.', g.host@)]
            } else {
                seq![]
            };
            let b = match g.port {
                Some(p) => a.push(('.', p@)),
                None => a,
            };
            let c = match g.path {
                Some(p) => if glob_active(p@) {
                    b.push(('/', p@))
                } else {
                    b
                },
                None => b,
            };
            match g.query {
                Some(q) => c.push(('&', q@)),
                None => c,
            }
        },
        Matcher::Not(inner) => matcher_keys(*inner),
        _ => seq![],
    }
}

/// `keys` after registering `k`: unchanged where present, else with `k` appended.
pub open spec fn add_key(keys: Seq<(char, Seq<char>)>, k: (char, Seq<char>)) -> Seq<(char, Seq<char>)> {
    if keys.contains(k) {
        keys
    } else {
        keys.push(k)
    }
}

/// `keys` after registering each of `ks` in order.
pub open spec fn add_keys(keys: Seq<(char, Seq<char>)>, ks: Seq<(char, Seq<char>)>) -> Seq<(char, Seq<char>)>
    decreases ks.len(),
{
    if ks.len() == 0 {
        keys
    } else {
        add_key(add_keys(keys, ks.drop_last()), ks.last())
    }
}

/// Every one of `ks` has a program the regex compiler accepts.
pub open spec fn keys_compile(ks: Seq<(char, Seq<char>)>) -> bool {
    forall|i: int| 0 <= i < ks.len() ==> glob_compiles(#[trigger] ks[i].1, ks[i].0)
}

impl CompiledGlobSet {
    /// Registers `pattern` with `separator` after the keys `ks` registered so far.
    fn register_next(&mut self, pattern: &str, separator: char, Ghost(start): Ghost<Seq<(char, Seq<char>)>>, Ghost(ks): Ghost<Seq<(char, Seq<char>)>>)
        requires
            glob_compiles(pattern@, separator),
            old(self).keys() == add_keys(start, ks),
        ensures
            final(self).keys() == add_keys(start, ks.push((separator, pattern@))),
    {
        self.register(pattern, separator);
        assert(ks.push((separator, pattern@)).drop_last() =~= ks);
    }

    /// Compiles the glob programs that a matcher uses.
    pub(crate) fn register_matcher(&mut self, matcher: &Matcher)
        requires
            keys_compile(matcher_keys(*matcher)),
        ensures
            final(self).keys() == add_keys(old(self).keys(), matcher_keys(*matcher)),
        decreases matcher,
    {
        let ghost start = self.keys();
        match matcher {
            Matcher::Glob(glob) => {
                let ghost mk = matcher_keys(*matcher);
                let ghost mut ks: Seq<(char, Seq<char>)> = seq![];
                assert(self.keys() == add_keys(start, ks));
                if host_pattern_uses_regex(glob.host.as_str()) {
                    assert(mk[0] == ('.', glob.host@));
                    assert(glob_compiles(mk[0].1, mk[0].0));
                    self.register_next(glob.host.as_str(), '.', Ghost(start), Ghost(ks));
                    proof {
                        ks = ks.push(('.', glob.host@));
                    }
                }
                if let Some(p) = &glob.port {
                    assert(mk[ks.len() as int] == ('.', p@));
                    assert(glob_compiles(mk[ks.len() as int].1, mk[ks.len() as int].0));
                    self.register_next(p.as_str(), '.', Ghost(start), Ghost(ks));
                    proof {
                        ks = ks.push(('.', p@));
                    }
                }
                if let Some(p) = &glob.path {
                    if glob_syntax_is_active(p.as_str()) {
                        assert(mk[ks.len() as int] == ('/', p@));
                        assert(glob_compiles(mk[ks.len() as int].1, mk[ks.len() as int].0));
                        self.register_next(p.as_str(), '/', Ghost(start), Ghost(ks));
                        proof {
                            ks = ks.push(('/', p@));
                        }
                    }
                }
                if let Some(q) = &glob.query {
                    assert(mk[ks.len() as int] == ('&', q@));
                    assert(glob_compiles(mk[ks.len() as int].1, mk[ks.len() as int].0));
                    self.register_next(q.as_str(), '&', Ghost(start), Ghost(ks));
                    proof {
                        ks = ks.push(('&', q@));
                    }
                }
                assert(ks =~= mk);
            },
            Matcher::Not(inner) => self.register_matcher(inner),
            _ => {},
        }
    }
}

// ---------------------------------------------------------------------------
// Glob and URL matchers
// ---------------------------------------------------------------------------

/// The query searched by a query glob: the URL's query, or empty text where it has none.
pub open spec fn query_text(url: UrlParts) -> Seq<char> {
    match url.query {
        Some(q) => q@,
        None => seq![],
    }
}

/// Numbered captures after the path step of a glob matcher, or `None` where the path fails.
pub open spec fn path_step(
    keys: Seq<(char, Seq<char>)>,
    g: GlobMatcher,
    url: UrlParts,
    id: Option<GlobId>,
    indexed: Seq<Seq<char>>,
) -> Option<Seq<Seq<char>>> {
    match g.path {
        None => Some(indexed),
        Some(p) => if glob_active(p@) {
            if id_matches(keys, id, url.path@) {
                Some(with_groups(indexed, glob_key_groups(keys[(id->0).0 as int], url.path@)))
            } else {
                None
            }
        } else if path_prefix(p@, url.path@) {
            Some(indexed)
        } else {
            None
        },
    }
}

/// The path step of a glob matcher whose path has no glob syntax admits every URL path that
/// starts with that path when it ends in `/`, keeping the captures gathered so far, and refuses
/// a URL path that does not start with it (unless it is `/`).
pub proof fn law_plain_path_step(
    keys: Seq<(char, Seq<char>)>,
    g: GlobMatcher,
    url: UrlParts,
    id: Option<GlobId>,
    indexed: Seq<Seq<char>>,
)
    requires
        g.path is Some,
        !glob_active(g.path->Some_0@),
    ensures
        ({
            let p = g.path->Some_0@;
            &&& has_prefix(url.path@, p) && p.len() > 0 && p.last() == '/' ==> path_step(keys, g, url, id, indexed)
                == Some(indexed)
            &&& !has_prefix(url.path@, p) && p != seq!['/'] ==> path_step(keys, g, url, id, indexed) is None
        }),
{
    crate::rules::matching::law_path_prefix(g.path->Some_0@, url.path@);
}

/// Numbered captures after the query step of a glob matcher, or `None` where the query fails.
pub open spec fn query_step(
    keys: Seq<(char, Seq<char>)>,
    g: GlobMatcher,
    url: UrlParts,
    id: Option<GlobId>,
    indexed: Seq<Seq<char>>,
) -> Option<Seq<Seq<char>>> {
    if g.query is None {
        Some(indexed)
    } else if id_matches(keys, id, query_text(url)) {
        Some(with_groups(indexed, glob_key_groups(keys[(id->0).0 as int], query_text(url))))
    } else {
        None
    }
}

/// What a glob matcher yields on a URL: the scheme must match ignoring ASCII case, the host by
/// host-glob semantics, the effective port's decimal text by the port glob, the path by its glob
/// (capturing) or as a path prefix, and the query (empty where absent) by its glob (capturing).
pub open spec fn glob_result(
    keys: Seq<(char, Seq<char>)>,
    g: GlobMatcher,
    url: UrlParts,
    res: CompiledMatcherResources,
) -> Option<CapturesView> {
    match res {
        CompiledMatcherResources::Glob { host, port, path, query } => if g.scheme matches Some(s)
            && !ci_eq(s@, url.scheme@) {
            None
        } else if !host_match_spec(keys, g.host@, url.host@, host) {
            None
        } else if g.port is Some && !(url.effective_port_spec() matches Some(p) && id_matches(
            keys,
            port,
            decimal(p as nat),
        )) {
            None
        } else {
            match path_step(keys, g, url, path, seq![]) {
                None => None,
                Some(i1) => match query_step(keys, g, url, query, i1) {
                    None => None,
                    Some(i2) => Some(CapturesView { whole: None, indexed: i2, named: seq![] }),
                },
            }
        },
        _ => None,
    }
}

fn resources_match(id: Option<GlobId>, text: &str, globs: &CompiledGlobSet) -> (r: bool)
    ensures
        r == id_matches(globs.keys(), id, text@),
{
    match id {
        Some(g) => globs.glob_match_id(g, text),
        None => false,
    }
}

fn resources_match_with_captures(
    id: Option<GlobId>,
    text: &str,
    globs: &CompiledGlobSet,
    captures: &mut Captures,
) -> (r: bool)
    ensures
        r == id_matches(globs.keys(), id, text@),
        final(captures)@.whole == old(captures)@.whole,
        final(captures)@.named == old(captures)@.named,
        final(captures)@.indexed == if r {
            with_groups(old(captures)@.indexed, glob_key_groups(globs.keys()[(id->0).0 as int], text@))
        } else {
            old(captures)@.indexed
        },
{
    match id {
        Some(g) => globs.glob_match_with_captures_id(g, text, captures),
        None => false,
    }
}

impl GlobMatcher {
    /// Matches the structured components of a URL, returning the glob captures of its path
    /// and query.
    pub fn matches_compiled(
        &self,
        url: &UrlParts,
        globs: &CompiledGlobSet,
        resources: &CompiledMatcherResources,
    ) -> (r: Option<Captures>)
        ensures
            opt_view(r) == glob_result(globs.keys(), *self, *url, *resources),
    {
        let (host, port_id, path_id, query_id) = match resources {
            CompiledMatcherResources::Glob { host, port, path, query } => (*host, *port, *path, *query),
            _ => {
                return None;
            },
        };
        if let Some(scheme) = &self.scheme {
            if !ci_eq_str(scheme.as_str(), url.scheme.as_str()) {
                return None;
            }
        }
        if !globs.host_matches_id(self.host.as_str(), url.host.as_str(), host) {
            return None;
        }
        if self.port.is_some() {
            let port = match url.effective_port() {
                Some(p) => p,
                None => {
                    return None;
                },
            };
            let text = decimal_text(port as u64);
            if !resources_match(port_id, text.as_str(), globs) {
                return None;
            }
        }
        let mut captures = Captures::new();
        if let Some(path_pat) = &self.path {
            if glob_syntax_is_active(path_pat.as_str()) {
                if !resources_match_with_captures(path_id, url.path.as_str(), globs, &mut captures) {
                    return None;
                }
            } else if !path_prefix_matches(path_pat.as_str(), url.path.as_str()) {
                return None;
            }
        }
        let ghost after_path = captures@.indexed;
        if self.query.is_some() {
            let query: &str = match &url.query {
                Some(q) => q.as_str(),
                None => "",
            };
            proof {
                reveal_strlit("");
            }
            assert(query@ == query_text(*url));
            if !resources_match_with_captures(query_id, query, globs, &mut captures) {
                return None;
            }
        }
        assert(captures@ == CapturesView { whole: None, indexed: captures@.indexed, named: seq![] });
        Some(captures)
    }
}

/// What a URL matcher yields on a URL and its raw text: captures where it admits the URL.
pub open spec fn matcher_result(
    keys: Seq<(char, Seq<char>)>,
    m: Matcher,
    url: UrlParts,
    raw: Seq<char>,
    res: CompiledMatcherResources,
) -> Option<CapturesView>
    decreases m,
{
    match m {
        Matcher::ExactUrl(e) => if exact_match_spec(e@, url) {
            Some(empty_captures())
        } else {
            None
        },
        Matcher::Glob(g) => glob_result(keys, g, url, res),
        Matcher::Port(p) => if url.effective_port_spec() == Some(p) {
            Some(empty_captures())
        } else {
            None
        },
        Matcher::Regex(rm) => regex_result(rm, raw),
        Matcher::Not(inner) => match res {
            CompiledMatcherResources::Not(ir) => if matcher_result(keys, *inner, url, raw, *ir) is None {
                Some(empty_captures())
            } else {
                None
            },
            _ => None,
        },
    }
}

impl Matcher {
    /// Matches a URL with the snapshot's compiled globs; a negated matcher yields no captures.
    pub fn matches_compiled(
        &self,
        url: &UrlParts,
        raw_url: &str,
        globs: &CompiledGlobSet,
        resources: &CompiledMatcherResources,
    ) -> (r: Option<Captures>)
        ensures
            opt_view(r) == matcher_result(globs.keys(), *self, *url, raw_url@, *resources),
        decreases self,
    {
        match self {
            Matcher::ExactUrl(expected) => if exact_url_matches(expected.as_str(), url) {
                Some(Captures::new())
            } else {
                None
            },
            Matcher::Glob(glob) => glob.matches_compiled(url, globs, resources),
            Matcher::Port(port) => if url.effective_port() == Some(*port) {
                Some(Captures::new())
            } else {
                None
            },
            Matcher::Regex(regex) => regex.matches(raw_url),
            Matcher::Not(inner) => {
                let inner_resources = match resources {
                    CompiledMatcherResources::Not(r) => r,
                    _ => {
                        return None;
                    },
                };
                if inner.matches_compiled(url, raw_url, globs, inner_resources).is_none() {
                    Some(Captures::new())
                } else {
                    None
                }
            },
        }
    }
}

/// A negated matcher yields no captures of its own: where it admits a URL, its captures are
/// empty.
pub proof fn law_negated_matcher_captures_nothing(
    keys: Seq<(char, Seq<char>)>,
    inner: Matcher,
    url: UrlParts,
    raw: Seq<char>,
    res: CompiledMatcherResources,
)
    ensures
        matcher_result(keys, Matcher::Not(Box::new(inner)), url, raw, res) matches Some(c) ==> c
            == empty_captures(),
{
}

/// A port matcher admits exactly the URLs whose effective port (explicit, or the scheme
/// default) is its port.
pub proof fn law_port_matcher_uses_effective_port(
    keys: Seq<(char, Seq<char>)>,
    port: u16,
    url: UrlParts,
    raw: Seq<char>,
    res: CompiledMatcherResources,
)
    ensures
        matcher_result(keys, Matcher::Port(port), url, raw, res) is Some <==> url.effective_port_spec()
            == Some(port),
{
}

/// A port matcher of 443 admits `https` and `wss` URLs without an explicit port, and one of 80
/// admits `http` and `ws` URLs without one.
pub proof fn law_port_matcher_scheme_defaults(
    keys: Seq<(char, Seq<char>)>,
    url: UrlParts,
    raw: Seq<char>,
    res: CompiledMatcherResources,
)
    requires
        url.port is None,
    ensures
        url.scheme@ == seq!['h', 't', 't', 'p', 's'] || url.scheme@ == seq!['w', 's', 's'] ==> matcher_result(
            keys,
            Matcher::Port(443),
            url,
            raw,
            res,
        ) is Some,
        url.scheme@ == seq!['h', 't', 't', 'p'] || url.scheme@ == seq!['w', 's'] ==> matcher_result(
            keys,
            Matcher::Port(80),
            url,
            raw,
            res,
        ) is Some,
{
    crate::rules::url::law_effective_port_defaults(url, crate::rules::url::url_view(url));
}

/// What a matcher yields depends on the URL only through its parsed components.
pub proof fn lemma_matcher_result_view(
    keys: Seq<(char, Seq<char>)>,
    m: Matcher,
    u1: UrlParts,
    u2: UrlParts,
    raw: Seq<char>,
    res: CompiledMatcherResources,
)
    requires
        url_view(u1) == url_view(u2),
    ensures
        matcher_result(keys, m, u1, raw, res) == matcher_result(keys, m, u2, raw, res),
    decreases m,
{
    assert(u1.effective_port_spec() == u2.effective_port_spec());
    assert(query_text(u1) == query_text(u2));
    match m {
        Matcher::Not(inner) => {
            match res {
                CompiledMatcherResources::Not(ir) => lemma_matcher_result_view(keys, *inner, u1, u2, raw, *ir),
                _ => {},
            }
        },
        _ => {},
    }
}

} // verus!
