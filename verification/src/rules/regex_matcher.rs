//! Regex matchers: compiled by the linear `regex` engine where it accepts the pattern, by the
//! backtracking `fancy-regex` engine (under a backtrack limit) for lookaround or backreferences.
use crate::rules::bounded_replace::opt_texts;
use crate::rules::error::{ModelErrorKind, RuleModelError};
use crate::rules::replace_pattern::{build_case_regex, case_regex_compiles};
use crate::rules::transforms::{is_err, last_slash_from, regex_literal_end, ErrId};
use crate::rules::url::{
    fancy_pattern, glob_matcher_spec, glob_view, parse_glob_matcher, url_spec, GlobMatcher,
    GlobView, UrlParts,
};
use crate::text::{
    chars_of, concat3, contains_char, parse_unsigned, parse_unsigned_spec, slice_vec, string_of,
};
use regex::Regex;
use std::sync::Arc;
use vstd::prelude::*;

verus! {

/// Backtrack limit of the fallback engine; exceeding it during a search counts as no match.
pub const DEFAULT_FANCY_BACKTRACK_LIMIT: usize = 100000;

#[verifier::external_type_specification]
#[verifier::external_body]
pub struct ExFancyRegex(fancy_regex::Regex);

#[verifier::external_type_specification]
#[verifier::external_body]
pub struct ExFancyError(fancy_regex::Error);

/// Whether `fancy_regex::RegexBuilder` compiles `pattern` under the fallback backtrack limit.
pub uninterp spec fn fancy_regex_compiles(pattern: Seq<char>) -> bool;

/// `fancy_regex::RegexBuilder::new(pattern).backtrack_limit(..).build()`: the compiled regex or
/// the crate's error; which of the two comes is named, not stated.
#[verifier::external_body]
fn build_fancy_regex(pattern: &str) -> (r: Result<fancy_regex::Regex, fancy_regex::Error>)
    ensures
        r is Ok == fancy_regex_compiles(pattern@),
{
    fancy_regex::RegexBuilder::new(pattern).backtrack_limit(DEFAULT_FANCY_BACKTRACK_LIMIT).build()
}

/// Regex implementation selected for a [`RegexMatcher`].
#[derive(Clone, Copy, Debug, PartialEq, Eq, Structural)]
pub enum RegexEngine {
    /// Rust `regex`, providing bounded linear-time matching.
    Linear,
    /// `fancy-regex`, used for advanced constructs under a backtrack limit.
    Fancy,
}

/// A compiled regex program of either engine.
#[derive(Debug)]
pub enum CompiledRegex {
    Linear(Regex),
    Fancy(fancy_regex::Regex),
}

/// A validated regex matcher and the engine selected for it.
///
/// Its fields are private: [`parse_regex_matcher`] is its only constructor, so the compiled
/// program is always the one built from the pattern and case flag by the selected engine.
#[derive(Debug)]
pub struct RegexMatcher {
    pattern: String,
    case_insensitive: bool,
    engine: RegexEngine,
    compiled: Arc<CompiledRegex>,
}

/// A regex matcher as plain data: pattern, case-insensitivity, and engine.
pub type RegexMatcherView = (Seq<char>, bool, RegexEngine);

/// The plain data of a regex matcher.
pub open spec fn regex_matcher_view(m: RegexMatcher) -> RegexMatcherView {
    (m.pattern_spec(), m.case_spec(), m.engine_spec())
}

impl RegexMatcher {
    #[verifier::type_invariant]
    closed spec fn inv(&self) -> bool {
        match *self.compiled {
            CompiledRegex::Linear(_) => self.engine == RegexEngine::Linear,
            CompiledRegex::Fancy(_) => self.engine == RegexEngine::Fancy,
        }
    }

    /// Pattern text without the rule syntax's slash delimiters.
    pub closed spec fn pattern_spec(&self) -> Seq<char> {
        self.pattern@
    }

    /// Whether matching uses Unicode-aware case-insensitive mode.
    pub closed spec fn case_spec(&self) -> bool {
        self.case_insensitive
    }

    /// Engine selected when the matcher was compiled.
    pub closed spec fn engine_spec(&self) -> RegexEngine {
        self.engine
    }

    /// Pattern text without the rule syntax's slash delimiters.
    pub fn pattern(&self) -> (r: &str)
        ensures
            r@ == self.pattern_spec(),
    {
        self.pattern.as_str()
    }

    /// Whether matching uses Unicode-aware case-insensitive mode.
    pub fn case_insensitive(&self) -> (r: bool)
        ensures
            r == self.case_spec(),
    {
        self.case_insensitive
    }

    /// Engine selected when the matcher was compiled.
    pub fn engine(&self) -> (r: RegexEngine)
        ensures
            r == self.engine_spec(),
    {
        self.engine
    }
}

impl Clone for RegexMatcher {
    /// The same matcher, sharing its compiled program.
    fn clone(&self) -> (r: Self)
        ensures
            regex_matcher_view(r) == regex_matcher_view(*self),
    {
        proof {
            use_type_invariant(self);
        }
        RegexMatcher {
            pattern: self.pattern.clone(),
            case_insensitive: self.case_insensitive,
            engine: self.engine,
            compiled: Arc::clone(&self.compiled),
        }
    }
}

// ---------------------------------------------------------------------------
// Running the compiled program
// ---------------------------------------------------------------------------

/// The groups (the whole match first) of the linear regex compiled from `pattern`,
/// case-insensitively where `ci`, on `text`; `None` where it does not match.
pub uninterp spec fn linear_groups_of(pattern: Seq<char>, ci: bool, text: Seq<char>) -> Option<
    Seq<Option<Seq<char>>>,
>;

/// The name of each group of the linear regex compiled from `pattern`, in group order.
pub uninterp spec fn linear_names_of(pattern: Seq<char>, ci: bool) -> Seq<Option<Seq<char>>>;

/// The groups (the whole match first) of the backtracking regex compiled from `source` on
/// `text`; `None` where it does not match or the search fails.
pub uninterp spec fn fancy_groups_of(source: Seq<char>, text: Seq<char>) -> Option<Seq<Option<Seq<char>>>>;

/// The name of each group of the backtracking regex compiled from `source`, in group order.
pub uninterp spec fn fancy_names_of(source: Seq<char>) -> Seq<Option<Seq<char>>>;

/// The group texts of an optional match.
pub open spec fn opt_groups(r: Option<Vec<Option<String>>>) -> Option<Seq<Option<Seq<char>>>> {
    match r {
        Some(g) => Some(opt_texts(g@)),
        None => None,
    }
}

/// `regex::Regex::captures` of a matcher's linear program on `text`, each group taken as its
/// text. The program is the one [`parse_regex_matcher`] compiled from the matcher's pattern and
/// case flag (the only way a matcher is made), so the result is named over those.
#[verifier::external_body]
fn linear_groups(m: &RegexMatcher, regex: &Regex, text: &str) -> (r: Option<Vec<Option<String>>>)
    requires
        *m.compiled == CompiledRegex::Linear(*regex),
    ensures
        opt_groups(r) == linear_groups_of(m.pattern@, m.case_insensitive, text@),
{
    regex.captures(text).map(|c| c.iter().map(|g| g.map(|x| x.as_str().to_string())).collect())
}

/// `regex::Regex::capture_names` of a matcher's linear program.
#[verifier::external_body]
fn linear_names(m: &RegexMatcher, regex: &Regex) -> (r: Vec<Option<String>>)
    requires
        *m.compiled == CompiledRegex::Linear(*regex),
    ensures
        opt_texts(r@) == linear_names_of(m.pattern@, m.case_insensitive),
{
    regex.capture_names().map(|n| n.map(|s| s.to_string())).collect()
}

/// `fancy_regex::Regex::captures` of a matcher's backtracking program on `text`, each group
/// taken as its text; a search that fails (its backtrack limit exceeded among them) gives
/// `None`. The program is the one [`parse_regex_matcher`] compiled from the matcher's pattern
/// and case flag.
#[verifier::external_body]
fn fancy_groups(m: &RegexMatcher, regex: &fancy_regex::Regex, text: &str) -> (r: Option<Vec<Option<String>>>)
    requires
        *m.compiled == CompiledRegex::Fancy(*regex),
    ensures
        opt_groups(r) == fancy_groups_of(fancy_source(m.pattern@, m.case_insensitive), text@),
{
    match regex.captures(text) {
        Ok(Some(c)) => Some(c.iter().map(|g| g.map(|x| x.as_str().to_string())).collect()),
        Ok(None) => None,
        Err(_) => None,
    }
}

/// `fancy_regex::Regex::capture_names` of a matcher's backtracking program.
#[verifier::external_body]
fn fancy_names(m: &RegexMatcher, regex: &fancy_regex::Regex) -> (r: Vec<Option<String>>)
    requires
        *m.compiled == CompiledRegex::Fancy(*regex),
    ensures
        opt_texts(r@) == fancy_names_of(fancy_source(m.pattern@, m.case_insensitive)),
{
    regex.capture_names().map(|n| n.map(|s| s.to_string())).collect()
}

/// The groups of a regex matcher's program on `text`, by the engine it was compiled with.
pub open spec fn regex_groups_spec(m: RegexMatcher, text: Seq<char>) -> Option<Seq<Option<Seq<char>>>> {
    match m.engine_spec() {
        RegexEngine::Linear => linear_groups_of(m.pattern_spec(), m.case_spec(), text),
        RegexEngine::Fancy => fancy_groups_of(fancy_source(m.pattern_spec(), m.case_spec()), text),
    }
}

/// The group names of a regex matcher's program.
pub open spec fn regex_names_spec(m: RegexMatcher) -> Seq<Option<Seq<char>>> {
    match m.engine_spec() {
        RegexEngine::Linear => linear_names_of(m.pattern_spec(), m.case_spec()),
        RegexEngine::Fancy => fancy_names_of(fancy_source(m.pattern_spec(), m.case_spec())),
    }
}

impl RegexMatcher {
    /// The groups of the matcher's program on `text`, the whole match first.
    pub(crate) fn groups(&self, text: &str) -> (r: Option<Vec<Option<String>>>)
        ensures
            opt_groups(r) == regex_groups_spec(*self, text@),
    {
        proof {
            use_type_invariant(self);
        }
        match &*self.compiled {
            CompiledRegex::Linear(regex) => linear_groups(self, regex, text),
            CompiledRegex::Fancy(regex) => fancy_groups(self, regex, text),
        }
    }

    /// The name of each group of the matcher's program, in group order.
    pub(crate) fn group_names(&self) -> (r: Vec<Option<String>>)
        ensures
            opt_texts(r@) == regex_names_spec(*self),
    {
        proof {
            use_type_invariant(self);
        }
        match &*self.compiled {
            CompiledRegex::Linear(regex) => linear_names(self, regex),
            CompiledRegex::Fancy(regex) => fancy_names(self, regex),
        }
    }
}

/// The pattern the fallback engine compiles.
pub open spec fn fancy_source(pattern: Seq<char>, case_insensitive: bool) -> Seq<char> {
    if case_insensitive {
        "(?i:"@ + pattern + ")"@
    } else {
        pattern
    }
}

/// What a `/pattern/flags` matcher is: the text between the first character and the last
/// unescaped `/`, with `i` as the only flag, compiled by the linear engine where it accepts the
/// pattern and by the backtracking engine otherwise.
pub open spec fn regex_matcher_spec(s: Seq<char>) -> Result<RegexMatcherView, ErrId> {
    match last_slash_from(s, 1, false, None) {
        None => Err((ModelErrorKind::InvalidSyntax, "regex matcher")),
        Some(e) => {
            let flags = s.skip(e + 1);
            if exists|i: int| 0 <= i < flags.len() && #[trigger] flags[i] != 'i' {
                Err((ModelErrorKind::UnsupportedInput, "regex flags"))
            } else {
                let ci = flags.contains('i');
                let p = s.subrange(1, e);
                if case_regex_compiles(p, ci) {
                    Ok((p, ci, RegexEngine::Linear))
                } else if fancy_regex_compiles(fancy_source(p, ci)) {
                    Ok((p, ci, RegexEngine::Fancy))
                } else {
                    Err((ModelErrorKind::InvalidRegexMatcher, "regex matcher"))
                }
            }
        },
    }
}

/// Parses and compiles a `/pattern/flags` regex matcher.
pub fn parse_regex_matcher(input: &str) -> (r: Result<RegexMatcher, RuleModelError>)
    ensures
        match (r, regex_matcher_spec(input@)) {
            (Ok(m), Ok(v)) => regex_matcher_view(m) == v,
            (Err(e), Err(id)) => is_err(e, id),
            _ => false,
        },
{
    let s = chars_of(input);
    let end = match regex_literal_end(&s) {
        Some(e) => e,
        None => {
            return Err(RuleModelError::InvalidSyntax {
                context: "regex matcher",
                message: crate::text::lit("regex matcher must end with `/`"),
            });
        },
    };
    proof {
        crate::rules::rewrites::lemma_last_slash_bounds(s@, 1, false, None);
    }
    let n = s.len();
    assert(1 <= end < n);
    let flags = slice_vec(&s, end + 1, n);
    assert(flags@ =~= s@.skip(end + 1));
    let mut i: usize = 0;
    while i < flags.len()
        invariant
            i <= flags@.len(),
            forall|j: int| 0 <= j < i ==> flags@[j] == 'i',
            flags@ == s@.skip(end + 1),
            s@ == input@,
            last_slash_from(s@, 1, false, None) == Some(end as int),
        decreases flags@.len() - i,
    {
        if flags[i] != 'i' {
            assert(flags@[i as int] != 'i');
            let shown = string_of(&flags);
            return Err(RuleModelError::UnsupportedInput {
                context: "regex flags",
                message: concat3("unsupported regex flags `", shown.as_str(), "`"),
            });
        }
        i += 1;
    }
    let case_insensitive = contains_char(&flags, 'i');
    let pattern = string_of(&slice_vec(&s, 1, end));
    match build_case_regex(pattern.as_str(), case_insensitive) {
        Ok(regex) => Ok(RegexMatcher {
            pattern,
            case_insensitive,
            engine: RegexEngine::Linear,
            compiled: Arc::new(CompiledRegex::Linear(regex)),
        }),
        Err(linear) => {
            let source = fancy_pattern(pattern.as_str(), case_insensitive);
            proof {
                reveal_strlit("(?i:");
                reveal_strlit(")");
            }
            match build_fancy_regex(source.as_str()) {
                Ok(regex) => Ok(RegexMatcher {
                    pattern,
                    case_insensitive,
                    engine: RegexEngine::Fancy,
                    compiled: Arc::new(CompiledRegex::Fancy(regex)),
                }),
                Err(fancy) => Err(RuleModelError::InvalidRegexMatcher {
                    linear: Box::new(linear),
                    fancy: Box::new(fancy),
                }),
            }
        },
    }
}

/// A URL predicate of a rule.
#[derive(Debug)]
pub enum Matcher {
    /// Matches scheme, host, effective port, and path exactly; an omitted query is unconstrained.
    ExactUrl(String),
    /// Matches structured scheme/host/port/path/query glob components.
    Glob(GlobMatcher),
    /// Matches only the URL's explicit or scheme-default effective port.
    Port(u16),
    /// Matches the complete raw URL and exposes numbered and named captures.
    Regex(RegexMatcher),
    /// Matches when the nested matcher does not, without producing nested captures.
    Not(Box<Matcher>),
}

/// A matcher as plain data.
pub enum MatcherView {
    ExactUrl(Seq<char>),
    Glob(GlobView),
    Port(u16),
    Regex(RegexMatcherView),
    Not(Box<MatcherView>),
}

/// The plain data of a matcher.
pub open spec fn matcher_view(m: Matcher) -> MatcherView
    decreases m,
{
    match m {
        Matcher::ExactUrl(u) => MatcherView::ExactUrl(u@),
        Matcher::Glob(g) => MatcherView::Glob(glob_view(g)),
        Matcher::Port(p) => MatcherView::Port(p),
        Matcher::Regex(r) => MatcherView::Regex(regex_matcher_view(r)),
        Matcher::Not(inner) => MatcherView::Not(Box::new(matcher_view(*inner))),
    }
}

/// What a matcher text is: `!` negates the rest, `=url` is an exact URL (which must also read as
/// a glob), `/.../` a regex, `:port` a port, anything else a glob.
pub open spec fn matcher_spec(s: Seq<char>) -> Result<MatcherView, ErrId>
    decreases s.len(),
{
    if s.len() > 0 && s[0] == '!' {
        match matcher_spec(s.drop_first()) {
            Ok(inner) => Ok(MatcherView::Not(Box::new(inner))),
            Err(id) => Err(id),
        }
    } else if s.len() > 0 && s[0] == '=' {
        let rest = s.drop_first();
        if rest.len() == 0 {
            Err((ModelErrorKind::MissingArgument, "exact matcher"))
        } else if url_spec(rest) is Err || glob_matcher_spec(rest) is Err {
            Err((ModelErrorKind::InvalidExactUrlMatcher, "exact matcher"))
        } else {
            Ok(MatcherView::ExactUrl(rest))
        }
    } else if s.len() > 0 && s[0] == '/' {
        match regex_matcher_spec(s) {
            Ok(v) => Ok(MatcherView::Regex(v)),
            Err(id) => Err(id),
        }
    } else if s.len() > 0 && s[0] == ':' {
        match parse_unsigned_spec(s.drop_first(), 0xffff) {
            None => Err((ModelErrorKind::InvalidInteger, "port matcher")),
            Some(p) => if p == 0 {
                Err((ModelErrorKind::ConstraintViolation, "port matcher"))
            } else {
                Ok(MatcherView::Port(p as u16))
            },
        }
    } else {
        match glob_matcher_spec(s) {
            Ok(g) => Ok(MatcherView::Glob(g)),
            Err(id) => Err(id),
        }
    }
}

/// Parses a rule's URL matcher.
pub fn parse_matcher(input: &str) -> (r: Result<Matcher, RuleModelError>)
    ensures
        match (r, matcher_spec(input@)) {
            (Ok(m), Ok(v)) => matcher_view(m) == v,
            (Err(e), Err(id)) => is_err(e, id),
            _ => false,
        },
    decreases input@.len(),
{
    let s = chars_of(input);
    if s.len() > 0 && s[0] == '!' {
        let rest = string_of(&slice_vec(&s, 1, s.len()));
        assert(rest@ =~= input@.drop_first());
        let inner = parse_matcher(rest.as_str())?;
        return Ok(Matcher::Not(Box::new(inner)));
    }
    if s.len() > 0 && s[0] == '=' {
        let rest = string_of(&slice_vec(&s, 1, s.len()));
        assert(rest@ =~= input@.drop_first());
        if rest.as_str().is_empty() {
            return Err(RuleModelError::MissingArgument {
                context: "exact matcher",
                message: crate::text::lit("exact matcher must include a URL"),
            });
        }
        if let Err(source) = UrlParts::parse(rest.as_str()) {
            return Err(RuleModelError::InvalidExactUrlMatcher { source: Box::new(source) });
        }
        if let Err(source) = parse_glob_matcher(rest.as_str()) {
            return Err(RuleModelError::InvalidExactUrlMatcher { source: Box::new(source) });
        }
        return Ok(Matcher::ExactUrl(rest));
    }
    if s.len() > 0 && s[0] == '/' {
        let m = parse_regex_matcher(input)?;
        return Ok(Matcher::Regex(m));
    }
    if s.len() > 0 && s[0] == ':' {
        let digits = slice_vec(&s, 1, s.len());
        assert(digits@ =~= input@.drop_first());
        let shown = string_of(&digits);
        let port = match parse_unsigned(&digits, 0xffff) {
            Some(p) => p,
            None => {
                return Err(RuleModelError::InvalidInteger {
                    context: "port matcher",
                    input: shown,
                    message: concat3("invalid port matcher: ", input, ""),
                });
            },
        };
        if port == 0 {
            return Err(RuleModelError::ConstraintViolation {
                context: "port matcher",
                message: crate::text::lit("port must be 1..65535"),
            });
        }
        return Ok(Matcher::Port(port as u16));
    }
    let g = parse_glob_matcher(input)?;
    Ok(Matcher::Glob(g))
}

} // verus!
