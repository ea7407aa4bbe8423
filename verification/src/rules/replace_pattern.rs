//! Regex patterns compiled once for repeated replacement.
use crate::rules::bounded_replace::{
    match_views, matches_in, opt_texts, regex_replace_all, replace_outcome, template_spec, RegexMatch,
};
use crate::rules::error::RuleModelError;
use crate::text::{chars_of, concat3, lit};
use regex::Regex;
use std::sync::Arc;
use vstd::prelude::*;

verus! {

#[verifier::external_type_specification]
#[verifier::external_body]
pub struct ExRegexError(regex::Error);

/// Whether `regex::RegexBuilder` compiles `pattern` with the given case sensitivity.
pub uninterp spec fn case_regex_compiles(pattern: Seq<char>, case_insensitive: bool) -> bool;

/// What `Regex::replace_all` returns for the regex compiled from `pattern` with the given case
/// sensitivity, applied to `input` with `replacement` expanded by the regex crate's rules.
pub uninterp spec fn regex_replacement(
    pattern: Seq<char>,
    case_insensitive: bool,
    input: Seq<char>,
    replacement: Seq<char>,
) -> Seq<char>;

/// `RegexBuilder::new(pattern).case_insensitive(..).build()`: the compiled regex, or the
/// crate's syntax error; which of the two comes is named, not stated.
#[verifier::external_body]
pub(crate) fn build_case_regex(pattern: &str, case_insensitive: bool) -> (r: Result<Regex, regex::Error>)
    ensures
        r is Ok == case_regex_compiles(pattern@, case_insensitive),
{
    regex::RegexBuilder::new(pattern).case_insensitive(case_insensitive).build()
}

/// A Rust regular expression compiled once for repeated replacement operations.
#[derive(Clone, Debug)]
pub struct RegexReplacePattern {
    pattern: String,
    case_insensitive: bool,
    compiled: Arc<Regex>,
}

/// `Regex::replace_all` on the compiled form of `p`, with regex-crate capture expansion.
#[verifier::external_body]
fn replace_all_unbounded(p: &RegexReplacePattern, input: &str, replacement: &str) -> (r: String)
    ensures
        r@ == regex_replacement(p.pattern@, p.case_insensitive, input@, replacement@),
{
    p.compiled.replace_all(input, replacement).into_owned()
}

/// The matches `Regex::captures_iter` finds for the regex compiled from `pattern` with the
/// given case sensitivity in `input`: each one's byte range and the text of each group.
pub uninterp spec fn found_matches(
    pattern: Seq<char>,
    case_insensitive: bool,
    input: Seq<char>,
) -> Seq<(usize, usize, Seq<Option<Seq<char>>>)>;

/// The name of each group of the regex compiled from `pattern` with the given case
/// sensitivity, in group order.
pub uninterp spec fn found_names(pattern: Seq<char>, case_insensitive: bool) -> Seq<Option<Seq<char>>>;

/// `Regex::captures_iter` of `p`'s compiled form over `input`, each match taken as its byte
/// range and the text of each group. The documentation promises successive non-overlapping
/// matches whose offsets fall on UTF-8 boundaries with the start no later than the end; which
/// matches are found is named over the pattern and case flag the program was compiled from.
#[verifier::external_body]
pub(crate) fn pattern_matches(p: &RegexReplacePattern, input: &str) -> (r: Vec<RegexMatch>)
    ensures
        matches_in(input@, r@),
        match_views(r@) == found_matches(p.pattern_spec(), p.case_insensitive_spec(), input@),
{
    let mut out = Vec::new();
    for caps in p.compiled.captures_iter(input) {
        let whole = caps.get_match();
        let groups = caps.iter().map(|g| g.map(|m| m.as_str().to_string())).collect();
        out.push(RegexMatch { start: whole.start(), end: whole.end(), groups });
    }
    out
}

/// `Regex::capture_names` of `p`'s compiled form: the name of each group, in group order.
#[verifier::external_body]
pub(crate) fn pattern_group_names(p: &RegexReplacePattern) -> (r: Vec<Option<String>>)
    ensures
        opt_texts(r@) == found_names(p.pattern_spec(), p.case_insensitive_spec()),
{
    p.compiled.capture_names().map(|n| n.map(|s| s.to_string())).collect()
}

impl RegexReplacePattern {
    /// The pattern text.
    pub closed spec fn pattern_spec(&self) -> Seq<char> {
        self.pattern@
    }

    /// Whether matching ignores case.
    pub closed spec fn case_insensitive_spec(&self) -> bool {
        self.case_insensitive
    }

    /// Compiles a pattern with the requested case-sensitivity, returning regex syntax errors.
    pub fn new(pattern: String, case_insensitive: bool) -> (r: Result<Self, regex::Error>)
        ensures
            r is Ok == case_regex_compiles(pattern@, case_insensitive),
            r matches Ok(p) ==> p.pattern_spec() == pattern@ && p.case_insensitive_spec()
                == case_insensitive,
    {
        match build_case_regex(pattern.as_str(), case_insensitive) {
            Ok(compiled) => Ok(RegexReplacePattern { pattern, case_insensitive, compiled: Arc::new(compiled) }),
            Err(e) => Err(e),
        }
    }

    /// Replaces every non-overlapping match using Rust-regex capture expansion.
    pub fn replace_all(&self, input: &str, replacement: &str) -> (r: String)
        ensures
            r@ == regex_replacement(
                self.pattern_spec(),
                self.case_insensitive_spec(),
                input@,
                replacement@,
            ),
    {
        replace_all_unbounded(self, input, replacement)
    }

    /// Replaces all matches only when capture expansion fits `limit` UTF-8 bytes.
    pub fn replace_all_bounded(&self, input: &str, replacement: &str, limit: usize) -> (r: Result<
        String,
        RuleModelError,
    >)
        ensures
            exists|ms: Seq<RegexMatch>|
                #[trigger] match_views(ms) == found_matches(self.pattern_spec(), self.case_insensitive_spec(), input@)
                    && matches_in(input@, ms) && replace_outcome(
                    r,
                    input@,
                    ms,
                    found_names(self.pattern_spec(), self.case_insensitive_spec()),
                    template_spec(replacement@),
                    limit,
                    "regex replacement",
                ),
    {
        regex_replace_all(self, input, replacement, limit, "regex replacement")
    }

    /// Returns pattern text without DSL slash delimiters or flags.
    pub fn pattern(&self) -> (r: &str)
        ensures
            r@ == self.pattern_spec(),
    {
        self.pattern.as_str()
    }

    /// Reports whether the compiled matcher ignores case.
    pub fn is_case_insensitive(&self) -> (r: bool)
        ensures
            r == self.case_insensitive_spec(),
    {
        self.case_insensitive
    }

    /// The pattern in rule syntax: between slashes, with an `i` flag when case is ignored.
    pub fn display(&self) -> (r: String)
        ensures
            r@ == seq!['/'] + self.pattern_spec() + (if self.case_insensitive_spec() {
                seq!['/', 'i']
            } else {
                seq!['/']
            }),
    {
        proof {
            reveal_strlit("/");
            reveal_strlit("/i");
        }
        if self.case_insensitive {
            concat3("/", self.pattern.as_str(), "/i")
        } else {
            concat3("/", self.pattern.as_str(), "/")
        }
    }
}

} // verus!
