use rsproxy::rules::action::{Action, BodyOp, HeaderOp, UrlRewritePattern};
use rsproxy::rules::bounded_replace::{
    capture_name_or_index, capture_token, limit_error, push_bounded, replace_matches,
    RegexMatch, ReplacementTemplate, ReplacementToken,
};
use rsproxy::rules::error::{ModelErrorKind, RuleModelError};
use rsproxy::rules::glob::{compile_glob_regex, glob_regex_source, validate_glob_pattern};
use rsproxy::rules::mock::parse_mock;
use rsproxy::rules::replace_pattern::RegexReplacePattern;
use rsproxy::rules::rewrites::{
    parse_body_replace, parse_header_op, parse_header_replacement, parse_regex_replace_pattern,
    parse_url_rewrite_pattern,
};
use rsproxy::rules::value::Value;

fn chars(s: &str) -> Vec<char> {
    s.chars().collect()
}

fn args(items: &[&str]) -> Vec<String> {
    items.iter().map(|s| s.to_string()).collect()
}

fn kind(e: &RuleModelError) -> ModelErrorKind {
    match e {
        RuleModelError::EmptyInput { .. } => ModelErrorKind::EmptyInput,
        RuleModelError::MissingArgument { .. } => ModelErrorKind::MissingArgument,
        RuleModelError::InvalidSyntax { .. } => ModelErrorKind::InvalidSyntax,
        RuleModelError::InvalidInput { .. } => ModelErrorKind::InvalidInput,
        RuleModelError::UnsupportedInput { .. } => ModelErrorKind::UnsupportedInput,
        RuleModelError::ConstraintViolation { .. } => ModelErrorKind::ConstraintViolation,
        RuleModelError::LimitExceeded { .. } => ModelErrorKind::LimitExceeded,
        RuleModelError::InvalidInteger { .. } => ModelErrorKind::InvalidInteger,
        RuleModelError::InvalidTemplate { .. } => ModelErrorKind::InvalidTemplate,
        RuleModelError::InvalidRegex { .. } => ModelErrorKind::InvalidRegex,
        RuleModelError::InvalidRegexMatcher { .. } => ModelErrorKind::InvalidRegexMatcher,
        RuleModelError::InvalidExactUrlMatcher { .. } => ModelErrorKind::InvalidExactUrlMatcher,
    }
}

#[test]
fn glob_source_escapes_literals_and_limits_capture_groups() {
    assert_eq!(
        glob_regex_source("a.b", '/').unwrap(),
        r"(?s)\Aa\.b\z"
    );
    assert_eq!(
        glob_regex_source("*.example/**", '.').unwrap(),
        r"(?s)\A([^\.]*?)\.example/(.*?)\z"
    );
    assert_eq!(glob_regex_source(r"a\*", '/').unwrap(), r"(?s)\Aa\*\z");
    assert!(glob_regex_source(r"dangling\", '/').is_none());
    let source = glob_regex_source(&"*".repeat(20), '/').unwrap();
    assert_eq!(source.matches("(?:").count(), 1);
    assert_eq!(source.matches("(.*?)").count(), 9);
}

#[test]
fn compiled_glob_programs_match_segments() {
    let regex = compile_glob_regex("*.example.test", '.').unwrap();
    assert!(regex.is_match("api.example.test"));
    assert!(!regex.is_match("a.b.example.test"));
    let regex = compile_glob_regex("**.example.test", '.').unwrap();
    assert!(regex.is_match("a.b.example.test"));
    assert!(compile_glob_regex(r"trailing\", '.').is_none());
}

#[test]
fn glob_validation_reports_limit_and_invalid_patterns() {
    assert!(validate_glob_pattern("*.example.test", '.', "host condition glob").is_ok());
    let long = "a".repeat(65537);
    let error = validate_glob_pattern(&long, '.', "host condition glob").unwrap_err();
    assert_eq!(kind(&error), ModelErrorKind::LimitExceeded);
    assert_eq!(error.context(), "host condition glob");
    let error = validate_glob_pattern(r"bad\", '.', "host condition glob").unwrap_err();
    assert_eq!(kind(&error), ModelErrorKind::InvalidInput);
}

#[test]
fn capture_tokens_follow_regex_expansion_rules() {
    assert!(matches!(capture_token(&chars("$1x")), Some((ReplacementToken::CaptureName(n), 3)) if n == "1x"));
    assert!(matches!(capture_token(&chars("$12-")), Some((ReplacementToken::CaptureIndex(12), 3))));
    assert!(matches!(capture_token(&chars("${word}!")), Some((ReplacementToken::CaptureName(n), 7)) if n == "word"));
    assert!(matches!(capture_token(&chars("${+2}")), Some((ReplacementToken::CaptureIndex(2), 5))));
    assert!(capture_token(&chars("${open")).is_none());
    assert!(capture_token(&chars("$-")).is_none());
    assert!(capture_token(&chars("$")).is_none());
    assert!(matches!(capture_name_or_index(&chars("007")), ReplacementToken::CaptureIndex(7)));
}

#[test]
fn replacement_template_splits_literals_dollars_and_references() {
    let template = ReplacementTemplate::parse("a$$b$1${name}$-c");
    let shown: Vec<String> = template
        .tokens
        .iter()
        .map(|t| match t {
            ReplacementToken::Literal(s) => format!("L({s})"),
            ReplacementToken::CaptureIndex(i) => format!("I({i})"),
            ReplacementToken::CaptureName(n) => format!("N({n})"),
            ReplacementToken::Dollar => "D".to_string(),
        })
        .collect();
    assert_eq!(shown, ["L(a)", "D", "L(b)", "I(1)", "N(name)", "L($)", "L(-c)"]);
    assert!(ReplacementTemplate::parse("").tokens.is_empty());
}

#[test]
fn expansion_renders_groups_and_respects_the_limit() {
    let template = ReplacementTemplate::parse("<$1|${w}|$9>");
    let groups = vec![Some("ab-1".to_string()), Some("ab".to_string()), None];
    let names = vec![None, Some("w".to_string()), None];
    let mut out = String::from("x");
    template.expand_bounded(&groups, &names, &mut out, 64, "fixture").unwrap();
    assert_eq!(out, "x<ab|ab|>");
    let mut out = String::from("x");
    let error = template.expand_bounded(&groups, &names, &mut out, 5, "fixture").unwrap_err();
    assert_eq!(kind(&error), ModelErrorKind::LimitExceeded);
}

#[test]
fn push_bounded_counts_utf8_bytes() {
    let mut out = String::from("é");
    push_bounded(&mut out, "ü", 4, "fixture").unwrap();
    assert_eq!(out, "éü");
    let error = push_bounded(&mut out, "a", 4, "fixture").unwrap_err();
    assert_eq!(out, "éü");
    assert_eq!(error.message(), "fixture exceeds the 4-byte rendered output limit");
    assert_eq!(limit_error("body", 7).message(), "body exceeds the 7-byte rendered output limit");
}

#[test]
fn replace_matches_splices_rendered_matches_between_gaps() {
    let matches = vec![
        RegexMatch { start: 0, end: 2, groups: vec![Some("ab".to_string())] },
        RegexMatch { start: 4, end: 6, groups: vec![Some("cd".to_string())] },
    ];
    let names = vec![None];
    let out = replace_matches("ab--cd!", &matches, &names, "[$0]", 100, "fixture").unwrap();
    assert_eq!(out, "[ab]--[cd]!");
    assert!(replace_matches("ab--cd!", &matches, &names, "[$0]", 10, "fixture").is_err());
    assert_eq!(replace_matches("plain", &[], &[], "x", 5, "fixture").unwrap(), "plain");
    let wide = vec![RegexMatch { start: 2, end: 4, groups: vec![Some("ü".to_string())] }];
    assert_eq!(replace_matches("éüz", &wide, &names, "u", 100, "fixture").unwrap(), "éuz");
}

#[test]
fn regex_replace_pattern_displays_and_replaces() {
    let pattern = RegexReplacePattern::new("a(b)".to_string(), true).unwrap();
    assert_eq!(pattern.display(), "/a(b)/i");
    assert_eq!(pattern.pattern(), "a(b)");
    assert!(pattern.is_case_insensitive());
    assert_eq!(pattern.replace_all("xABy", "[$1]"), "x[B]y");
    assert_eq!(pattern.replace_all_bounded("xABy", "[$1]", 5).unwrap(), "x[B]y");
    assert!(pattern.replace_all_bounded("xABy", "[$1]", 4).is_err());
    assert!(RegexReplacePattern::new("(".to_string(), false).is_err());
    assert_eq!(
        RegexReplacePattern::new("x".to_string(), false).unwrap().display(),
        "/x/"
    );
}

#[test]
fn replacement_patterns_parse_literals_flags_and_plain_text() {
    let p = parse_regex_replace_pattern(" /a\\/b/i ").unwrap();
    assert_eq!(p.pattern(), "a\\/b");
    assert!(p.is_case_insensitive());
    let p = parse_regex_replace_pattern("'plain text'").unwrap();
    assert_eq!(p.pattern(), "plain text");
    assert!(!p.is_case_insensitive());
    let error = parse_regex_replace_pattern("/a/g").unwrap_err();
    assert_eq!(kind(&error), ModelErrorKind::UnsupportedInput);
    let error = parse_regex_replace_pattern("/unclosed").unwrap_err();
    assert_eq!(kind(&error), ModelErrorKind::InvalidSyntax);
    let error = parse_regex_replace_pattern("/(/").unwrap_err();
    assert_eq!(kind(&error), ModelErrorKind::InvalidRegex);
    assert_eq!(error.context(), "invalid replacement regex");
}

#[test]
fn header_operations_parse_set_remove_and_replace() {
    match parse_header_op(" X-Debug: on ").unwrap() {
        HeaderOp::SetValue { name, value } => {
            assert_eq!(name, "x-debug");
            assert_eq!(value, Value::Inline("on".to_string()));
        }
        other => panic!("unexpected {other:?}"),
    }
    assert!(matches!(parse_header_op("-Server").unwrap(), HeaderOp::Remove { name } if name == "server"));
    match parse_header_op("Location ~ /http:\\/\\/a/https:\\/\\/b").unwrap() {
        HeaderOp::Replace { name, pattern, replacement } => {
            assert_eq!(name, "location");
            assert_eq!(pattern.pattern(), "http://a");
            assert_eq!(replacement, "https://b");
        }
        other => panic!("unexpected {other:?}"),
    }
    assert_eq!(kind(&parse_header_op("no separator").unwrap_err()), ModelErrorKind::InvalidSyntax);
    assert_eq!(kind(&parse_header_op("bad name: v").unwrap_err()), ModelErrorKind::InvalidInput);
    assert_eq!(kind(&parse_header_op("x ~ nope").unwrap_err()), ModelErrorKind::InvalidSyntax);
    let error = parse_header_replacement(&chars("/(/x")).unwrap_err();
    assert_eq!(error.context(), "invalid header replacement regex");
}

#[test]
fn body_and_url_rewrites_parse_regex_or_plain_values() {
    match parse_body_replace(&args(&["/a+/", "\"b\""]), "res.body.replace").unwrap() {
        BodyOp::Replace { pattern, replacement } => {
            assert_eq!(pattern.pattern(), "a+");
            assert_eq!(replacement, "b");
        }
        other => panic!("unexpected {other:?}"),
    }
    let error = parse_body_replace(&args(&["/a/"]), "res.body.replace").unwrap_err();
    assert_eq!(error.message(), "res.body.replace requires pattern and replacement");
    assert!(matches!(parse_url_rewrite_pattern(" /v1/ ").unwrap(), UrlRewritePattern::Regex(p) if p.pattern() == "v1"));
    assert!(matches!(parse_url_rewrite_pattern("/v1").unwrap(), UrlRewritePattern::Plain(Value::Inline(s)) if s == "/v1"));
}

#[test]
fn mock_parses_plain_and_inline_forms() {
    assert!(matches!(parse_mock(&args(&["hello"])).unwrap(), Action::Mock(Value::Inline(s)) if s == "hello"));
    match parse_mock(&args(&["status=201", "type=text/plain", "header=X-A: 1", "body=ok"])).unwrap() {
        Action::MockInline(op) => {
            assert_eq!(op.status, Some(201));
            assert_eq!(op.headers.len(), 2);
            assert_eq!(op.headers[0].0, "Content-Type");
            assert_eq!(op.headers[1].0, "x-a");
            assert_eq!(op.headers[1].1, Value::Inline("1".to_string()));
            assert_eq!(op.body, Some(Value::Inline("ok".to_string())));
        }
        other => panic!("unexpected {other:?}"),
    }
    assert_eq!(kind(&parse_mock(&args(&["status=204", "body=x"])).unwrap_err()), ModelErrorKind::ConstraintViolation);
    assert_eq!(kind(&parse_mock(&args(&["status=abc"])).unwrap_err()), ModelErrorKind::InvalidInteger);
    assert_eq!(kind(&parse_mock(&args(&["status=99"])).unwrap_err()), ModelErrorKind::ConstraintViolation);
    assert_eq!(kind(&parse_mock(&args(&["a", "b"])).unwrap_err()), ModelErrorKind::InvalidInput);
    assert_eq!(kind(&parse_mock(&args(&["status=200", "color=red"])).unwrap_err()), ModelErrorKind::UnsupportedInput);
    assert_eq!(kind(&parse_mock(&args(&["header=nocolon"])).unwrap_err()), ModelErrorKind::InvalidInput);
    assert_eq!(kind(&parse_mock(&args(&[])).unwrap_err()), ModelErrorKind::MissingArgument);
}
