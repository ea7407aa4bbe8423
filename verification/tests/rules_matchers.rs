use rsproxy::rules::condition::{
    body_condition_count, condition_node_count, parse_body_condition, parse_header_condition,
    parse_ip_patterns, parse_url_condition, Condition, UrlCondition,
};
use rsproxy::rules::error::RuleModelError;
use rsproxy::rules::index::{matcher_index_key, MatcherIndexKey};
use rsproxy::rules::lint::matcher_source_bytes;
use rsproxy::rules::regex_matcher::{parse_matcher, parse_regex_matcher, Matcher, RegexEngine};

fn args(items: &[&str]) -> Vec<String> {
    items.iter().map(|s| s.to_string()).collect()
}

#[test]
fn regex_matchers_prefer_the_linear_engine_and_fall_back_for_lookaround() {
    let m = parse_regex_matcher("/ab+c/i").unwrap();
    assert_eq!(m.pattern(), "ab+c");
    assert!(m.case_insensitive());
    assert_eq!(m.engine(), RegexEngine::Linear);
    let m = parse_regex_matcher(r"/a(?=b)/").unwrap();
    assert_eq!(m.engine(), RegexEngine::Fancy);
    assert_eq!(parse_regex_matcher("/a/x").unwrap_err().context(), "regex flags");
    assert_eq!(parse_regex_matcher("/abc").unwrap_err().context(), "regex matcher");
    assert!(matches!(
        parse_regex_matcher("/(/").unwrap_err(),
        RuleModelError::InvalidRegexMatcher { .. }
    ));
}

#[test]
fn matchers_parse_every_form() {
    assert!(matches!(parse_matcher("=https://a.test/x").unwrap(), Matcher::ExactUrl(u) if u == "https://a.test/x"));
    assert!(matches!(parse_matcher("=").unwrap_err(), RuleModelError::MissingArgument { .. }));
    assert!(matches!(parse_matcher("=nota url").unwrap_err(), RuleModelError::InvalidExactUrlMatcher { .. }));
    assert!(matches!(parse_matcher(":8080").unwrap(), Matcher::Port(8080)));
    assert!(matches!(parse_matcher(":0").unwrap_err(), RuleModelError::ConstraintViolation { .. }));
    assert!(matches!(parse_matcher(":http").unwrap_err(), RuleModelError::InvalidInteger { .. }));
    assert!(matches!(parse_matcher("/x/").unwrap(), Matcher::Regex(_)));
    match parse_matcher("!!*.example.test").unwrap() {
        Matcher::Not(inner) => match *inner {
            Matcher::Not(inner) => assert!(matches!(*inner, Matcher::Glob(g) if g.host == "*.example.test")),
            other => panic!("unexpected {other:?}"),
        },
        other => panic!("unexpected {other:?}"),
    }
}

#[test]
fn matcher_keys_and_source_bytes_follow_the_matcher_kind() {
    let key = |m: &str| match matcher_index_key(&parse_matcher(m).unwrap()) {
        MatcherIndexKey::Exact(h) => format!("exact:{h}"),
        MatcherIndexKey::Suffix(h) => format!("suffix:{h}"),
        MatcherIndexKey::Global => "global".to_string(),
    };
    assert_eq!(key("=https://A.test/"), "exact:a.test");
    assert_eq!(key("*.b.test"), "suffix:b.test");
    assert_eq!(key(":443"), "global");
    assert_eq!(key("/x/"), "global");
    assert_eq!(matcher_source_bytes(&parse_matcher(":443").unwrap()), 2);
    assert_eq!(matcher_source_bytes(&parse_matcher("https://h.test:8*/p?q").unwrap()), 5 + 6 + 2 + 2 + 1);
    assert_eq!(matcher_source_bytes(&parse_matcher("!/abc/").unwrap()), 3);
}

#[test]
fn condition_arguments_parse_urls_bodies_headers_and_ips() {
    assert!(matches!(parse_url_condition(" '*://a.test/*' ").unwrap(), UrlCondition::Glob(g) if g == "*://a.test/*"));
    assert!(matches!(parse_url_condition("/^https:/").unwrap(), UrlCondition::Regex(_)));
    assert!(matches!(parse_body_condition("~ \"needle\"").unwrap(), Condition::BodyContains(t) if t == "needle"));
    assert!(matches!(parse_body_condition("/x+/").unwrap(), Condition::BodyRegex(_)));
    assert!(matches!(parse_body_condition("~").unwrap_err(), RuleModelError::MissingArgument { .. }));
    assert!(matches!(parse_header_condition("X-A ~ v", true).unwrap(), Condition::ResHeaderContains { name, value } if name == "x-a" && value == "v"));
    assert!(matches!(parse_header_condition("X-A", false).unwrap(), Condition::HeaderPresent(n) if n == "x-a"));
    assert!(matches!(parse_header_condition("X-A ~ ''", false).unwrap_err(), RuleModelError::EmptyInput { .. }));
    assert!(matches!(parse_header_condition("bad name", false).unwrap_err(), RuleModelError::InvalidInput { .. }));
    assert_eq!(parse_ip_patterns(&args(&["10.0.*", "'::1'"]), "client.ip").unwrap(), ["10.0.*", "::1"]);
    assert_eq!(
        parse_ip_patterns(&args(&[]), "client.ip").unwrap_err().message(),
        "client.ip requires at least one pattern"
    );
    assert_eq!(parse_ip_patterns(&args(&[" "]), "server.ip").unwrap_err().context(), "IP condition pattern");
}

#[test]
fn condition_trees_count_nodes_and_body_predicates() {
    let tree = Condition::Any(vec![
        Condition::BodyContains("a".to_string()),
        Condition::Not(Box::new(Condition::All(vec![
            Condition::ChancePermille(5),
            parse_body_condition("/b/").unwrap(),
        ]))),
    ]);
    assert_eq!(condition_node_count(&tree), 6);
    assert_eq!(body_condition_count(&tree), 2);
    assert_eq!(condition_node_count(&Condition::Status(vec![200])), 1);
}
