use rsproxy::rules::condition::{parse_body_condition, Condition, UrlCondition};
use rsproxy::rules::condition_eval::{
    normalize_ip_value, CompiledBodyContainsSet, ConditionCache, ConditionMatchContext,
};
use rsproxy::rules::compiled::{Captures, CompiledGlobSet};
use rsproxy::rules::evaluate::bind_matcher_resources;
use rsproxy::rules::matching::{RequestMeta, ResponseMeta};
use rsproxy::rules::regex_matcher::{parse_matcher, Matcher};
use rsproxy::rules::snapshot::{bind_condition_resources, rules_body_literals, Rule};
use rsproxy::rules::url::{GlobMatcher, UrlParts};

fn rule(matcher: Matcher, conditions: Vec<Condition>) -> Rule {
    Rule {
        group: "default".to_string(),
        line: 1,
        raw: String::new(),
        matcher,
        actions: Vec::new(),
        conditions,
        important: false,
        disabled: false,
        tags: Vec::new(),
    }
}

fn request(method: &str, url: &str, body: &str) -> RequestMeta {
    RequestMeta {
        method: method.to_string(),
        url: url.to_string(),
        headers: vec![("X-Trace".to_string(), "Alpha-Beta".to_string())],
        body: body.as_bytes().to_vec(),
        client_ip: Some("10.0.0.7:5555".to_string()),
        server_ip: Some("[::1]".to_string()),
    }
}

fn socket_ips() -> Vec<(String, String)> {
    vec![("10.0.0.7:5555".to_string(), "10.0.0.7".to_string())]
}

fn matcher_captures(matcher: Matcher, url: &str) -> Option<Captures> {
    let rules = vec![rule(matcher, Vec::new())];
    let globs = CompiledGlobSet::for_rules(&rules, &Vec::new()).unwrap();
    let resources = bind_matcher_resources(&rules[0].matcher, &globs);
    let parts = UrlParts::parse(url).unwrap();
    rules[0].matcher.matches_compiled(&parts, url, &globs, &resources)
}

#[test]
fn glob_matchers_capture_path_wildcards() {
    let glob = GlobMatcher {
        scheme: None,
        host: "*.example.test".to_string(),
        port: None,
        path: Some("/api/*".to_string()),
        query: None,
    };
    let captures = matcher_captures(Matcher::Glob(glob.clone()), "https://a.example.test/api/v1").unwrap();
    assert_eq!(captures.indexed(), vec!["v1".to_string()]);
    assert!(captures.whole().is_none());
    assert!(matcher_captures(Matcher::Glob(glob.clone()), "https://a.b.example.test/api/v1").is_none());
    assert!(matcher_captures(Matcher::Glob(glob), "https://a.example.test/web/v1").is_none());
}

#[test]
fn glob_matchers_check_scheme_port_and_query() {
    let glob = GlobMatcher {
        scheme: Some("https".to_string()),
        host: "**.example.test".to_string(),
        port: Some("4*".to_string()),
        path: Some("/docs".to_string()),
        query: Some("page=*".to_string()),
    };
    let hit = matcher_captures(Matcher::Glob(glob.clone()), "https://example.test/docs/intro?page=7").unwrap();
    assert_eq!(hit.indexed(), vec!["7".to_string()]);
    assert!(matcher_captures(Matcher::Glob(glob.clone()), "http://example.test/docs?page=7").is_none());
    assert!(matcher_captures(Matcher::Glob(glob.clone()), "https://example.test:8443/docs?page=7").is_none());
    assert!(matcher_captures(Matcher::Glob(glob.clone()), "https://example.test/docsx?page=7").is_none());
    assert!(matcher_captures(Matcher::Glob(glob), "https://example.test/docs").is_none());
}

#[test]
fn regex_matchers_expose_whole_numbered_and_named_captures() {
    let matcher = parse_matcher(r"/^https://(?P<host>[^/]+)/(\d+)$/").unwrap();
    let captures = matcher_captures(matcher, "https://x.test/42").unwrap();
    assert_eq!(captures.whole(), Some("https://x.test/42".to_string()));
    assert_eq!(captures.indexed(), vec!["x.test".to_string(), "42".to_string()]);
    assert_eq!(captures.named("host"), Some("x.test".to_string()));
    assert_eq!(captures.named("missing"), None);
    let matcher = parse_matcher(r"/^https://(?P<host>[^/]+)/(\d+)$/").unwrap();
    assert!(matcher_captures(matcher, "https://x.test/abc").is_none());
}

#[test]
fn fancy_regex_matchers_match_with_lookaround() {
    let matcher = parse_matcher(r"/^https://(\w+)(?=\.test)/").unwrap();
    let captures = matcher_captures(matcher, "https://api.test/").unwrap();
    assert_eq!(captures.indexed(), vec!["api".to_string()]);
}

#[test]
fn port_exact_and_negated_matchers() {
    assert!(matcher_captures(Matcher::Port(443), "https://a.test/").is_some());
    assert!(matcher_captures(Matcher::Port(443), "http://a.test/").is_none());
    let not_tls = Matcher::Not(Box::new(Matcher::Port(443)));
    assert!(matcher_captures(not_tls, "https://a.test/").is_none());
    let not_tls = Matcher::Not(Box::new(Matcher::Port(443)));
    let captures = matcher_captures(not_tls, "http://a.test/").unwrap();
    assert!(captures.indexed().is_empty());
    let exact = Matcher::ExactUrl("https://a.test/x".to_string());
    assert!(matcher_captures(exact, "https://a.test:443/x?q=1").is_some());
    let exact = Matcher::ExactUrl("https://a.test/x?q=2".to_string());
    assert!(matcher_captures(exact, "https://a.test/x?q=1").is_none());
}

fn holds(condition: Condition, req: &RequestMeta, res: Option<&ResponseMeta>, env: &Vec<(String, Option<String>)>) -> bool {
    let rules = vec![rule(Matcher::Port(443), vec![condition])];
    let table = socket_ips();
    let globs = CompiledGlobSet::for_rules(&rules, &table).unwrap();
    let bodies = CompiledBodyContainsSet::for_rules(&rules).unwrap();
    let resources = bind_condition_resources(&rules[0].conditions[0], &globs, &bodies, &table);
    let url = UrlParts::parse(&req.url).unwrap();
    let context = ConditionMatchContext::compiled(Some(&url), res, 7, &globs, &bodies, env);
    let mut cache = ConditionCache::new(req, &table);
    rules[0].conditions[0].matches_with_compiled(&resources, &context, &mut cache)
}

#[test]
fn request_conditions_compare_methods_headers_hosts_and_urls() {
    let req = request("get", "https://api.example.test/v1/items", "");
    let env = Vec::new();
    assert!(holds(Condition::Method(vec!["POST".to_string(), "GET".to_string()]), &req, None, &env));
    assert!(!holds(Condition::Method(vec!["POST".to_string()]), &req, None, &env));
    assert!(holds(Condition::HeaderPresent("x-trace".to_string()), &req, None, &env));
    assert!(holds(
        Condition::HeaderContains { name: "X-TRACE".to_string(), value: "beta".to_string() },
        &req,
        None,
        &env
    ));
    assert!(!holds(
        Condition::HeaderContains { name: "x-trace".to_string(), value: "gamma".to_string() },
        &req,
        None,
        &env
    ));
    assert!(holds(Condition::Host("api.*.test".to_string()), &req, None, &env));
    assert!(holds(Condition::Host("**.EXAMPLE.test".to_string()), &req, None, &env));
    assert!(!holds(Condition::Host("*.test".to_string()), &req, None, &env));
    assert!(holds(
        Condition::Url(UrlCondition::Glob("https://api.example.test/**".to_string())),
        &req,
        None,
        &env
    ));
    assert!(holds(
        Condition::Url(UrlCondition::Glob("https://api.example.test/v1/items".to_string())),
        &req,
        None,
        &env
    ));
}

#[test]
fn ip_conditions_compare_normalized_addresses() {
    let req = request("GET", "https://a.test/", "");
    let env = Vec::new();
    assert!(holds(Condition::ClientIp(vec!["10.0.0.*".to_string()]), &req, None, &env));
    assert!(holds(Condition::ClientIp(vec!["10.0.0.7".to_string()]), &req, None, &env));
    assert!(!holds(Condition::ClientIp(vec!["10.0.1.*".to_string()]), &req, None, &env));
    assert!(holds(Condition::ServerIp(vec!["::1".to_string()]), &req, None, &env));
    assert!(holds(Condition::ServerIp(vec!["*".to_string()]), &req, None, &env));
    assert_eq!(normalize_ip_value(" [::1] ", &Vec::new()), "::1");
    assert_eq!(normalize_ip_value("10.0.0.7:5555", &socket_ips()), "10.0.0.7");
}

#[test]
fn body_conditions_search_lossy_text_ignoring_ascii_case() {
    let req = request("POST", "https://a.test/", "say HELLO world");
    let env = Vec::new();
    assert!(holds(Condition::BodyContains("hello".to_string()), &req, None, &env));
    assert!(!holds(Condition::BodyContains("goodbye".to_string()), &req, None, &env));
    assert!(holds(parse_body_condition("/hel+o/i").unwrap(), &req, None, &env));
    assert!(!holds(parse_body_condition("/^hello/").unwrap(), &req, None, &env));
    let mut invalid = request("POST", "https://a.test/", "");
    invalid.body = vec![0xff, b'o', b'k'];
    assert!(holds(Condition::BodyContains("ok".to_string()), &invalid, None, &env));
    let rules = vec![rule(
        Matcher::Port(443),
        vec![Condition::Any(vec![
            Condition::BodyContains("Hello".to_string()),
            Condition::BodyContains("hello".to_string()),
        ])],
    )];
    assert_eq!(rules_body_literals(&rules), vec!["Hello".to_string(), "hello".to_string()]);
    let bodies = CompiledBodyContainsSet::for_rules(&rules).unwrap();
    assert_eq!(bodies.len(), 1);
    assert_eq!(bodies.scan("xxHELLOxx"), vec![true]);
}

#[test]
fn response_conditions_never_match_without_a_response() {
    let req = request("GET", "https://a.test/", "");
    let env = Vec::new();
    let res = ResponseMeta { status: 404, headers: vec![("Content-Type".to_string(), "text/HTML".to_string())] };
    assert!(!holds(Condition::Status(vec![404]), &req, None, &env));
    assert!(holds(Condition::Status(vec![200, 404]), &req, Some(&res), &env));
    assert!(!holds(Condition::Not(Box::new(Condition::Status(vec![404]))), &req, None, &env));
    assert!(holds(Condition::Not(Box::new(Condition::Status(vec![200]))), &req, Some(&res), &env));
    assert!(holds(
        Condition::ResHeaderContains { name: "content-type".to_string(), value: "html".to_string() },
        &req,
        Some(&res),
        &env
    ));
    assert!(!holds(Condition::ResHeaderPresent("content-type".to_string()), &req, None, &env));
}

#[test]
fn env_chance_and_combined_conditions() {
    let req = request("GET", "https://a.test/", "");
    let env = vec![
        ("RSPROXY_MODE".to_string(), Some("debug".to_string())),
        ("RSPROXY_UNSET".to_string(), None),
    ];
    assert!(holds(Condition::EnvPresent("RSPROXY_MODE".to_string()), &req, None, &env));
    assert!(!holds(Condition::EnvPresent("RSPROXY_UNSET".to_string()), &req, None, &env));
    assert!(holds(
        Condition::EnvEquals { name: "RSPROXY_MODE".to_string(), value: "debug".to_string() },
        &req,
        None,
        &env
    ));
    assert!(!holds(
        Condition::EnvEquals { name: "RSPROXY_MODE".to_string(), value: "DEBUG".to_string() },
        &req,
        None,
        &env
    ));
    assert!(holds(Condition::ChancePermille(1000), &req, None, &env));
    assert!(!holds(Condition::ChancePermille(0), &req, None, &env));
    let any = Condition::Any(vec![Condition::Method(vec!["POST".to_string()]), Condition::Method(vec!["GET".to_string()])]);
    assert!(holds(any, &req, None, &env));
    let all = Condition::All(vec![Condition::Method(vec!["POST".to_string()]), Condition::Method(vec!["GET".to_string()])]);
    assert!(!holds(all, &req, None, &env));
    assert!(holds(Condition::All(Vec::new()), &req, None, &env));
    assert!(!holds(Condition::Any(Vec::new()), &req, None, &env));
    assert!(holds(Condition::Not(Box::new(Condition::Method(vec!["POST".to_string()]))), &req, None, &env));
}
