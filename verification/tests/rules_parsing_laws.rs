use rsproxy::rules::delete::parse_delete_property;
use rsproxy::rules::error::RuleModelError;
use rsproxy::rules::migration::migrate_rule_source_v3;
use rsproxy::rules::url::UrlParts;

#[test]
fn delete_property_failures_leave_operations_unchanged() {
    let mut operations = Vec::new();
    assert!(matches!(
        parse_delete_property("foo", &mut operations),
        Err(RuleModelError::UnsupportedInput { .. })
    ));
    assert!(matches!(
        parse_delete_property("reqHeaders", &mut operations),
        Err(RuleModelError::UnsupportedInput { .. })
    ));
    assert!(matches!(
        parse_delete_property("reqH. ", &mut operations),
        Err(RuleModelError::InvalidInput { .. })
    ));
    assert!(operations.is_empty());
    parse_delete_property("reqH.x-test", &mut operations).unwrap();
    assert!(operations.len() == 1 || operations.len() == 2);
}

#[test]
fn parsed_url_is_normalized() {
    let url = UrlParts::parse("HTTP://Example.COM:8080?x=1").unwrap();
    assert_eq!(url.scheme, "http");
    assert_eq!(url.host, "example.com");
    assert_eq!(url.port, Some(8080));
    assert_eq!(url.path, "/");
    assert_eq!(url.query.as_deref(), Some("x=1"));
    let url = UrlParts::parse("https://[::1]/a/b").unwrap();
    assert_eq!(url.host, "::1");
    assert_eq!(url.path, "/a/b");
    assert!(UrlParts::parse("http://example.com:0/").is_err());
    assert!(UrlParts::parse("http://example.com/#frag").is_err());
}

fn first_effective_text(source: &str) -> Option<String> {
    source
        .lines()
        .map(|line| line.split('#').next().unwrap_or("").trim().to_string())
        .find(|text| !text.is_empty())
}

#[test]
fn migrated_source_leads_with_the_version_header() {
    let replaced = migrate_rule_source_v3("# notes\n\n  @language 2   # old\nexample.com direct\n");
    assert_eq!(replaced, "# notes\n\n  @language 3   # old\nexample.com direct\n");
    assert_eq!(first_effective_text(&replaced).as_deref(), Some("@language 3"));

    let inserted = migrate_rule_source_v3("# notes\nexample.com direct");
    assert_eq!(inserted, "# notes\n@language 3\nexample.com direct");
    assert_eq!(first_effective_text(&inserted).as_deref(), Some("@language 3"));

    let appended = migrate_rule_source_v3("# only a comment\n");
    assert_eq!(appended, "# only a comment\n@language 3\n");
    assert_eq!(first_effective_text(&appended).as_deref(), Some("@language 3"));
}
