use rsproxy::rules::url::{validate_map_remote_target, validate_percent_encoding, validate_redirect_location};
use rsproxy::rules::value::Value;

#[test]
fn redirect_locations_accept_http_relative_and_scheme_relative_forms() {
    assert!(validate_redirect_location("https://example.test/a?b#c").is_ok());
    assert!(validate_redirect_location("/relative/path?q=1").is_ok());
    assert!(validate_redirect_location("//cdn.example.test/x").is_ok());
    assert!(validate_redirect_location("#fragment-only").is_ok());
    assert!(validate_redirect_location("a%20b").is_ok());
}

#[test]
fn redirect_locations_reject_each_invalid_form() {
    let context = |v: &str| validate_redirect_location(v).unwrap_err().context();
    assert_eq!(context(""), "redirect location");
    assert_eq!(context("/a b"), "redirect location");
    assert_eq!(context("/a\\b"), "redirect location");
    assert_eq!(context("/bad%zz"), "redirect location");
    assert_eq!(context("/bad%4"), "redirect location");
    assert_eq!(context("ftp://example.test/"), "redirect location scheme");
    assert_eq!(context("a:b/c"), "redirect location scheme");
    assert!(validate_redirect_location("1a:b/c").is_err());
}

#[test]
fn percent_escapes_need_two_hex_digits() {
    let chars = |s: &str| s.chars().collect::<Vec<char>>();
    assert!(validate_percent_encoding(&chars("%41%4a")).is_ok());
    assert!(validate_percent_encoding(&chars("%4")).is_err());
    assert!(validate_percent_encoding(&chars("%g1")).is_err());
    assert!(validate_percent_encoding(&chars("100%")).is_err());
}

#[test]
fn map_remote_targets_must_be_http_urls_when_literal() {
    assert!(validate_map_remote_target(&Value::Inline("https://origin.test:8443/base".to_string())).is_ok());
    assert!(validate_map_remote_target(&Value::Inline("https://$host/x".to_string())).is_ok());
    assert!(validate_map_remote_target(&Value::File("target.txt".to_string())).is_ok());
    let error = validate_map_remote_target(&Value::Inline("ws://origin.test/".to_string())).unwrap_err();
    assert_eq!(error.context(), "map.remote target");
    assert!(validate_map_remote_target(&Value::Inline("not a url".to_string())).is_err());
}
