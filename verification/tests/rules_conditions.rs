use rsproxy::rules::condition::{Condition, UrlCondition};
use rsproxy::rules::condition_parser::{parse_condition, parse_condition_at_depth, SyntaxProfile};
use rsproxy::rules::error::RuleModelError;

fn permille(raw: &str) -> Result<u16, RuleModelError> {
    match raw.parse::<f64>() {
        Ok(value) if (0.0..=1.0).contains(&value) => Ok((value * 1000.0).round() as u16),
        _ => Err(RuleModelError::ConstraintViolation {
            context: "chance condition",
            message: "chance must be 0.0..1.0".to_string(),
        }),
    }
}

#[test]
fn condition_method_names_are_uppercased() {
    match parse_condition("method(get, \"post\")", SyntaxProfile::Compatible, &permille).unwrap() {
        Condition::Method(methods) => assert_eq!(methods, vec!["GET", "POST"]),
        other => panic!("unexpected {other:?}"),
    }
}

#[test]
fn condition_negation_and_nesting_parse() {
    match parse_condition("!any(host(*.example.test), status(404, 500))", SyntaxProfile::Compatible, &permille)
        .unwrap()
    {
        Condition::Not(inner) => match *inner {
            Condition::Any(children) => {
                assert_eq!(children.len(), 2);
                assert!(matches!(&children[0], Condition::Host(h) if h == "*.example.test"));
                assert!(matches!(&children[1], Condition::Status(s) if s == &vec![404, 500]));
            }
            other => panic!("unexpected {other:?}"),
        },
        other => panic!("unexpected {other:?}"),
    }
}

#[test]
fn condition_status_outside_http_range_is_refused() {
    let error = parse_condition("status(99)", SyntaxProfile::Compatible, &permille).unwrap_err();
    assert!(matches!(error, RuleModelError::ConstraintViolation { .. }));
    let error = parse_condition("status(600)", SyntaxProfile::Compatible, &permille).unwrap_err();
    assert!(matches!(error, RuleModelError::ConstraintViolation { .. }));
    assert!(parse_condition("status(599)", SyntaxProfile::Compatible, &permille).is_ok());
}

#[test]
fn condition_nesting_beyond_limit_is_refused() {
    let deep = format!("{}method(GET)", "!".repeat(33));
    let error = parse_condition(&deep, SyntaxProfile::Compatible, &permille).unwrap_err();
    assert!(matches!(error, RuleModelError::LimitExceeded { context: "condition nesting", .. }));
    let shallow = format!("{}method(GET)", "!".repeat(32));
    assert!(parse_condition(&shallow, SyntaxProfile::Compatible, &permille).is_ok());
    assert!(parse_condition_at_depth("method(GET)", 33, SyntaxProfile::Compatible, &permille).is_err());
}

#[test]
fn condition_chance_uses_the_conversion() {
    assert!(matches!(
        parse_condition("chance(0.25)", SyntaxProfile::Compatible, &permille).unwrap(),
        Condition::ChancePermille(250)
    ));
    let error = parse_condition("chance(1.5)", SyntaxProfile::Compatible, &permille).unwrap_err();
    assert!(matches!(error, RuleModelError::ConstraintViolation { .. }));
}

#[test]
fn condition_env_and_url_forms() {
    assert!(matches!(
        parse_condition("env(HOME)", SyntaxProfile::Compatible, &permille).unwrap(),
        Condition::EnvPresent(n) if n == "HOME"
    ));
    match parse_condition("env(MODE = \"dev\")", SyntaxProfile::Compatible, &permille).unwrap() {
        Condition::EnvEquals { name, value } => {
            assert_eq!(name, "MODE");
            assert_eq!(value, "dev");
        }
        other => panic!("unexpected {other:?}"),
    }
    assert!(matches!(
        parse_condition("url(/api/i)", SyntaxProfile::Compatible, &permille).unwrap(),
        Condition::Url(UrlCondition::Regex(_))
    ));
    let error = parse_condition("bogus(1)", SyntaxProfile::Compatible, &permille).unwrap_err();
    assert!(matches!(error, RuleModelError::UnsupportedInput { context: "condition", .. }));
    assert!(parse_condition("any()", SyntaxProfile::Compatible, &permille).is_err());
}
