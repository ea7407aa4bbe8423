use std::cell::RefCell;

use rsproxy::platform::ca::{root_ca_request, CaAuthority, CaKeyUsage};
use rsproxy::platform::error::PlatformError;
use rsproxy::platform::startup::{validate_registration, StartupRegistration};
use rsproxy::rules::action::{Action, HeaderOp, Phase};
use rsproxy::rules::action_parser::parse_action;
use rsproxy::rules::amounts::parse_duration_ms;
use rsproxy::rules::host_pool::HostPool;
use rsproxy::rules::condition::Condition;
use rsproxy::rules::condition_parser::SyntaxProfile;
use rsproxy::rules::error::{RuleErrorCode, RuleModelError};
use rsproxy::rules::rule_parser::{parse_rule, ParseRuleError};
use rsproxy::rules::snapshot::Rule;
use rsproxy::rules::template_check::action_templates;
use rsproxy::rules::value::{valid_value_key, Value};

fn millis(text: &str) -> Result<u64, RuleModelError> {
    match text.strip_suffix('s').and_then(|n| n.parse::<u64>().ok()) {
        Some(n) => Ok(n * 1000),
        None => Err(RuleModelError::InvalidInput {
            context: "delay seconds",
            message: format!("unreadable duration {text}"),
        }),
    }
}

fn bytes(text: &str) -> Result<u64, RuleModelError> {
    match text.strip_suffix("kb").and_then(|n| n.parse::<u64>().ok()) {
        Some(n) => Ok(n * 1024),
        None => Err(RuleModelError::InvalidInput {
            context: "throttle speed",
            message: format!("unreadable speed {text}"),
        }),
    }
}

fn any_trailer(_op: &HeaderOp) -> Result<(), RuleModelError> {
    Ok(())
}

fn tls_message(message: String) -> RuleModelError {
    RuleModelError::InvalidInput { context: "tls action", message }
}

fn any_templates(_action: &Action) -> Result<(), RuleModelError> {
    Ok(())
}

fn no_chance(text: &str) -> Result<u16, RuleModelError> {
    Err(RuleModelError::InvalidInput {
        context: "chance",
        message: format!("no chance conversion for {text}"),
    })
}

fn action(input: &str) -> Result<Action, RuleModelError> {
    parse_action(
        input,
        SyntaxProfile::Compatible,
        &millis,
        &bytes,
        &any_trailer,
        &tls_message,
        &any_templates,
    )
}

fn rule(input: &str) -> Result<Rule, ParseRuleError> {
    parse_rule(
        "main",
        7,
        input,
        SyntaxProfile::Compatible,
        &millis,
        &bytes,
        &any_trailer,
        &tls_message,
        &any_templates,
        &no_chance,
    )
}

#[test]
fn action_keywords_parse_without_arguments() {
    assert!(matches!(action("direct"), Ok(Action::Direct)));
    assert!(matches!(action("bypass"), Ok(Action::Bypass)));
    assert!(matches!(action("hide"), Ok(Action::Hide)));
}

#[test]
fn action_value_calls_keep_their_argument() {
    match action("req.ua(curl/8)") {
        Ok(Action::ReqUa(Value::Inline(text))) => assert_eq!(text, "curl/8"),
        other => panic!("expected a user-agent action, got {other:?}"),
    }
}

#[test]
fn action_status_accepts_final_codes_only() {
    assert!(matches!(action("status(204)"), Ok(Action::Status(204))));
    let error = action("status(99)").unwrap_err();
    assert_eq!(error.context(), "status code");
    let error = action("status(abc)").unwrap_err();
    assert!(matches!(error, RuleModelError::InvalidInteger { .. }));
}

#[test]
fn action_redirect_defaults_to_found_and_checks_the_code() {
    match action("redirect(https://example.test/next)") {
        Ok(Action::Redirect { code, .. }) => assert_eq!(code, 302),
        other => panic!("expected a redirect, got {other:?}"),
    }
    match action("redirect(https://example.test/next, 301)") {
        Ok(Action::Redirect { code, .. }) => assert_eq!(code, 301),
        other => panic!("expected a redirect, got {other:?}"),
    }
    let error = action("redirect(https://example.test/next, 200)").unwrap_err();
    assert!(matches!(error, RuleModelError::ConstraintViolation { .. }));
}

#[test]
fn action_unknown_names_are_unsupported() {
    let error = action("nope(x)").unwrap_err();
    assert!(matches!(error, RuleModelError::UnsupportedInput { .. }));
    assert_eq!(error.message(), "unknown action `nope`");
}

#[test]
fn action_delay_and_throttle_read_amounts_through_the_hooks() {
    match action("delay(req, 10ms)") {
        Ok(Action::Delay { phase, millis }) => {
            assert!(matches!(phase, Phase::Req));
            assert_eq!(millis, 10);
        }
        other => panic!("expected a delay, got {other:?}"),
    }
    match action("throttle(res, 2kb)") {
        Ok(Action::Throttle { phase, bytes_per_sec }) => {
            assert!(matches!(phase, Phase::Res));
            assert_eq!(bytes_per_sec, 2048);
        }
        other => panic!("expected a throttle, got {other:?}"),
    }
    assert!(matches!(action("delay(req, 2s)"), Ok(Action::Delay { millis: 2000, .. })));
    assert!(matches!(action("delay(res, 250)"), Ok(Action::Delay { millis: 250, .. })));
    let error = action("delay(req, soon)").unwrap_err();
    assert!(matches!(error, RuleModelError::InvalidInteger { .. }));
    assert_eq!(error.context(), "duration");
    assert_eq!(error.message(), "invalid duration `soon`");
    let error = action("delay(req, 1.5s)").unwrap_err();
    assert_eq!(error.context(), "delay seconds");
    let error = action("delay(later, 10ms)").unwrap_err();
    assert!(matches!(error, RuleModelError::InvalidInput { .. }));
    assert_eq!(error.context(), "delay phase");
}

#[test]
fn action_template_check_refusal_is_returned() {
    let refuse = |_action: &Action| -> Result<(), RuleModelError> {
        Err(RuleModelError::InvalidTemplate {
            context: "template",
            message: "refused".to_string(),
        })
    };
    let result = parse_action(
        "req.ua(x)",
        SyntaxProfile::Compatible,
        &millis,
        &bytes,
        &any_trailer,
        &tls_message,
        &refuse,
    );
    assert!(matches!(result, Err(RuleModelError::InvalidTemplate { .. })));
    let result = parse_action(
        "direct",
        SyntaxProfile::Compatible,
        &millis,
        &bytes,
        &any_trailer,
        &tls_message,
        &refuse,
    );
    assert!(matches!(result, Ok(Action::Direct)));
}

#[test]
fn rule_gathers_actions_conditions_and_properties() {
    let parsed = rule("example.com req.ua(x) when method(GET) @important @tag:team").unwrap();
    assert_eq!(parsed.group, "main");
    assert_eq!(parsed.line, 7);
    assert_eq!(parsed.raw, "example.com req.ua(x) when method(GET) @important @tag:team");
    assert_eq!(parsed.actions.len(), 1);
    assert!(matches!(parsed.actions[0], Action::ReqUa(_)));
    assert_eq!(parsed.conditions.len(), 1);
    assert!(matches!(&parsed.conditions[0], Condition::Method(methods) if methods.len() == 1));
    assert!(parsed.important);
    assert!(!parsed.disabled);
    assert_eq!(parsed.tags, vec!["team".to_string()]);
}

#[test]
fn rule_refusals_carry_their_category() {
    let error = rule("").unwrap_err();
    assert!(matches!(error.code, RuleErrorCode::Syntax));
    assert!(matches!(error.source, RuleModelError::EmptyInput { .. }));
    assert!(error.span.is_none());

    let error = rule("example.com").unwrap_err();
    assert!(matches!(error.code, RuleErrorCode::Action));
    assert!(matches!(error.source, RuleModelError::MissingArgument { .. }));

    let error = rule("example.com direct @tag:").unwrap_err();
    assert!(matches!(error.code, RuleErrorCode::Property));
    assert!(matches!(error.source, RuleModelError::MissingArgument { .. }));

    let error = rule("example.com direct @nope").unwrap_err();
    assert!(matches!(error.code, RuleErrorCode::Property));
    assert_eq!(error.source.message(), "unknown property @nope");

    let error = rule("example.com direct when").unwrap_err();
    assert!(matches!(error.code, RuleErrorCode::Condition));
    assert!(matches!(error.source, RuleModelError::MissingArgument { .. }));

    let error = rule("example.com nope(x)").unwrap_err();
    assert!(matches!(error.code, RuleErrorCode::Action));
    assert_eq!(error.span, Some((12, 19)));
}

#[test]
fn action_templates_skip_stored_references() {
    let inline = Action::ReqUa(Value::Inline("agent-${id}".to_string()));
    assert_eq!(action_templates(&inline), vec!["agent-${id}".to_string()]);
    let stored = Action::ReqUa(Value::Reference("agent".to_string()));
    assert!(action_templates(&stored).is_empty());
    assert!(action_templates(&Action::Direct).is_empty());
}

#[test]
fn validate_templates_checks_each_template_in_order() {
    let seen = RefCell::new(Vec::new());
    let record = |text: &str| -> Result<(), RuleModelError> {
        seen.borrow_mut().push(text.to_string());
        if text.contains("${bad") {
            Err(RuleModelError::InvalidTemplate {
                context: "template",
                message: format!("unclosed template in {text}"),
            })
        } else {
            Ok(())
        }
    };
    let good = Action::ReqUa(Value::Inline("agent-${id}".to_string()));
    assert!(good.validate_templates(&record).is_ok());
    assert_eq!(*seen.borrow(), vec!["agent-${id}".to_string()]);

    let bad = Action::ReqReferer(Value::Inline("${bad".to_string()));
    assert!(matches!(
        bad.validate_templates(&record),
        Err(RuleModelError::InvalidTemplate { .. })
    ));

    let stored = Action::ReqUa(Value::Reference("${bad".to_string()));
    assert!(stored.validate_templates(&record).is_ok());
}

#[test]
fn root_ca_request_names_the_authority() {
    let request = root_ca_request("rsproxy Local CA");
    assert_eq!(request.common_name, "rsproxy Local CA");
    assert_eq!(request.organization, "rsproxy");
    assert_eq!(request.authority, CaAuthority::Unconstrained);
    assert_eq!(
        request.key_usages,
        vec![CaKeyUsage::KeyCertSign, CaKeyUsage::CrlSign, CaKeyUsage::DigitalSignature]
    );
}

#[test]
fn registration_rejects_control_characters() {
    let error = validate_registration(&StartupRegistration {
        executable: "/opt/rsproxy\n".to_string(),
        arguments: vec![],
    })
    .unwrap_err();
    match error {
        PlatformError::InvalidState(message) => assert_eq!(
            message,
            "startup executable and arguments must not contain NUL or newline characters"
        ),
        other => panic!("expected invalid state, got {other:?}"),
    }
}

#[test]
fn duration_texts_read_whole_milliseconds_here() {
    assert_eq!(parse_duration_ms("10ms", &millis).unwrap(), 10);
    assert_eq!(parse_duration_ms("250", &millis).unwrap(), 250);
    assert_eq!(parse_duration_ms("3s", &millis).unwrap(), 3000);
    let error = parse_duration_ms("xms", &millis).unwrap_err();
    assert!(matches!(error, RuleModelError::InvalidInteger { .. }));
    assert_eq!(error.message(), "invalid duration `xms`");
}

#[test]
fn host_pool_slots_wrap_and_selection_is_kept() {
    let a = Value::Inline("a:1".to_string());
    let b = Value::Inline("b:2".to_string());
    let pool = HostPool::new(vec![a.clone(), b.clone()]).unwrap();
    assert_eq!(pool.address_at(0), &a);
    assert_eq!(pool.address_at(3), &b);
    assert_eq!(pool.address_at(usize::MAX), &b);
    let copy = pool.clone();
    assert_eq!(pool.selected_address(), &a);
    assert_eq!(pool.selected_address(), &a);
    assert_eq!(copy.selected_address(), &b);
    assert_eq!(copy.selected_address(), &b);
}

#[test]
fn value_keys_are_short_ascii_words() {
    assert!(valid_value_key("a.b_c-1"));
    assert!(valid_value_key(&"x".repeat(128)));
    assert!(!valid_value_key(""));
    assert!(!valid_value_key("a/b"));
    assert!(!valid_value_key(&"x".repeat(129)));
    assert!(!valid_value_key("é"));
}
