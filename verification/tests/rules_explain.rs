use rsproxy::rules::action::{
    Action, BodyOp, CacheOp, HeaderOp, InjectMode, InjectOp, InjectTarget, Phase, QueryOp,
    TlsMinVersion, TlsOp,
};
use rsproxy::rules::explain_action::explain_action;
use rsproxy::rules::family::ActionFamilySet;
use rsproxy::rules::host_pool::HostPool;
use rsproxy::rules::value::Value;

fn inline(text: &str) -> Value {
    Value::Inline(text.to_string())
}

fn table(entries: &[(&str, &str)]) -> Vec<(String, String)> {
    entries.iter().map(|(a, b)| (a.to_string(), b.to_string())).collect()
}

#[test]
fn explained_values_use_the_rendered_table() {
    let pool = HostPool::new(vec![inline("a:${1}"), inline("b:2")]).unwrap();
    let rendered = table(&[("a:${1}", "a:9")]);
    assert_eq!(explain_action(&Action::Host(pool), &rendered), "host(a:9, b:2)");
    let rendered = table(&[("x.json", "y.json")]);
    assert_eq!(
        explain_action(&Action::Mock(Value::File("x.json".to_string())), &rendered),
        "mock(<y.json>)"
    );
    assert_eq!(
        explain_action(&Action::ReqUa(Value::File("ua.txt".to_string())), &rendered),
        "req.ua(<ua.txt>)"
    );
    assert_eq!(
        explain_action(&Action::Tag(Value::Reference("k".to_string())), &rendered),
        "tag(@k)"
    );
}

#[test]
fn explained_actions_use_rule_spelling() {
    let none = table(&[]);
    assert_eq!(explain_action(&Action::Direct, &none), "direct");
    assert_eq!(explain_action(&Action::Status(204), &none), "status(204)");
    assert_eq!(
        explain_action(&Action::Redirect { url: inline("https://x.test/"), code: 301 }, &none),
        "redirect(https://x.test/, 301)"
    );
    assert_eq!(
        explain_action(
            &Action::ReqHeader(HeaderOp::SetValue { name: "x-a".to_string(), value: inline("v") }),
            &none
        ),
        "req.header(x-a: v)"
    );
    assert_eq!(
        explain_action(&Action::ResHeader(HeaderOp::Remove { name: "x-b".to_string() }), &none),
        "res.header(-x-b)"
    );
    assert_eq!(explain_action(&Action::Cache(CacheOp::Off), &none), "cache(off)");
    assert_eq!(
        explain_action(
            &Action::UrlQuery(vec![
                QueryOp::SetValue { name: "a".to_string(), value: inline("1") },
                QueryOp::Remove { name: "b".to_string() },
            ]),
            &none
        ),
        "url.query(a=1, -b)"
    );
    assert_eq!(
        explain_action(&Action::ReqBody(BodyOp::SetValue(Value::Reference("k".to_string()))), &none),
        "req.body.set(@k)"
    );
    assert_eq!(
        explain_action(
            &Action::Inject(InjectOp {
                target: InjectTarget::Html,
                value: inline("<b>"),
                mode: InjectMode::Append,
            }),
            &none
        ),
        "inject(html, <b>, append)"
    );
    let tls = TlsOp {
        client_cert: Some("c.pem".to_string()),
        client_key: Some("k.pem".to_string()),
        min_version: Some(TlsMinVersion::Tls13),
        ciphers: vec![],
    };
    assert_eq!(
        explain_action(&Action::Tls(tls), &table(&[("c.pem", "/etc/c.pem")])),
        "tls(client-cert=/etc/c.pem, client-key=k.pem, min=1.3)"
    );
    assert_eq!(explain_action(&Action::Skip(ActionFamilySet::empty()), &none), "skip()");
    let body = ActionFamilySet::from_prefix("res.body.set").unwrap();
    assert_eq!(explain_action(&Action::Skip(body), &none), "skip(res.body.set)");
}

#[test]
fn explained_actions_without_spelling_use_their_debug_form() {
    let none = table(&[]);
    for action in [
        Action::ResStatus(404),
        Action::Attachment(None),
        Action::Delay { phase: Phase::Req, millis: 10 },
        Action::Throttle { phase: Phase::Res, bytes_per_sec: 2048 },
    ] {
        assert_eq!(explain_action(&action, &none), format!("{action:?}"));
    }
}
