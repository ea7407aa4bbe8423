use std::collections::HashSet;

use rsproxy::rules::action::{
    Action, BodyOp, DeleteBodyPath, DeleteBodyPathSegment, DeleteOp, DeletePathSegment, Phase,
};
use rsproxy::rules::explain::{explain_delete_body_path, explain_delete_op, explain_raw_value};
use rsproxy::rules::family::{
    effective_actions, families, ActionFamily, ActionFamilySet, ResolutionPolicy, SkipState,
};
use rsproxy::rules::host_pool::HostPool;
use rsproxy::rules::index::{
    exact_url_index_key, extend_unique, glob_index_key, host_suffixes, is_plain_domain,
    MatcherIndexKey,
};
use rsproxy::rules::lint::{lint_finding_bytes, LintFinding};
use rsproxy::rules::url::parse_glob_matcher;
use rsproxy::rules::value::Value;

fn key_text(key: &MatcherIndexKey) -> String {
    match key {
        MatcherIndexKey::Exact(h) => format!("exact:{h}"),
        MatcherIndexKey::Suffix(h) => format!("suffix:{h}"),
        MatcherIndexKey::Global => "global".to_string(),
    }
}

#[test]
fn glob_hosts_choose_exact_suffix_or_global_buckets() {
    let key = |pattern: &str| key_text(&glob_index_key(&parse_glob_matcher(pattern).unwrap()));
    assert_eq!(key("API.Example.test"), "exact:api.example.test");
    assert_eq!(key("*.example.test"), "suffix:example.test");
    assert_eq!(key("**.example.test"), "suffix:example.test");
    assert_eq!(key("*"), "global");
    assert_eq!(key("a*b.example.test"), "global");
    assert_eq!(key_text(&exact_url_index_key("https://[::1]:8443/x")), "exact:::1");
    assert_eq!(key_text(&exact_url_index_key("not a url")), "global");
    assert!(is_plain_domain("a-b.c_d:80"));
    assert!(!is_plain_domain(""));
    assert!(!is_plain_domain("a/b"));
}

#[test]
fn host_suffixes_walk_dot_labels_longest_first() {
    assert_eq!(host_suffixes("a.b.example.test"), ["a.b.example.test", "b.example.test", "example.test", "test"]);
    assert_eq!(host_suffixes("trailing."), ["trailing."]);
    assert_eq!(host_suffixes(""), [""]);
    assert_eq!(host_suffixes(".x"), [".x", "x"]);
}

#[test]
fn extend_unique_appends_first_occurrences_only() {
    let mut out = vec![3];
    let mut seen: HashSet<usize> = [3].into_iter().collect();
    extend_unique(&mut out, &mut seen, &[5, 3, 5, 7, 1, 7]);
    assert_eq!(out, [3, 5, 7, 1]);
    assert_eq!(seen.len(), 4);
}

#[test]
fn host_pool_rejects_empty_and_blank_sources_and_selects_a_member() {
    assert!(HostPool::new(vec![]).is_err());
    let error = HostPool::new(vec![Value::Inline("  ".to_string())]).unwrap_err();
    assert_eq!(error.context(), "host address");
    let pool = HostPool::new(vec![
        Value::Inline("10.0.0.1".to_string()),
        Value::Inline("10.0.0.2".to_string()),
    ])
    .unwrap();
    assert_eq!(pool.addresses().len(), 2);
    let first = pool.selected_address().clone();
    assert!(pool.addresses().contains(&first));
    assert_eq!(pool.selected_address(), &first);
    let shared = pool.clone();
    let second = shared.selected_address().clone();
    assert_ne!(first, second);
}

#[test]
fn action_families_drive_stacking_and_phases() {
    let header = Action::ReqBody(BodyOp::Append(Value::Inline("x".to_string())));
    assert_eq!(header.family(), ActionFamily::ReqBodyAppend);
    assert!(header.is_stackable());
    assert!(!header.is_single());
    assert!(Action::Direct.is_single());
    assert!(Action::Delay { phase: Phase::Res, millis: 5 }.applies_in(Phase::Res));
    assert!(!Action::Delay { phase: Phase::Res, millis: 5 }.applies_in(Phase::Req));
    let delete = Action::Delete(vec![DeleteOp::ResCookies]);
    assert!(delete.applies_in(Phase::Res));
    assert!(!delete.applies_in(Phase::Req));
    assert!(!Action::Delete(vec![]).applies_in(Phase::Req));
    assert_eq!(Action::family_phases(ActionFamily::Delete), [Phase::Req, Phase::Res]);
    assert!(Action::family_applies_in(ActionFamily::Host, Phase::Req));
    assert!(Action::family_is_stackable(ActionFamily::Tag));
    assert_eq!(ActionFamily::Tag.resolution(), ResolutionPolicy::Stackable);
}

#[test]
fn family_names_round_trip() {
    for family in families() {
        assert_eq!(ActionFamily::from_name(family.as_str()), Some(family));
    }
    assert_eq!(ActionFamily::from_name("no.such.family"), None);
}

#[test]
fn skip_suppresses_later_actions_of_named_families() {
    let tag = Action::Tag(Value::Inline("t".to_string()));
    let skip_tags = Action::Skip(ActionFamilySet::from_prefix("tag").unwrap());
    let actions = vec![tag.clone(), skip_tags, tag.clone(), Action::Direct];
    let kept = effective_actions(&actions);
    let names: Vec<ActionFamily> = kept.iter().map(|a| a.family()).collect();
    assert_eq!(names, [ActionFamily::Tag, ActionFamily::Skip, ActionFamily::Direct]);

    let actions = vec![Action::Direct, Action::Skip(ActionFamilySet::empty()), tag, Action::Hide];
    let names: Vec<ActionFamily> = effective_actions(&actions).iter().map(|a| a.family()).collect();
    assert_eq!(names, [ActionFamily::Direct, ActionFamily::Skip]);

    let mut state = SkipState::default();
    assert!(!state.suppresses(ActionFamily::Hide));
    state.observe(&Action::Skip(ActionFamilySet::empty()));
    assert!(state.suppresses(ActionFamily::Hide));
}

#[test]
fn delete_targets_explain_in_rule_syntax() {
    assert_eq!(explain_delete_op(&DeleteOp::PathSegment(DeletePathSegment::Index(-1))), "pathname.-1");
    assert_eq!(explain_delete_op(&DeleteOp::PathSegment(DeletePathSegment::Last)), "pathname.last");
    assert_eq!(explain_delete_op(&DeleteOp::UrlParam("q".to_string())), "urlParams.q");
    assert_eq!(explain_delete_op(&DeleteOp::Trailers), "trailers");
    let path = DeleteBodyPath::new(vec![
        DeleteBodyPathSegment::Key("a.b".to_string()),
        DeleteBodyPathSegment::Index(2),
        DeleteBodyPathSegment::Key("c\\d\n".to_string()),
    ])
    .unwrap();
    assert_eq!(explain_delete_body_path(&path), "a\\.b[2].c\\\\d\\n");
    assert_eq!(explain_delete_op(&DeleteOp::ResBodyPath(path)), "resBody.a\\.b[2].c\\\\d\\n");
    assert_eq!(explain_raw_value(&Value::File("x.json".to_string())), "<x.json>");
    assert_eq!(explain_raw_value(&Value::Reference("k".to_string())), "@k");
    assert_eq!(explain_raw_value(&Value::Inline("v".to_string())), "v");
}

#[test]
fn lint_findings_are_charged_their_text_bytes() {
    let finding = LintFinding {
        group: "g".to_string(),
        line: 2,
        raw: "é".to_string(),
        shadowed_by_group: "gg".to_string(),
        shadowed_by_line: 1,
        shadowed_by_raw: "raw".to_string(),
        families: vec!["host".to_string(), "tag".to_string()],
    };
    assert_eq!(lint_finding_bytes(&finding), 1 + 2 + 2 + 3 + 7);
}
