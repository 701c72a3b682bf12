use handy_local_rules::engine::RuleEngine;
use handy_local_rules::error::AppError;
use handy_local_rules::loader::{concat_rules, sort_by_priority, stamp_source};
use handy_local_rules::persist::rewrite_enabled_flag;
use handy_local_rules::rule::{Rule, RuleType};

fn make(id: &str, source: Option<&str>) -> Rule {
    Rule {
        id: id.to_string(),
        description: None,
        rule_type: RuleType::Regex,
        pattern: "a".to_string(),
        replacement: "b".to_string(),
        priority: 0,
        enabled: true,
        ignore_case: false,
        timeout_ms: 5000,
        stop_on_match: false,
        source_file: source.map(|s| s.to_string()),
    }
}

#[test]
fn toggle_is_written_back() {
    let mut engine = RuleEngine::from_rules(vec![], vec![make("x", Some("r.json")), make("y", Some("r.json"))], false).unwrap();
    assert_eq!(engine.toggle_rule("x"), Some(false));
    assert_eq!(engine.source_file_of("x").as_deref(), Some("r.json"));
    let content = r#"[{"id": "x", "pattern": "a", "note": "keep"}, {"id": "y", "pattern": "a"}]"#;
    let text = rewrite_enabled_flag(content, "x", false).unwrap();
    assert!(text.ends_with("]\n"));
    let value: serde_json::Value = serde_json::from_str(&text).unwrap();
    assert_eq!(value[0]["enabled"], serde_json::Value::Bool(false));
    assert_eq!(value[0]["note"], serde_json::Value::String("keep".to_string()));
    assert_eq!(value[0]["id"], serde_json::Value::String("x".to_string()));
    assert_eq!(value[1].get("enabled"), None);
    assert_eq!(value.as_array().map(|a| a.len()), Some(2));
    let compact: String = text.chars().filter(|c| !c.is_whitespace()).collect();
    assert_eq!(
        compact,
        r#"[{"id":"x","pattern":"a","note":"keep","enabled":false},{"id":"y","pattern":"a"}]"#
    );
}

#[test]
fn toggle_twice_restores_the_field() {
    let content = r#"[{"id": "x", "enabled": true, "pattern": "a"}]"#;
    let off = rewrite_enabled_flag(content, "x", false).unwrap();
    let on = rewrite_enabled_flag(&off, "x", true).unwrap();
    let a: serde_json::Value = serde_json::from_str(content).unwrap();
    let b: serde_json::Value = serde_json::from_str(&on).unwrap();
    assert_eq!(a, b);
    let c: serde_json::Value = serde_json::from_str(&off).unwrap();
    assert_eq!(c[0]["enabled"], serde_json::Value::Bool(false));
    assert_eq!(c[0]["pattern"], serde_json::Value::String("a".to_string()));
}

#[test]
fn rewrite_errors() {
    assert!(matches!(rewrite_enabled_flag("[]", "x", true), Err(AppError::RulesLoadError(_))));
    assert!(matches!(rewrite_enabled_flag(r#"[{"id": 3}]"#, "x", true), Err(AppError::RulesLoadError(_))));
    assert!(matches!(rewrite_enabled_flag("{not json", "x", true), Err(AppError::JsonError(_))));
    assert!(matches!(rewrite_enabled_flag(r#"{"id": "x"}"#, "x", true), Err(AppError::JsonError(_))));
}

#[test]
fn only_the_first_entry_with_the_id_changes() {
    let content = r#"[{"id": "y"}, 7, {"id": "x"}, {"id": "x"}]"#;
    let text = rewrite_enabled_flag(content, "x", true).unwrap();
    let v: serde_json::Value = serde_json::from_str(&text).unwrap();
    assert_eq!(v[0].get("enabled"), None);
    assert_eq!(v[1], serde_json::Value::from(7));
    assert_eq!(v[2]["enabled"], serde_json::Value::Bool(true));
    assert_eq!(v[3].get("enabled"), None);
}

#[test]
fn loading_helpers() {
    let mut a = vec![make("a", None), make("b", None)];
    stamp_source(&mut a, "dir/one.json");
    assert!(a.iter().all(|r| r.source_file.as_deref() == Some("dir/one.json")));
    let all = concat_rules(vec![a, vec![make("c", None)], vec![]]);
    let ids: Vec<&str> = all.iter().map(|r| r.id.as_str()).collect();
    assert_eq!(ids, vec!["a", "b", "c"]);
    let mut hi = make("hi", None);
    hi.priority = -1;
    let mut top = make("top", None);
    top.priority = 7;
    let sorted = sort_by_priority(vec![hi, make("mid", None), top]);
    let ids: Vec<&str> = sorted.iter().map(|r| r.id.as_str()).collect();
    assert_eq!(ids, vec!["top", "mid", "hi"]);
}
