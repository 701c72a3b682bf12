use handy_local_rules::config::{
    find_config_file, find_rules_paths, get_config_dir, get_default_config_path, get_default_rules_path, join, Config,
    RulesPaths,
};
use handy_local_rules::loader::is_rules_file_name;
use handy_local_rules::log::group_logs;

#[test]
fn test_merge_with_args() {
    let config = Config::default();
    let merged = config.merge_with_args(
        Some("0.0.0.0".to_string()),
        Some(3000),
        Some("extra-rules.json".to_string()),
        None,
        None,
    );
    assert_eq!(merged.host, "0.0.0.0");
    assert_eq!(merged.port, 3000);
    assert_eq!(merged.get_rules_paths(), vec!["extra-rules.json", "rules.json"]);
}

#[test]
fn test_default_config() {
    let config = Config::default();
    assert_eq!(config.host, "127.0.0.1");
    assert_eq!(config.port, 8080);
    assert_eq!(config.get_rules_paths(), vec!["rules.json"]);
}

#[test]
fn merge_keeps_unset_values() {
    let merged = Config::default().merge_with_args(None, None, None, Some("k".to_string()), Some("debug".to_string()));
    assert_eq!(merged.port, 8080);
    assert_eq!(merged.api_key.as_deref(), Some("k"));
    assert_eq!(merged.log_level, "debug");
    assert_eq!(merged.max_log_entries, 1000);
    let loaded = Config::load_or_default(None);
    assert_eq!(loaded.log_level, "info");
    assert!(loaded.cors_enabled);
    assert!(!loaded.enable_shell_rules);
}

#[test]
fn rules_paths_to_vec() {
    assert_eq!(RulesPaths::Single("a.json".to_string()).to_vec(), vec!["a.json"]);
    assert_eq!(
        RulesPaths::Multiple(vec!["rules.json".to_string(), "custom/*.json".to_string(), "extra/".to_string()]).to_vec(),
        vec!["rules.json", "custom/*.json", "extra/"]
    );
}

#[test]
fn default_paths_under_home() {
    assert_eq!(join("/home/u", "x"), "/home/u/x");
    assert_eq!(join("/home/u/", "x"), "/home/u/x");
    assert_eq!(join("", "x"), "x");
    assert_eq!(join("/home/u", "/etc"), "/etc");
    assert_eq!(get_config_dir(Some("/home/u")).as_deref(), Some("/home/u/.handy-local-rules"));
    assert_eq!(get_default_config_path(Some("/home/u")).as_deref(), Some("/home/u/.handy-local-rules/config.json"));
    assert_eq!(get_default_rules_path(Some("/home/u")).as_deref(), Some("/home/u/.handy-local-rules/rules.json"));
    assert_eq!(get_default_rules_path(None), None);
}

#[test]
fn config_file_search_order() {
    assert_eq!(find_config_file(Some("my.json"), true, true, Some("/h"), true).as_deref(), Some("my.json"));
    assert_eq!(find_config_file(Some("my.json"), false, true, Some("/h"), true).as_deref(), Some("config.json"));
    assert_eq!(
        find_config_file(None, false, false, Some("/h"), true).as_deref(),
        Some("/h/.handy-local-rules/config.json")
    );
    assert_eq!(find_config_file(None, false, false, Some("/h"), false), None);
}

#[test]
fn rules_paths_search() {
    let found = find_rules_paths(&vec![], Some("/h"), true, true, true);
    assert_eq!(
        found,
        vec!["rules.json", "/h/.handy-local-rules/rules.json", "/h/.handy-local-rules/*.json"]
    );
    let explicit = find_rules_paths(&vec!["~/r.json".to_string(), "a.json".to_string(), "a.json".to_string()], Some("/h"), true, true, true);
    assert_eq!(explicit, vec!["/h/r.json", "a.json"]);
    let default_only = find_rules_paths(&vec!["rules.json".to_string()], None, true, true, true);
    assert_eq!(default_only, vec!["rules.json"]);
}

#[test]
fn rules_file_names() {
    assert!(is_rules_file_name("a.json"));
    assert!(!is_rules_file_name("a.json.bak"));
    assert!(!is_rules_file_name("json"));
}

#[test]
fn logs_group_into_requests() {
    let p = |a: &str, b: &str| (a.to_string(), b.to_string());
    let groups = group_logs(&vec![p("a", "b"), p("b", "c"), p("x", "x"), p("x", "y")]);
    assert_eq!(groups, vec![p("a", "c"), p("x", "y")]);
    assert!(group_logs(&vec![]).is_empty());
}
