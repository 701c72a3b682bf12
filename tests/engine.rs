use handy_local_rules::engine::RuleEngine;
use handy_local_rules::error::AppError;
use handy_local_rules::rule::{Rule, RuleType};

fn make(id: &str, rule_type: RuleType, pattern: &str, replacement: &str, priority: i32) -> Rule {
    Rule {
        id: id.to_string(),
        description: None,
        rule_type,
        pattern: pattern.to_string(),
        replacement: replacement.to_string(),
        priority,
        enabled: true,
        ignore_case: false,
        timeout_ms: 5000,
        stop_on_match: false,
        source_file: None,
    }
}

fn engine(rules: Vec<Rule>, shell: bool) -> RuleEngine {
    RuleEngine::from_rules(vec!["rules.json".to_string()], rules, shell).unwrap()
}

#[test]
fn test_apply_regex_rule() {
    let mut r = make("slash", RuleType::Regex, r"(?i)\bslash\b", "/", 100);
    r.description = Some("slash -> /".to_string());
    let mut engine = engine(vec![r], false);
    assert_eq!(engine.apply("foo slash bar"), "foo / bar");
}

#[test]
fn test_apply_function_rule() {
    let mut r = make("upper", RuleType::Function, "uppercase", "", 100);
    r.description = Some("Convert to uppercase".to_string());
    let mut engine = engine(vec![r], false);
    assert_eq!(engine.apply("hello world"), "HELLO WORLD");
}

#[test]
fn test_apply_shell_rule() {
    let mut r = make("echo", RuleType::Shell, "cat | tr 'a-z' 'A-Z'", "", 100);
    r.description = Some("Echo with prefix".to_string());
    let mut engine = engine(vec![r], true);
    let mut run = engine.begin_apply("hello");
    assert!(!engine.is_done(&run));
    let request = engine.step(&mut run).expect("the shell rule asks for its command");
    assert_eq!(request.command, "cat | tr 'a-z' 'A-Z'");
    assert_eq!(request.input, "hello");
    assert_eq!(request.timeout_ms, 5000);
    engine.complete_shell(&mut run, Some("HELLO".to_string()));
    assert!(engine.is_done(&run));
    assert!(engine.is_current(&run));
    assert_eq!(engine.finish_apply(run), "HELLO");
    let logs = engine.get_transformation_log();
    assert_eq!(logs.len(), 1);
    assert!(logs[0].matched);
}

#[test]
fn test_transformation_log() {
    let mut engine = engine(vec![make("test", RuleType::Regex, "foo", "bar", 100)], false);
    engine.apply("foo test");
    let logs = engine.get_transformation_log();
    assert_eq!(logs.len(), 1);
    assert!(logs[0].matched);
    assert_eq!(logs[0].rule_id, "test");
    assert_eq!(logs[0].rule_type, "Regex");
    assert_eq!(logs[0].input, "foo test");
    assert_eq!(logs[0].output, "bar test");
}

#[test]
fn no_matching_rule_leaves_input() {
    let mut engine = engine(
        vec![
            make("a", RuleType::Regex, "zzz", "y", 2),
            make("b", RuleType::Function, "no-such-function", "", 1),
        ],
        false,
    );
    assert_eq!(engine.apply("hello"), "hello");
    let logs = engine.get_transformation_log();
    assert_eq!(logs.len(), 2);
    assert!(logs.iter().all(|l| !l.matched));
}

#[test]
fn log_counts_enabled_rules_only() {
    let mut off = make("off", RuleType::Regex, "a", "b", 5);
    off.enabled = false;
    let mut engine = engine(
        vec![off, make("one", RuleType::Regex, "x", "y", 4), make("two", RuleType::Function, "trim", "", 3)],
        false,
    );
    assert_eq!(engine.apply(" x "), "y");
    assert_eq!(engine.get_transformation_log().len(), 2);
    engine.clear_transformation_log();
    assert!(engine.get_transformation_log().is_empty());
}

#[test]
fn higher_priority_output_feeds_lower_priority() {
    let mut engine = engine(
        vec![
            make("five", RuleType::Regex, "bar", "baz", 5),
            make("ten", RuleType::Regex, "foo", "bar", 10),
        ],
        false,
    );
    assert_eq!(engine.get_rules()[0].id, "ten");
    assert_eq!(engine.apply("foo"), "baz");
    let logs = engine.get_transformation_log();
    assert_eq!(logs[0].rule_id, "ten");
    assert_eq!(logs[1].input, logs[0].output);
}

#[test]
fn stop_on_match_ends_the_pass() {
    let mut first = make("first", RuleType::Regex, "a", "b", 10);
    first.stop_on_match = true;
    let mut engine = engine(vec![first, make("second", RuleType::Regex, "b", "c", 5)], false);
    assert_eq!(engine.apply("a"), "b");
    let logs = engine.get_transformation_log();
    assert_eq!(logs.len(), 1);
    assert_eq!(logs[0].rule_id, "first");
    // without a change the pass goes on
    assert_eq!(engine.apply("b"), "c");
    assert_eq!(engine.get_transformation_log().len(), 3);
}

#[test]
fn ignore_case_matches_other_case() {
    let mut r = make("slash", RuleType::Regex, r"\bslash\b", "/", 0);
    r.ignore_case = true;
    let mut engine = engine(vec![r], false);
    assert_eq!(engine.apply("Slash"), "/");
}

#[test]
fn disabled_shell_rules_are_logged_unmatched() {
    let mut engine = engine(vec![make("echo", RuleType::Shell, "tr a-z A-Z", "", 0)], false);
    assert!(!engine.shell_rules_enabled());
    assert_eq!(engine.apply("hi"), "hi");
    let logs = engine.get_transformation_log();
    assert_eq!(logs.len(), 1);
    assert!(!logs[0].matched);
    assert_eq!(logs[0].rule_type, "Shell");
}

#[test]
fn failed_shell_command_keeps_text() {
    let mut engine = engine(vec![make("echo", RuleType::Shell, "false", "", 0)], true);
    let mut run = engine.begin_apply("hi");
    assert!(engine.step(&mut run).is_some());
    engine.complete_shell(&mut run, None);
    assert_eq!(run.text(), "hi");
    assert!(!run.entries()[0].matched);
    assert!(engine.get_transformation_log().is_empty());
    assert_eq!(engine.finish_apply(run), "hi");
    assert!(!engine.get_transformation_log()[0].matched);
}

#[test]
fn backreferences_in_replacement() {
    let mut engine = engine(vec![make("swap", RuleType::Regex, r"(\w+) (\w+)", "$2 $1", 0)], false);
    assert_eq!(engine.apply("hello world"), "world hello");
}

#[test]
fn equal_priorities_keep_file_order() {
    let engine = engine(
        vec![
            make("a", RuleType::Regex, "a", "", 1),
            make("b", RuleType::Regex, "b", "", 2),
            make("c", RuleType::Regex, "c", "", 1),
            make("d", RuleType::Regex, "d", "", 2),
        ],
        false,
    );
    let ids: Vec<String> = engine.get_rules().into_iter().map(|r| r.id).collect();
    assert_eq!(ids, vec!["b", "d", "a", "c"]);
    assert_eq!(engine.rules_count(), 4);
}

#[test]
fn toggle_and_set_enabled() {
    let mut engine = engine(vec![make("x", RuleType::Regex, "a", "b", 0)], false);
    assert_eq!(engine.toggle_rule("x"), Some(false));
    assert!(!engine.get_rules()[0].enabled);
    assert_eq!(engine.apply("a"), "a");
    assert_eq!(engine.toggle_rule("x"), Some(true));
    assert_eq!(engine.apply("a"), "b");
    assert_eq!(engine.set_rule_enabled("x", false), Some(false));
    assert_eq!(engine.set_rule_enabled("x", false), Some(false));
    assert_eq!(engine.toggle_rule("missing"), None);
    assert_eq!(engine.set_rule_enabled("missing", true), None);
}

#[test]
fn invalid_regex_is_rejected() {
    let r = RuleEngine::from_rules(vec![], vec![make("bad", RuleType::Regex, "foo(bar", "", 0)], false);
    assert!(matches!(r, Err(AppError::InvalidRegex(_))));
}

#[test]
fn failed_reload_keeps_previous_table() {
    let mut engine = engine(vec![make("x", RuleType::Regex, "a", "b", 0)], false);
    let bad = vec![make("y", RuleType::Regex, "(", "", 0)];
    assert!(matches!(engine.reload(bad), Err(AppError::InvalidRegex(_))));
    assert_eq!(engine.rules_count(), 1);
    assert_eq!(engine.apply("a"), "b");
    let good = vec![make("y", RuleType::Regex, "a", "c", 0), make("z", RuleType::Function, "upper", "", -1)];
    assert!(engine.reload(good).is_ok());
    assert_eq!(engine.rules_count(), 2);
    assert_eq!(engine.apply("a"), "C");
    assert_eq!(engine.rules_paths(), vec!["rules.json".to_string()]);
}

#[test]
fn log_keeps_latest_thousand_entries() {
    let mut engine = engine(vec![make("x", RuleType::Regex, "a", "b", 0)], false);
    for i in 0..1001 {
        engine.apply(&format!("a{}", i));
    }
    let logs = engine.get_transformation_log();
    assert_eq!(logs.len(), 1000);
    assert_eq!(logs[0].input, "a1");
    assert_eq!(logs[999].input, "a1000");
}

#[test]
fn shell_output_loses_trailing_white_space() {
    let mut engine = engine(vec![make("echo", RuleType::Shell, "cat", "", 0)], true);
    let mut run = engine.begin_apply("hi");
    assert!(engine.step(&mut run).is_some());
    engine.complete_shell(&mut run, Some("HI \n".to_string()));
    assert_eq!(run.text(), "HI");
    assert!(run.entries()[0].matched);
}

#[test]
fn table_changes_are_visible_to_a_pass() {
    let mut engine = engine(vec![make("x", RuleType::Regex, "a", "b", 0)], false);
    let run = engine.begin_apply("a");
    assert!(engine.is_current(&run));
    assert_eq!(engine.toggle_rule("x"), Some(false));
    assert!(!engine.is_current(&run));
    let fresh = engine.begin_apply("a");
    assert!(engine.is_current(&fresh));
    engine.clear_transformation_log();
    assert!(engine.is_current(&fresh));
}

#[test]
fn shrinking_the_log_keeps_the_newest() {
    let mut engine = engine(vec![make("x", RuleType::Regex, "a", "b", 0)], false);
    engine.apply("a1");
    engine.apply("a2");
    engine.apply("a3");
    engine.set_max_log_entries(2);
    let logs = engine.get_transformation_log();
    assert_eq!(logs.len(), 2);
    assert_eq!(logs[0].input, "a2");
    engine.set_max_log_entries(0);
    engine.apply("a4");
    assert!(engine.get_transformation_log().is_empty());
}

#[test]
fn stop_in_the_middle_skips_later_rules() {
    let mut mid = make("mid", RuleType::Regex, "b", "c", 5);
    mid.stop_on_match = true;
    let mut engine = engine(
        vec![make("first", RuleType::Regex, "a", "b", 9), mid, make("last", RuleType::Regex, "c", "d", 1)],
        false,
    );
    assert_eq!(engine.apply("a"), "c");
    let ids: Vec<String> = engine.get_transformation_log().into_iter().map(|l| l.rule_id).collect();
    assert_eq!(ids, vec!["first", "mid"]);
}
