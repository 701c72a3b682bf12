use handy_local_rules::builtin::{white_space, BuiltinFunction};
use handy_local_rules::rule::{default_enabled, default_timeout, Rule, RuleType};

fn rule(id: &str, pattern: &str, ignore_case: bool) -> Rule {
    Rule {
        id: id.to_string(),
        description: None,
        rule_type: RuleType::Regex,
        pattern: pattern.to_string(),
        replacement: "TEST".to_string(),
        priority: 0,
        enabled: true,
        ignore_case,
        timeout_ms: 5000,
        stop_on_match: false,
        source_file: None,
    }
}

#[test]
fn test_effective_pattern_with_ignore_case() {
    let rule = rule("test", r"\btest\b", true);
    assert_eq!(rule.effective_pattern(), r"(?i)\btest\b");
}

#[test]
fn effective_pattern_keeps_existing_flag() {
    let r = rule("test", r"(?i)\btest\b", true);
    assert_eq!(r.effective_pattern(), r"(?i)\btest\b");
}

#[test]
fn effective_pattern_without_ignore_case_is_verbatim() {
    let r = rule("test", r"\btest\b", false);
    assert_eq!(r.effective_pattern(), r"\btest\b");
}

#[test]
fn test_builtin_functions() {
    assert_eq!(BuiltinFunction::Uppercase.apply("hello"), "HELLO");
    assert_eq!(BuiltinFunction::Lowercase.apply("HELLO"), "hello");
    assert_eq!(BuiltinFunction::Trim.apply("  hello  "), "hello");
    assert_eq!(BuiltinFunction::Capitalize.apply("hello"), "Hello");
    assert_eq!(BuiltinFunction::Reverse.apply("olleh"), "hello");
    assert_eq!(BuiltinFunction::Reverse.apply("hello"), "olleh");
    assert_eq!(
        BuiltinFunction::NormalizeWhitespace.apply("hello   world  "),
        "hello world"
    );
}

#[test]
fn builtin_trims_and_edges() {
    assert_eq!(BuiltinFunction::TrimStart.apply("  a b  "), "a b  ");
    assert_eq!(BuiltinFunction::TrimEnd.apply("  a b  "), "  a b");
    assert_eq!(BuiltinFunction::Trim.apply("\t\n x \u{3000}"), "x");
    assert_eq!(BuiltinFunction::Trim.apply("   "), "");
    assert_eq!(BuiltinFunction::Capitalize.apply(""), "");
    assert_eq!(BuiltinFunction::Capitalize.apply("ßa"), "SSa");
    assert_eq!(BuiltinFunction::Reverse.apply(""), "");
    assert_eq!(BuiltinFunction::NormalizeWhitespace.apply("  a \t b\n\nc  "), "a b c");
    assert_eq!(BuiltinFunction::NormalizeWhitespace.apply("   "), "");
    assert_eq!(BuiltinFunction::Uppercase.apply("straße"), "STRASSE");
}

#[test]
fn test_function_from_name() {
    assert!(BuiltinFunction::from_name("uppercase").is_some());
    assert!(BuiltinFunction::from_name("UPPER").is_some());
    assert!(BuiltinFunction::from_name("unknown").is_none());
}

#[test]
fn function_aliases_map_to_variants() {
    assert_eq!(BuiltinFunction::from_name("Upper"), Some(BuiltinFunction::Uppercase));
    assert_eq!(BuiltinFunction::from_name("lower"), Some(BuiltinFunction::Lowercase));
    assert_eq!(BuiltinFunction::from_name("LTRIM"), Some(BuiltinFunction::TrimStart));
    assert_eq!(BuiltinFunction::from_name("trimend"), Some(BuiltinFunction::TrimEnd));
    assert_eq!(BuiltinFunction::from_name("cap"), Some(BuiltinFunction::Capitalize));
    assert_eq!(BuiltinFunction::from_name("reverse"), Some(BuiltinFunction::Reverse));
    assert_eq!(BuiltinFunction::from_name("normalize"), Some(BuiltinFunction::NormalizeWhitespace));
    assert_eq!(BuiltinFunction::from_name("trim"), Some(BuiltinFunction::Trim));
    assert_eq!(BuiltinFunction::from_name("trims"), None);
    assert_eq!(BuiltinFunction::from_lower_name("ltrim"), Some(BuiltinFunction::TrimStart));
    assert_eq!(BuiltinFunction::from_lower_name("UPPER"), None);
}

#[test]
fn rule_defaults() {
    assert!(default_enabled());
    assert_eq!(default_timeout(), 5000);
    assert_eq!(RuleType::default(), RuleType::Regex);
    assert_eq!(RuleType::Function.name(), "Function");
}

#[test]
fn white_space_agrees_with_std() {
    for c in (0u32..=0x10FFFF).filter_map(char::from_u32) {
        assert_eq!(white_space(c), c.is_whitespace(), "{:?}", c);
    }
}
