use handy_local_rules::request::{ChatCompletionRequest, Message};
use handy_local_rules::response::{ChatCompletionResponse, ModelsResponse, RuleInfo};
use handy_local_rules::rule::{Rule, RuleType};

fn msg(role: &str, content: &str) -> Message {
    Message { role: role.to_string(), content: content.to_string() }
}

#[test]
fn test_extract_from_messages() {
    let request = ChatCompletionRequest {
        messages: Some(vec![msg("system", "You are helpful."), msg("user", "Hello world")]),
        prompt: None,
        input: None,
        text: None,
    };
    assert_eq!(request.extract_user_content(), Some("Hello world".to_string()));
}

#[test]
fn test_extract_from_prompt() {
    let request = ChatCompletionRequest {
        messages: None,
        prompt: Some("Test prompt".to_string()),
        input: None,
        text: None,
    };
    assert_eq!(request.extract_user_content(), Some("Test prompt".to_string()));
}

#[test]
fn test_ignore_assistant_prefill() {
    let request = ChatCompletionRequest {
        messages: Some(vec![msg("user", "Real Input"), msg("assistant", "Prefill")]),
        prompt: None,
        input: None,
        text: None,
    };
    assert_eq!(request.extract_user_content(), Some("Real Input".to_string()));
}

#[test]
fn extract_falls_back_past_empty_fields() {
    let request = ChatCompletionRequest {
        messages: Some(vec![msg("assistant", "Prefill")]),
        prompt: Some(String::new()),
        input: None,
        text: Some("from text".to_string()),
    };
    assert_eq!(request.extract_user_content(), Some("from text".to_string()));
    let none = ChatCompletionRequest { messages: None, prompt: None, input: Some(String::new()), text: None };
    assert_eq!(none.extract_user_content(), None);
}

#[test]
fn response_id_depends_on_input() {
    let a = ChatCompletionResponse::new("foo slash bar", "foo / bar".to_string());
    let b = ChatCompletionResponse::new("foo slash bar", "other".to_string());
    let c = ChatCompletionResponse::new("something else", "foo / bar".to_string());
    assert!(a.id.starts_with("local-"));
    assert_eq!(a.id.len(), "local-".len() + 36);
    assert_eq!(a.id, b.id);
    assert_ne!(a.id, c.id);
    assert_ne!(&a.id["local-".len()..], "foo slash bar");
    assert_eq!(a.object, "chat.completion");
    assert_eq!(a.choices.len(), 1);
    assert_eq!(a.choices[0].message.role, "assistant");
    assert_eq!(a.choices[0].message.content, "foo / bar");
    assert_eq!(a.choices[0].finish_reason.as_deref(), Some("stop"));
    assert_eq!(a.usage.total_tokens, 0);
}

#[test]
fn models_and_rule_info() {
    let m = ModelsResponse::default();
    assert_eq!(m.data.len(), 1);
    assert_eq!(m.data[0].id, "local-rules");
    let r = Rule {
        id: "echo".to_string(),
        description: Some("d".to_string()),
        rule_type: RuleType::Shell,
        pattern: "cat".to_string(),
        replacement: String::new(),
        priority: 3,
        enabled: false,
        ignore_case: false,
        timeout_ms: 5000,
        stop_on_match: false,
        source_file: None,
    };
    let info = RuleInfo::from_rule(&r);
    assert_eq!(info.rule_type, "shell");
    assert_eq!(info.priority, 3);
    assert!(!info.enabled);
}
