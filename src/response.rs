//! Response shapes of the HTTP interface.

use vstd::prelude::*;
use crate::log::TransformationLog;
use crate::rule::{Rule, RuleType};
use crate::text::{copy_opt_string, copy_string, opt_view, to_owned_string};

verus! {

/// Namespace of the name-based ids given to responses (the bytes of "handy-local-rule").
pub const RESPONSE_ID_NAMESPACE: u128 = 0x68616e64792d6c6f63616c2d72756c65u128;

/// The hyphenated text of `uuid::Uuid::new_v5` for a namespace and the UTF-8 bytes of `name`.
pub uninterp spec fn uuid_v5_text(namespace: u128, name: Seq<char>) -> Seq<char>;

/// Relies on `uuid::Uuid::new_v5` and its `Display`: the id depends on the
/// namespace and the name alone.
#[verifier::external_body]
fn name_based_id(namespace: u128, name: &str) -> (r: String)
    ensures
        r@ == uuid_v5_text(namespace, name@),
{
    uuid::Uuid::new_v5(&uuid::Uuid::from_u128(namespace), name.as_bytes()).to_string()
}

/// Token usage; always zero for rule-based processing.
#[derive(Debug, Clone, Copy, PartialEq, Eq, Structural)]
pub struct Usage {
    pub prompt_tokens: u32,
    pub completion_tokens: u32,
    pub total_tokens: u32,
}

impl Default for Usage {
    fn default() -> (r: Usage)
        ensures
            r == (Usage { prompt_tokens: 0, completion_tokens: 0, total_tokens: 0 }),
    {
        Usage { prompt_tokens: 0, completion_tokens: 0, total_tokens: 0 }
    }
}

/// Response message.
#[derive(Debug, Clone)]
pub struct ResponseMessage {
    /// Always `assistant`.
    pub role: String,
    /// The transformed text.
    pub content: String,
}

/// One choice of a response.
#[derive(Debug, Clone)]
pub struct Choice {
    pub index: u32,
    pub message: ResponseMessage,
    pub finish_reason: Option<String>,
}

/// Chat completion response.
#[derive(Debug, Clone)]
pub struct ChatCompletionResponse {
    /// `local-` followed by an id derived from the input.
    pub id: String,
    /// Always `chat.completion`.
    pub object: String,
    pub choices: Vec<Choice>,
    pub usage: Usage,
}

impl ChatCompletionResponse {
    /// A response carrying `content`, with an id that depends on `input` alone.
    pub fn new(input: &str, content: String) -> (r: ChatCompletionResponse)
        ensures
            r.id@ == "local-"@ + uuid_v5_text(RESPONSE_ID_NAMESPACE, input@),
            r.object@ == "chat.completion"@,
            r.choices@.len() == 1,
            r.choices@[0].index == 0,
            r.choices@[0].message.role@ == "assistant"@,
            r.choices@[0].message.content == content,
            opt_view(r.choices@[0].finish_reason) == Some("stop"@),
            r.usage == (Usage { prompt_tokens: 0, completion_tokens: 0, total_tokens: 0 }),
    {
        let mut id = to_owned_string("local-");
        let uid = name_based_id(RESPONSE_ID_NAMESPACE, input);
        id.append(uid.as_str());
        let mut choices: Vec<Choice> = Vec::new();
        choices.push(
            Choice {
                index: 0,
                message: ResponseMessage { role: to_owned_string("assistant"), content },
                finish_reason: Some(to_owned_string("stop")),
            },
        );
        ChatCompletionResponse {
            id,
            object: to_owned_string("chat.completion"),
            choices,
            usage: Usage::default(),
        }
    }
}

/// Health check response.
#[derive(Debug, Clone)]
pub struct HealthResponse {
    pub status: String,
    pub version: String,
    pub rules_loaded: usize,
}

/// Model info.
#[derive(Debug, Clone)]
pub struct ModelInfo {
    pub id: String,
    pub object: String,
}

/// Models list response.
#[derive(Debug, Clone)]
pub struct ModelsResponse {
    pub data: Vec<ModelInfo>,
}

impl Default for ModelsResponse {
    fn default() -> (r: ModelsResponse)
        ensures
            r.data@.len() == 1,
            r.data@[0].id@ == "local-rules"@,
            r.data@[0].object@ == "model"@,
    {
        let mut data: Vec<ModelInfo> = Vec::new();
        data.push(ModelInfo { id: to_owned_string("local-rules"), object: to_owned_string("model") });
        ModelsResponse { data }
    }
}

/// A transformation log entry as the API shows it.
#[derive(Debug, Clone)]
pub struct TransformationLogEntry {
    pub rule_id: String,
    pub rule_type: String,
    pub input: String,
    pub output: String,
    pub matched: bool,
}

impl TransformationLogEntry {
    /// The entry for a log record.
    pub fn from_log(l: &TransformationLog) -> (r: TransformationLogEntry)
        ensures
            r.rule_id@ == l.rule_id@,
            r.rule_type@ == l.rule_type@,
            r.input@ == l.input@,
            r.output@ == l.output@,
            r.matched == l.matched,
    {
        TransformationLogEntry {
            rule_id: copy_string(&l.rule_id),
            rule_type: copy_string(&l.rule_type),
            input: copy_string(&l.input),
            output: copy_string(&l.output),
            matched: l.matched,
        }
    }
}

/// Transformation log response.
#[derive(Debug, Clone)]
pub struct TransformationLogResponse {
    pub logs: Vec<TransformationLogEntry>,
}

/// The lower-case name of a rule kind, as the API shows it.
pub open spec fn kind_label(t: RuleType) -> Seq<char> {
    match t {
        RuleType::Regex => "regex"@,
        RuleType::Shell => "shell"@,
        RuleType::Function => "function"@,
    }
}

/// A rule as the API shows it.
#[derive(Debug, Clone)]
pub struct RuleInfo {
    pub id: String,
    pub description: Option<String>,
    /// `regex`, `shell` or `function`.
    pub rule_type: String,
    pub pattern: String,
    pub replacement: String,
    pub priority: i32,
    pub enabled: bool,
}

impl RuleInfo {
    /// The API view of a rule.
    pub fn from_rule(r: &Rule) -> (info: RuleInfo)
        ensures
            info.id@ == r.id@,
            opt_view(info.description) == opt_view(r.description),
            info.rule_type@ == kind_label(r.rule_type),
            info.pattern@ == r.pattern@,
            info.replacement@ == r.replacement@,
            info.priority == r.priority,
            info.enabled == r.enabled,
    {
        let label = match r.rule_type {
            RuleType::Regex => to_owned_string("regex"),
            RuleType::Shell => to_owned_string("shell"),
            RuleType::Function => to_owned_string("function"),
        };
        RuleInfo {
            id: copy_string(&r.id),
            description: copy_opt_string(&r.description),
            rule_type: label,
            pattern: copy_string(&r.pattern),
            replacement: copy_string(&r.replacement),
            priority: r.priority,
            enabled: r.enabled,
        }
    }
}

/// Rules list response.
#[derive(Debug, Clone)]
pub struct RulesResponse {
    pub rules: Vec<RuleInfo>,
    pub count: usize,
}

/// Response to a toggle.
#[derive(Debug, Clone)]
pub struct RuleToggleResponse {
    pub id: String,
    pub enabled: bool,
    pub message: String,
}

} // verus!
