//! LLM chat types, provider configuration and provider errors.
use crate::text::{chars_of, dec, extend_chars, extend_dec, extend_str, string_of};
use vstd::prelude::*;
use vstd::string::StringExecFns;

verus! {

broadcast use vstd::string::group_string_axioms;

/// A message of a multi-turn conversation (OpenAI `messages` shape).
#[derive(Debug, Clone)]
pub struct ChatMessage {
    /// "system" | "user" | "assistant" | "tool"
    pub role: String,
    pub content: Option<String>,
    pub tool_calls: Option<Vec<ToolCall>>,
    /// Id of the tool call a tool message answers.
    pub tool_call_id: Option<String>,
    /// Function name a tool message answers.
    pub name: Option<String>,
}

/// A function call requested by the model.
#[derive(Debug, Clone)]
pub struct ToolCall {
    pub id: String,
    /// Always "function".
    pub kind: String,
    pub function: ToolCallFunction,
}

/// Function name and JSON arguments of a tool call.
#[derive(Debug, Clone)]
pub struct ToolCallFunction {
    pub name: String,
    /// JSON text, complete once the stream has ended.
    pub arguments: String,
}

/// Events produced while a chat stream is read.
#[derive(Debug, Clone)]
pub enum StreamEvent {
    /// A piece of answer text.
    TextDelta(String),
    /// A tool call starts.
    ToolCallStart { idx: u32, id: String, name: String },
    /// A piece of a tool call's arguments.
    ToolCallArgsDelta { idx: u32, args_chunk: String },
    /// A tool call's arguments are complete.
    ToolCallEnd { idx: u32 },
    /// Why generation stopped.
    FinishReason(FinishReason),
}

/// Why the model stopped generating.
#[derive(Debug, Clone)]
pub enum FinishReason {
    Stop,
    ToolCalls,
    Length,
    Other(String),
}

/// The reason a wire name stands for.
pub open spec fn finish_reason_of(s: Seq<char>, r: FinishReason) -> bool {
    if s == "stop"@ {
        r is Stop
    } else if s == "tool_calls"@ {
        r is ToolCalls
    } else if s == "length"@ {
        r is Length
    } else {
        r matches FinishReason::Other(o) && o@ == s
    }
}

impl FinishReason {
    /// The reason a wire name stands for (`From<&str>`).
    pub fn from_wire(s: &str) -> (r: FinishReason)
        ensures
            finish_reason_of(s@, r),
    {
        let c = chars_of(s);
        if crate::text::str_eq_chars("stop", &c) {
            FinishReason::Stop
        } else if crate::text::str_eq_chars("tool_calls", &c) {
            FinishReason::ToolCalls
        } else if crate::text::str_eq_chars("length", &c) {
            FinishReason::Length
        } else {
            FinishReason::Other(string_of(&c))
        }
    }
}

/// Everything one streamed chat call returned.
#[derive(Debug, Clone)]
pub struct ChatCompletion {
    /// Accumulated answer text.
    pub content: String,
    /// Accumulated tool calls, in the order they started.
    pub tool_calls: Vec<ToolCall>,
    pub finish_reason: FinishReason,
    /// Accumulated reasoning text, when the provider sent any.
    pub reasoning_content: Option<String>,
}

/// A message with a role and a text body, and nothing else.
pub open spec fn plain_message(m: ChatMessage, role: Seq<char>, content: Seq<char>) -> bool {
    &&& m.role@ == role
    &&& m.content matches Some(c) && c@ == content
    &&& m.tool_calls is None
    &&& m.tool_call_id is None
    &&& m.name is None
}

impl ChatMessage {
    /// A system message.
    pub fn system(content: String) -> (r: Self)
        ensures
            plain_message(r, "system"@, content@),
    {
        Self {
            role: String::from_str("system"),
            content: Some(content),
            tool_calls: None,
            tool_call_id: None,
            name: None,
        }
    }

    /// A user message.
    pub fn user(content: String) -> (r: Self)
        ensures
            plain_message(r, "user"@, content@),
    {
        Self {
            role: String::from_str("user"),
            content: Some(content),
            tool_calls: None,
            tool_call_id: None,
            name: None,
        }
    }

    /// An assistant message.
    pub fn assistant(content: String) -> (r: Self)
        ensures
            plain_message(r, "assistant"@, content@),
    {
        Self {
            role: String::from_str("assistant"),
            content: Some(content),
            tool_calls: None,
            tool_call_id: None,
            name: None,
        }
    }

    /// An assistant message that only requests tool calls.
    pub fn assistant_with_tool_calls(tool_calls: Vec<ToolCall>) -> (r: Self)
        ensures
            r.role@ == "assistant"@,
            r.content is None,
            r.tool_calls == Some(tool_calls),
            r.tool_call_id is None,
            r.name is None,
    {
        Self {
            role: String::from_str("assistant"),
            content: None,
            tool_calls: Some(tool_calls),
            tool_call_id: None,
            name: None,
        }
    }

    /// The answer to a tool call.
    pub fn tool_result(tool_call_id: String, name: String, content: String) -> (r: Self)
        ensures
            r.role@ == "tool"@,
            r.content matches Some(c) && c@ == content@,
            r.tool_calls is None,
            r.tool_call_id matches Some(i) && i@ == tool_call_id@,
            r.name matches Some(n) && n@ == name@,
    {
        Self {
            role: String::from_str("tool"),
            content: Some(content),
            tool_calls: None,
            tool_call_id: Some(tool_call_id),
            name: Some(name),
        }
    }
}

impl ChatCompletion {
    /// A plain text completion.
    pub fn text(content: String) -> (r: Self)
        ensures
            r.content == content,
            r.tool_calls@.len() == 0,
            r.finish_reason is Stop,
            r.reasoning_content is None,
    {
        Self { content, tool_calls: Vec::new(), finish_reason: FinishReason::Stop, reasoning_content: None }
    }

    /// A completion that requests tool calls.
    pub fn with_tool_calls(tool_calls: Vec<ToolCall>) -> (r: Self)
        ensures
            r.content@ == Seq::<char>::empty(),
            r.tool_calls == tool_calls,
            r.finish_reason is ToolCalls,
            r.reasoning_content is None,
    {
        Self {
            content: String::new(),
            tool_calls,
            finish_reason: FinishReason::ToolCalls,
            reasoning_content: None,
        }
    }
}

// ───────────────────────── providers ─────────────────────────

/// Default request timeout of a provider, in seconds.
pub const DEFAULT_TIMEOUT_SECS: u64 = 60;

/// Default cloud model.
pub const DEFAULT_OPENAI_MODEL: &'static str = "gpt-4o-mini";

/// Default base address of the cloud API.
pub const DEFAULT_OPENAI_BASE_URL: &'static str = "https://api.openai.com/v1";

/// Settings of a local Ollama provider.
#[derive(Debug, Clone)]
pub struct OllamaConfig {
    /// Address of the Ollama service.
    pub base_url: String,
    /// Model name, such as "llama3:8b".
    pub model: String,
    /// Request timeout in seconds.
    pub timeout_secs: u64,
}

impl Default for OllamaConfig {
    fn default() -> (r: Self)
        ensures
            r.base_url@ == "http://localhost:11434"@,
            r.model@ == "llama3:8b"@,
            r.timeout_secs == 60,
    {
        Self {
            base_url: String::from_str("http://localhost:11434"),
            model: String::from_str("llama3:8b"),
            timeout_secs: DEFAULT_TIMEOUT_SECS,
        }
    }
}

/// Settings of an OpenAI-compatible cloud provider.
#[derive(Debug, Clone)]
pub struct OpenAiConfig {
    /// API key.
    pub api_key: String,
    /// Model name, such as "gpt-4o-mini" or "deepseek-chat".
    pub model: String,
    /// Base address of the API.
    pub base_url: String,
    /// Request timeout in seconds.
    pub timeout_secs: u64,
}

impl OpenAiConfig {
    /// Settings from an API key, a base address and a model.
    pub fn with_base_url_and_model(api_key: String, base_url: String, model: String) -> (r: Self)
        ensures
            r.api_key == api_key,
            r.base_url == base_url,
            r.model == model,
            r.timeout_secs == DEFAULT_TIMEOUT_SECS,
    {
        Self { api_key, model, base_url, timeout_secs: DEFAULT_TIMEOUT_SECS }
    }
}

/// Whether an Ollama version string is at least 0.4 (tool calls supported):
/// the first two dot-separated parts, read as `u32` (0 when unreadable),
/// compared lexicographically with (0, 4).
pub open spec fn version_supports_tools(version: Seq<char>) -> bool {
    let parts = crate::text::split_char(version, '.');
    if parts.len() < 2 {
        false
    } else {
        let major: int = match crate::text::parse_u32(parts[0]) {
            Some(v) => v as int,
            None => 0,
        };
        let minor: int = match crate::text::parse_u32(parts[1]) {
            Some(v) => v as int,
            None => 0,
        };
        major > 0 || minor >= 4
    }
}

/// Whether an Ollama version supports tool calls (version ≥ 0.4.0).
pub fn ollama_version_supports_tools(version: &str) -> (r: bool)
    ensures
        r == version_supports_tools(version@),
{
    let c = chars_of(version);
    let parts = crate::text::split_char_exec(&c, '.');
    if parts.len() < 2 {
        return false;
    }
    assert(crate::text::views(parts@)[0] == parts@[0]@);
    assert(crate::text::views(parts@)[1] == parts@[1]@);
    let major: u32 = match crate::text::parse_u32_exec(&parts[0]) {
        Some(v) => v,
        None => 0,
    };
    let minor: u32 = match crate::text::parse_u32_exec(&parts[1]) {
        Some(v) => v,
        None => 0,
    };
    major > 0 || minor >= 4
}

// ───────────────────────── errors ─────────────────────────

/// Errors of the embedding backends.
#[derive(Debug, Clone)]
pub enum EmbedError {
    /// The backend could not start (model file missing, service down…).
    InitFailed(String),
    /// Inference failed.
    InferenceFailed(String),
    /// The input exceeds the model's token limit.
    InputTooLong { tokens: usize, limit: usize },
    /// The backend is disabled.
    Unavailable,
}

/// Human-readable text of an embedding error.
pub open spec fn embed_error_text(e: EmbedError) -> Seq<char> {
    match e {
        EmbedError::InitFailed(m) => "Embed 初始化失败: "@ + m@,
        EmbedError::InferenceFailed(m) => "Embed 推理失败: "@ + m@,
        EmbedError::InputTooLong { tokens, limit } => "输入过长: "@ + dec(tokens as nat)
            + " tokens（上限 "@ + dec(limit as nat) + "）"@,
        EmbedError::Unavailable => "Embed 服务不可用"@,
    }
}

impl EmbedError {
    /// Human-readable text of the error.
    pub fn to_string(&self) -> (r: String)
        ensures
            r@ == embed_error_text(*self),
    {
        match self {
            EmbedError::InitFailed(m) => {
                let mut v = chars_of("Embed 初始化失败: ");
                extend_str(&mut v, m.as_str());
                string_of(&v)
            },
            EmbedError::InferenceFailed(m) => {
                let mut v = chars_of("Embed 推理失败: ");
                extend_str(&mut v, m.as_str());
                string_of(&v)
            },
            EmbedError::InputTooLong { tokens, limit } => {
                let mut v = chars_of("输入过长: ");
                extend_dec(&mut v, *tokens as u64);
                extend_str(&mut v, " tokens（上限 ");
                extend_dec(&mut v, *limit as u64);
                extend_str(&mut v, "）");
                string_of(&v)
            },
            EmbedError::Unavailable => String::from_str("Embed 服务不可用"),
        }
    }
}

/// Errors of the chat providers.
#[derive(Debug, Clone)]
pub enum LlmError {
    /// The connection failed.
    ConnectionFailed(String),
    /// The request timed out.
    Timeout,
    /// The model does not exist.
    ModelNotFound(String),
    /// The response could not be read.
    InvalidResponse(String),
}

/// Human-readable text of a provider error.
pub open spec fn llm_error_text(e: LlmError) -> Seq<char> {
    match e {
        LlmError::ConnectionFailed(m) => "连接失败: "@ + m@,
        LlmError::Timeout => "请求超时"@,
        LlmError::ModelNotFound(m) => "模型不存在: "@ + m@,
        LlmError::InvalidResponse(m) => "无效响应: "@ + m@,
    }
}

impl LlmError {
    /// Human-readable text of the error.
    pub fn to_string(&self) -> (r: String)
        ensures
            r@ == llm_error_text(*self),
    {
        match self {
            LlmError::ConnectionFailed(m) => {
                let mut v = chars_of("连接失败: ");
                extend_str(&mut v, m.as_str());
                string_of(&v)
            },
            LlmError::Timeout => String::from_str("请求超时"),
            LlmError::ModelNotFound(m) => {
                let mut v = chars_of("模型不存在: ");
                extend_str(&mut v, m.as_str());
                string_of(&v)
            },
            LlmError::InvalidResponse(m) => {
                let mut v = chars_of("无效响应: ");
                extend_str(&mut v, m.as_str());
                string_of(&v)
            },
        }
    }
}

} // verus!
