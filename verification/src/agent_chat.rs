//! Chat agent: conversation records, how a tool call is routed and answered,
//! and the decisions of one ReAct turn.
use crate::agent_tools::{nonblank, opt_view, str_arg};
use crate::json::{get_str, get_u64, parse_json, spec_parse_json, str_member, u64_member, JsonValue};
use crate::llm::{FinishReason, ToolCall};
use crate::text::{
    trim,
    chars_of, dec, extend_chars, extend_dec, extend_str, join, lemma_join_push, starts_with,
    starts_with_str, str_eq_chars, string_of, string_views, take_chars, take_chars_exec,
};
use std::sync::atomic::AtomicBool;
use std::sync::Arc;
use vstd::prelude::*;
use vstd::string::StringExecFns;

verus! {

broadcast use vstd::string::group_string_axioms;

// ───────────────────────── records ─────────────────────────

/// A stored conversation.
#[derive(Debug, Clone)]
pub struct Conversation {
    pub id: i64,
    pub title: String,
    pub system_prompt: Option<String>,
    pub skill_key: Option<String>,
    pub memory_snapshot: Option<String>,
    pub archived: bool,
    pub created_at: String,
    pub updated_at: String,
}

/// A stored message of a conversation.
#[derive(Debug, Clone)]
pub struct Message {
    pub id: i64,
    pub conversation_id: i64,
    pub role: String,
    pub content: Option<String>,
    pub tool_calls_json: Option<String>,
    pub tool_calls: Option<Vec<ToolCall>>,
    pub tool_call_id: Option<String>,
    pub tool_name: Option<String>,
    pub reasoning_content: Option<String>,
    pub sequence: i64,
    pub created_at: String,
}

/// Cancellation flag of a running turn (true: stop).
pub type CancelToken = Arc<AtomicBool>;

/// A fresh cancellation flag, not set.
pub fn new_cancel_token() -> CancelToken {
    Arc::new(AtomicBool::new(false))
}

// ───────────────────────── tool routing ─────────────────────────

/// Result of executing one tool call.
pub struct ToolExecResult {
    /// Id of the tool call answered.
    pub call_id: String,
    /// Content handed back to the model as the tool message.
    pub content: String,
    pub latency_ms: u64,
    /// Pending approval id of a write or edit; `None` for other tools.
    pub awaiting_approval: Option<i64>,
}

/// A tool call with its arguments read and checked.
pub enum ToolRequest {
    RunShell { command: String, timeout_ms: u64 },
    SearchWiki { query: String, top_k: usize },
    ReadWiki { path: String },
    WriteWiki { path: String, content: String },
    EditWiki { path: String, old_str: String, new_str: String },
    WebSearch { query: String, max_results: usize },
    FetchUrl { url: String },
    /// Not a built-in tool: an MCP tool or an unknown one.
    External { name: String },
}

/// Arguments of a tool call: its JSON text parsed, or an empty object.
pub open spec fn args_of(arguments: Seq<char>, v: JsonValue) -> bool {
    match spec_parse_json(arguments) {
        Some(p) => v == p,
        None => v matches JsonValue::Object(fields) && fields@.len() == 0,
    }
}

/// Arguments of a tool call from its JSON text (an empty object when the
/// text does not parse).
pub fn tool_args(arguments: &str) -> (r: JsonValue)
    ensures
        args_of(arguments@, r),
{
    match parse_json(arguments) {
        Some(v) => v,
        None => JsonValue::Object(Vec::new()),
    }
}

/// A string argument, trimmed, when present and not blank.
pub open spec fn arg(args: JsonValue, key: Seq<char>) -> Option<Seq<char>> {
    nonblank(str_member(args, key))
}

/// A numeric argument with a default.
pub open spec fn num_arg(args: JsonValue, key: Seq<char>, default: u64) -> u64 {
    match u64_member(args, key) {
        Some(n) => n,
        None => default,
    }
}

/// Whether `r` is how a call of tool `name` with `args` is routed: the
/// request with its arguments, or the message naming the missing one.
pub open spec fn routes_to(name: Seq<char>, args: JsonValue, r: Result<ToolRequest, String>) -> bool {
    if name == "run_shell"@ {
        match arg(args, "command"@) {
            None => r matches Err(e) && e@ == "错误：run_shell 需要 'command' 参数"@,
            Some(c) => r matches Ok(ToolRequest::RunShell { command, timeout_ms }) && command@ == c
                && timeout_ms == num_arg(args, "timeout_ms"@, 30000),
        }
    } else if name == "search_wiki"@ {
        match arg(args, "query"@) {
            None => r matches Err(e) && e@ == "错误：search_wiki 需要 'query' 参数"@,
            Some(q) => r matches Ok(ToolRequest::SearchWiki { query, top_k }) && query@ == q
                && top_k == num_arg(args, "top_k"@, 5) as usize,
        }
    } else if name == "read_wiki"@ {
        match arg(args, "path"@) {
            None => r matches Err(e) && e@ == "错误：read_wiki 需要 'path' 参数"@,
            Some(p) => r matches Ok(ToolRequest::ReadWiki { path }) && path@ == p,
        }
    } else if name == "write_wiki"@ {
        match (arg(args, "path"@), arg(args, "content"@)) {
            (None, _) => r matches Err(e) && e@ == "错误：write_wiki 需要 'path' 参数"@,
            (Some(_), None) => r matches Err(e) && e@ == "错误：write_wiki 需要 'content' 参数"@,
            (Some(p), Some(c)) => r matches Ok(ToolRequest::WriteWiki { path, content }) && path@
                == p && content@ == c,
        }
    } else if name == "edit_wiki"@ {
        match (arg(args, "path"@), arg(args, "old_str"@)) {
            (None, _) => r matches Err(e) && e@ == "错误：edit_wiki 需要 'path' 参数"@,
            (Some(_), None) => r matches Err(e) && e@ == "错误：edit_wiki 需要 'old_str' 参数"@,
            (Some(p), Some(o)) => r matches Ok(ToolRequest::EditWiki { path, old_str, new_str })
                && path@ == p && old_str@ == o && new_str@ == (match arg(args, "new_str"@) {
                Some(n) => n,
                None => seq![],
            }),
        }
    } else if name == "web_search"@ {
        match arg(args, "query"@) {
            None => r matches Err(e) && e@ == "错误：web_search 需要 'query' 参数"@,
            Some(q) => r matches Ok(ToolRequest::WebSearch { query, max_results }) && query@ == q
                && max_results == num_arg(args, "max_results"@, 5) as usize,
        }
    } else if name == "fetch_url"@ {
        match arg(args, "url"@) {
            None => r matches Err(e) && e@ == "错误：fetch_url 需要 'url' 参数"@,
            Some(u) => r matches Ok(ToolRequest::FetchUrl { url }) && url@ == u,
        }
    } else {
        r matches Ok(ToolRequest::External { name: n }) && n@ == name
    }
}

fn num_arg_exec(args: &JsonValue, key: &str, default: u64) -> (r: u64)
    ensures
        r == num_arg(*args, key@, default),
{
    match get_u64(args, key) {
        Some(n) => n,
        None => default,
    }
}

/// Routes a tool call to its handler, reading and checking its arguments;
/// an error is the message handed back to the model.
pub fn route_tool_call(tool_name: &str, args: &JsonValue) -> (r: Result<ToolRequest, String>)
    ensures
        routes_to(tool_name@, *args, r),
{
    let name = chars_of(tool_name);
    if str_eq_chars("run_shell", &name) {
        match str_arg(args, "command") {
            None => Err(String::from_str("错误：run_shell 需要 'command' 参数")),
            Some(command) => {
                let timeout_ms = num_arg_exec(args, "timeout_ms", 30000);
                Ok(ToolRequest::RunShell { command, timeout_ms })
            },
        }
    } else if str_eq_chars("search_wiki", &name) {
        match str_arg(args, "query") {
            None => Err(String::from_str("错误：search_wiki 需要 'query' 参数")),
            Some(query) => {
                let top_k = num_arg_exec(args, "top_k", 5) as usize;
                Ok(ToolRequest::SearchWiki { query, top_k })
            },
        }
    } else if str_eq_chars("read_wiki", &name) {
        match str_arg(args, "path") {
            None => Err(String::from_str("错误：read_wiki 需要 'path' 参数")),
            Some(path) => Ok(ToolRequest::ReadWiki { path }),
        }
    } else if str_eq_chars("write_wiki", &name) {
        match str_arg(args, "path") {
            None => Err(String::from_str("错误：write_wiki 需要 'path' 参数")),
            Some(path) => match str_arg(args, "content") {
                None => Err(String::from_str("错误：write_wiki 需要 'content' 参数")),
                Some(content) => Ok(ToolRequest::WriteWiki { path, content }),
            },
        }
    } else if str_eq_chars("edit_wiki", &name) {
        match str_arg(args, "path") {
            None => Err(String::from_str("错误：edit_wiki 需要 'path' 参数")),
            Some(path) => match str_arg(args, "old_str") {
                None => Err(String::from_str("错误：edit_wiki 需要 'old_str' 参数")),
                Some(old_str) => {
                    let new_str = match str_arg(args, "new_str") {
                        Some(n) => n,
                        None => String::new(),
                    };
                    Ok(ToolRequest::EditWiki { path, old_str, new_str })
                },
            },
        }
    } else if str_eq_chars("web_search", &name) {
        match str_arg(args, "query") {
            None => Err(String::from_str("错误：web_search 需要 'query' 参数")),
            Some(query) => {
                let max_results = num_arg_exec(args, "max_results", 5) as usize;
                Ok(ToolRequest::WebSearch { query, max_results })
            },
        }
    } else if str_eq_chars("fetch_url", &name) {
        match str_arg(args, "url") {
            None => Err(String::from_str("错误：fetch_url 需要 'url' 参数")),
            Some(url) => Ok(ToolRequest::FetchUrl { url }),
        }
    } else {
        Ok(ToolRequest::External { name: String::from_str(tool_name) })
    }
}

/// Answer for a tool that is neither built in nor served by an MCP server.
pub fn unknown_tool_message(tool_name: &str) -> (r: String)
    ensures
        r@ == "未知工具: "@ + tool_name@,
{
    let mut v = chars_of("未知工具: ");
    extend_str(&mut v, tool_name);
    string_of(&v)
}

/// MCP server that serves a tool, from the tool's handler kind (`mcp:<server>`).
pub open spec fn mcp_server_of(handler_kind: Option<Seq<char>>) -> Option<Seq<char>> {
    match handler_kind {
        Some(k) => if starts_with(k, "mcp:"@) {
            Some(k.skip(4))
        } else {
            None
        },
        None => None,
    }
}

/// The MCP server named by a tool's handler kind, if it is one.
pub fn mcp_server_for(handler_kind: Option<&str>) -> (r: Option<String>)
    ensures
        opt_view(r) == mcp_server_of(
            match handler_kind {
                Some(k) => Some(k@),
                None => None,
            },
        ),
{
    match handler_kind {
        Some(k) => {
            let c = chars_of(k);
            if starts_with_str(&c, "mcp:") {
                proof {
                    reveal_strlit("mcp:");
                }
                let rest = crate::text::slice_chars(&c, 4, c.len());
                assert(rest@ =~= k@.skip(4));
                Some(string_of(&rest))
            } else {
                None
            }
        },
        None => None,
    }
}

// ───────────────────────── tool answers ─────────────────────────

/// Text handed back for a shell run: the block reason, stdout, then stderr
/// under a marker, or a placeholder when all are empty.
pub open spec fn shell_output(
    blocked: bool,
    reason: Option<Seq<char>>,
    stdout: Seq<char>,
    stderr: Seq<char>,
) -> Seq<char> {
    let a = if blocked {
        "blocked: "@ + (match reason {
            Some(r) => r,
            None => seq![],
        }) + "\n"@
    } else {
        seq![]
    };
    let b = a + stdout;
    let c = if stderr.len() > 0 {
        (if b.len() > 0 {
            b + "\n"@
        } else {
            b
        }) + "--- stderr ---\n"@ + stderr
    } else {
        b
    };
    if c.len() == 0 {
        "(no output)"@
    } else {
        c
    }
}

/// Text handed back for a shell run.
pub fn shell_output_text(
    blocked: bool,
    blocked_reason: Option<&str>,
    stdout: &str,
    stderr: &str,
) -> (r: String)
    ensures
        r@ == shell_output(
            blocked,
            match blocked_reason {
                Some(s) => Some(s@),
                None => None,
            },
            stdout@,
            stderr@,
        ),
{
    let mut out: Vec<char> = Vec::new();
    if blocked {
        extend_str(&mut out, "blocked: ");
        match blocked_reason {
            Some(s) => extend_str(&mut out, s),
            None => {},
        }
        extend_str(&mut out, "\n");
    }
    extend_str(&mut out, stdout);
    let se = chars_of(stderr);
    if se.len() > 0 {
        if out.len() > 0 {
            extend_str(&mut out, "\n");
        }
        extend_str(&mut out, "--- stderr ---\n");
        extend_chars(&mut out, &se);
    }
    if out.len() == 0 {
        String::from_str("(no output)")
    } else {
        string_of(&out)
    }
}

/// Decimal text of a signed integer.
pub open spec fn dec_int(n: int) -> Seq<char> {
    if n < 0 {
        seq!['-'] + dec((-n) as nat)
    } else {
        dec(n as nat)
    }
}

/// Appends the decimal text of a signed integer.
pub fn extend_dec_i64(dst: &mut Vec<char>, n: i64)
    ensures
        final(dst)@ == old(dst)@ + dec_int(n as int),
{
    if n < 0 {
        dst.push('-');
        let m: u64 = if n == i64::MIN {
            9223372036854775808u64
        } else {
            (-n) as u64
        };
        extend_dec(dst, m);
        assert(final(dst)@ =~= old(dst)@ + dec_int(n as int));
    } else {
        extend_dec(dst, n as u64);
    }
}

/// Answer of a write or edit that waits for approval.
pub fn pending_write_text(tool: &str, pending_id: i64, path: &str) -> (r: String)
    ensures
        r@ == tool@ + " pending approval id="@ + dec_int(pending_id as int) + " path="@ + path@,
{
    let mut v = chars_of(tool);
    extend_str(&mut v, " pending approval id=");
    extend_dec_i64(&mut v, pending_id);
    extend_str(&mut v, " path=");
    extend_str(&mut v, path);
    string_of(&v)
}

/// Id of a pending write: the timestamp in milliseconds read as `i64`, or 0.
pub open spec fn pending_id_of(timestamp_ms: Seq<char>) -> i64 {
    match crate::text::parse_i64(timestamp_ms) {
        Some(n) => n,
        None => 0,
    }
}

/// Id of a pending write from the current timestamp in milliseconds.
pub fn pending_write_id_from(timestamp_ms: &str) -> (r: i64)
    ensures
        r == pending_id_of(timestamp_ms@),
{
    let c = chars_of(timestamp_ms);
    match crate::text::parse_i64_exec(&c) {
        Some(n) => n,
        None => 0,
    }
}

/// A hit of a web search.
#[derive(Debug, Clone)]
pub struct WebSearchHit {
    pub title: String,
    pub url: String,
    pub snippet: String,
}

/// Line of the `i`-th (from 1) hit: title, link and the first 200
/// characters of the snippet.
pub open spec fn web_hit_line(i: nat, h: WebSearchHit) -> Seq<char> {
    dec(i) + ". ["@ + h.title@ + "]("@ + h.url@ + ") — "@ + take_chars(h.snippet@, 200)
}

/// Lines of a web search answer: the source, then one line per hit.
pub open spec fn web_lines(source: Seq<char>, hits: Seq<WebSearchHit>) -> Seq<Seq<char>> {
    seq!["[via "@ + source + "]"@] + Seq::new(hits.len(), |i: int| web_hit_line((i + 1) as nat, hits[i]))
}

/// Answer of a web search.
pub open spec fn web_results(source: Seq<char>, hits: Seq<WebSearchHit>) -> Seq<char> {
    if hits.len() == 0 {
        "(no results)"@
    } else {
        join(web_lines(source, hits), "\n"@)
    }
}

/// Answer of a web search, one line per hit.
pub fn web_results_text(source: &str, hits: &[WebSearchHit]) -> (r: String)
    requires
        hits.len() < u64::MAX,
    ensures
        r@ == web_results(source@, hits@),
{
    if hits.len() == 0 {
        return String::from_str("(no results)");
    }
    let mut out = chars_of("[via ");
    extend_str(&mut out, source);
    extend_str(&mut out, "]");
    let ghost lines = web_lines(source@, hits@);
    assert(lines.take(1) =~= seq![out@]);
    assert(join(lines.take(1), "\n"@) == out@) by {
        reveal_with_fuel(join, 2);
    }
    let mut i: usize = 0;
    while i < hits.len()
        invariant
            i <= hits.len(),
            hits.len() < u64::MAX,
            lines == web_lines(source@, hits@),
            out@ == join(lines.take(i + 1), "\n"@),
        decreases hits.len() - i,
    {
        let h = &hits[i];
        let mut line = dec_chars_of(i as u64 + 1);
        extend_str(&mut line, ". [");
        extend_str(&mut line, h.title.as_str());
        extend_str(&mut line, "](");
        extend_str(&mut line, h.url.as_str());
        extend_str(&mut line, ") — ");
        let sn = chars_of(h.snippet.as_str());
        let t = take_chars_exec(&sn, 200);
        extend_chars(&mut line, &t);
        assert(line@ == web_hit_line((i + 1) as nat, hits@[i as int]));
        proof {
            lemma_join_push(lines.take(i + 1), "\n"@, line@);
            assert(lines.take(i + 2) =~= lines.take(i + 1).push(line@));
        }
        extend_str(&mut out, "\n");
        extend_chars(&mut out, &line);
        i = i + 1;
    }
    assert(lines.take(hits.len() + 1) =~= lines);
    string_of(&out)
}

fn dec_chars_of(n: u64) -> (r: Vec<char>)
    ensures
        r@ == dec(n as nat),
{
    crate::text::dec_chars(n)
}

/// Largest page `fetch_url` accepts, in bytes.
pub const FETCH_MAX_BYTES: u64 = 5242880;

/// Refusal of a page whose announced length is over the limit.
pub fn page_too_large_message(content_length: Option<u64>) -> (r: Option<String>)
    ensures
        match content_length {
            Some(n) => if n > FETCH_MAX_BYTES {
                r matches Some(m) && m@ == "页面过大（"@ + dec(n as nat) + " 字节），拒绝获取"@
            } else {
                r is None
            },
            None => r is None,
        },
{
    match content_length {
        Some(n) => if n > FETCH_MAX_BYTES {
            let mut v = chars_of("页面过大（");
            extend_dec(&mut v, n);
            extend_str(&mut v, " 字节），拒绝获取");
            Some(string_of(&v))
        } else {
            None
        },
        None => None,
    }
}

/// Text of a fetched page handed back: its first 8000 characters.
pub fn fetched_text(text: &str) -> (r: String)
    ensures
        r@ == take_chars(text@, 8000),
{
    let c = chars_of(text);
    string_of(&take_chars_exec(&c, 8000))
}

/// How a wait for the user's approval of a write ended.
pub enum ApprovalOutcome {
    Approved(String),
    Rejected(String),
    ChannelClosed,
    TimedOut,
}

/// The tool message for a write that waited for approval.
pub fn approval_message(outcome: ApprovalOutcome) -> (r: String)
    ensures
        match outcome {
            ApprovalOutcome::Approved(m) => r@ == m@,
            ApprovalOutcome::Rejected(why) => r@ == "写操作被拒绝: "@ + why@,
            ApprovalOutcome::ChannelClosed => r@ == "审批 channel 关闭"@,
            ApprovalOutcome::TimedOut => r@ == "审批超时（10分钟）"@,
        },
{
    match outcome {
        ApprovalOutcome::Approved(m) => m,
        ApprovalOutcome::Rejected(why) => {
            let mut v = chars_of("写操作被拒绝: ");
            extend_str(&mut v, why.as_str());
            string_of(&v)
        },
        ApprovalOutcome::ChannelClosed => String::from_str("审批 channel 关闭"),
        ApprovalOutcome::TimedOut => String::from_str("审批超时（10分钟）"),
    }
}

/// Preview of a tool result sent to the UI: its first 200 characters.
pub fn tool_result_preview(content: &str) -> (r: String)
    ensures
        r@ == take_chars(content@, 200),
{
    let c = chars_of(content);
    string_of(&take_chars_exec(&c, 200))
}

// ───────────────────────── one chat turn ─────────────────────────

/// Tool rounds a turn runs before the model is asked to wrap up.
pub const CHAT_MAX_ITERATIONS: u32 = 12;

/// What a chat turn does next.
pub enum TurnStep {
    /// Ask the model again.
    CallModel,
    /// Run the tool calls of the completion, then report with `after_tools`.
    RunTools,
    /// The turn is over; the note, if any, goes with the done event.
    Done { note: Option<String> },
}

/// Decisions of one ReAct turn: tool rounds run so far, and whether the
/// model gets a last, tool-free call to finish in text.
pub struct ChatTurnState {
    pub iterations: u32,
    pub wrap_up: bool,
}

/// Whether a text is one of the shell modes a conversation can be set to.
pub open spec fn is_shell_mode(mode: Seq<char>) -> bool {
    mode == "off"@ || mode == "yolo"@ || mode == "approval"@
}

/// Checks a shell mode before it is stored: `off`, `yolo` or `approval`,
/// anything else refused with a message naming it.
pub fn validate_shell_mode(mode: &str) -> (r: Result<(), String>)
    ensures
        r is Ok <==> is_shell_mode(mode@),
        r matches Err(m) ==> m@ == "无效 shell_mode: "@ + mode@ + "，必须为 off / yolo / approval"@,
{
    let m = chars_of(mode);
    if str_eq_chars("off", &m) || str_eq_chars("yolo", &m) || str_eq_chars("approval", &m) {
        Ok(())
    } else {
        let mut v = chars_of("无效 shell_mode: ");
        extend_str(&mut v, mode);
        extend_str(&mut v, "，必须为 off / yolo / approval");
        Err(string_of(&v))
    }
}

/// Whether a tool is offered to the model: none while wrapping up, and no
/// `run_shell` when the conversation's shell mode is `off`.
pub open spec fn offers_tool(name: Seq<char>, shell_mode: Seq<char>, wrap_up: bool) -> bool {
    !wrap_up && !(shell_mode == "off"@ && name == "run_shell"@)
}

/// Whether a tool is offered to the model in this call.
pub fn keep_tool(name: &str, shell_mode: &str, wrap_up: bool) -> (r: bool)
    ensures
        r == offers_tool(name@, shell_mode@, wrap_up),
{
    if wrap_up {
        return false;
    }
    let m = chars_of(shell_mode);
    let n = chars_of(name);
    !(str_eq_chars("off", &m) && str_eq_chars("run_shell", &n))
}

impl ChatTurnState {
    /// Invariant: at most one round past the budget is ever counted, and
    /// reaching the budget is what starts the wrap-up.
    pub open spec fn wf(&self) -> bool {
        &&& self.iterations <= CHAT_MAX_ITERATIONS
        &&& self.wrap_up <==> self.iterations == CHAT_MAX_ITERATIONS
    }

    /// A turn before its first model call.
    pub fn new() -> (r: Self)
        ensures
            r.iterations == 0,
            !r.wrap_up,
            r.wf(),
    {
        ChatTurnState { iterations: 0, wrap_up: false }
    }

    /// Next step after a completed model call: run tools when it asked for
    /// them, else finish (with a note when the answer was cut by length).
    pub fn on_completion(&self, finish: &FinishReason) -> (r: TurnStep)
        ensures
            match finish {
                FinishReason::ToolCalls => r is RunTools,
                FinishReason::Length => r matches TurnStep::Done { note: Some(n) } && n@
                    == "truncated"@,
                _ => r matches TurnStep::Done { note: None },
            },
    {
        match finish {
            FinishReason::ToolCalls => TurnStep::RunTools,
            FinishReason::Length => TurnStep::Done { note: Some(String::from_str("truncated")) },
            _ => TurnStep::Done { note: None },
        }
    }

    /// Next step after a round of tool calls: call the model again; once
    /// the budget is spent, one last call without tools, then stop.
    pub fn after_tools(&mut self) -> (r: TurnStep)
        requires
            old(self).wf(),
        ensures
            final(self).wf(),
            !old(self).wrap_up && old(self).iterations + 1 < CHAT_MAX_ITERATIONS ==> r is CallModel
                && final(self).iterations == old(self).iterations + 1 && !final(self).wrap_up,
            !old(self).wrap_up && old(self).iterations + 1 == CHAT_MAX_ITERATIONS ==> r is CallModel
                && final(self).wrap_up && final(self).iterations == CHAT_MAX_ITERATIONS,
            old(self).wrap_up ==> (r matches TurnStep::Done { note: Some(n) } && n@
                == "max iterations reached"@) && *final(self) == *old(self),
    {
        if self.wrap_up {
            return TurnStep::Done { note: Some(String::from_str("max iterations reached")) };
        }
        self.iterations = self.iterations + 1;
        if self.iterations >= CHAT_MAX_ITERATIONS {
            self.wrap_up = true;
        }
        TurnStep::CallModel
    }
}

// ───────────────────────── export and prompts ─────────────────────────

/// `pat` removed from the end as many times as it ends the text.
pub open spec fn trim_end_str(s: Seq<char>, pat: Seq<char>) -> Seq<char>
    decreases s.len(),
{
    if pat.len() > 0 && s.len() >= pat.len() && s.skip(s.len() - pat.len()) == pat {
        trim_end_str(s.take(s.len() - pat.len()), pat)
    } else {
        s
    }
}

/// Section of a message in an exported conversation: user and assistant
/// messages with a non-blank text, under their speaker, followed by a rule.
pub open spec fn message_section(m: Message) -> Seq<char> {
    let content = trim(
        match m.content {
            Some(c) => c@,
            None => seq![],
        },
    );
    if content.len() == 0 {
        seq![]
    } else if m.role@ == "user"@ {
        "**用户**\n\n"@ + content + "\n\n---\n\n"@
    } else if m.role@ == "assistant"@ {
        "**AI**\n\n"@ + content + "\n\n---\n\n"@
    } else {
        seq![]
    }
}

/// Sections of the messages, in order.
pub open spec fn message_sections(ms: Seq<Message>) -> Seq<char>
    decreases ms.len(),
{
    if ms.len() == 0 {
        seq![]
    } else {
        message_sections(ms.drop_last()) + message_section(ms.last())
    }
}

/// A conversation as markdown: its title as heading, then the sections,
/// without the trailing rules.
pub open spec fn conversation_markdown_text(title: Seq<char>, ms: Seq<Message>) -> Seq<char> {
    trim_end_str("# "@ + title + "\n\n"@ + message_sections(ms), "---\n\n"@)
}

fn trim_end_str_exec(s: &[char], pat: &str) -> (r: Vec<char>)
    ensures
        r@ == trim_end_str(s@, pat@),
{
    let p = chars_of(pat);
    let mut n: usize = s.len();
    assert(s@.take(n as int) =~= s@);
    if p.len() == 0 {
        return crate::text::slice_chars(s, 0, n);
    }
    while n >= p.len() && crate::text::chars_eq(&crate::text::slice_chars(s, n - p.len(), n), &p)
        invariant
            n <= s.len(),
            p@ == pat@,
            p.len() > 0,
            trim_end_str(s@.take(n as int), pat@) == trim_end_str(s@, pat@),
        decreases n,
    {
        let ghost t = s@.take(n as int);
        assert(t.skip(t.len() - p.len()) =~= s@.subrange(n - p.len(), n as int));
        assert(t.take(t.len() - p.len()) =~= s@.take(n - p.len()));
        n = n - p.len();
    }
    proof {
        let t = s@.take(n as int);
        if n >= p.len() {
            assert(t.skip(t.len() - p.len()) =~= s@.subrange(n - p.len(), n as int));
        }
    }
    crate::text::slice_chars(s, 0, n)
}

/// A conversation exported as markdown.
pub fn export_conversation_markdown(title: &str, messages: &[Message]) -> (r: String)
    ensures
        r@ == conversation_markdown_text(title@, messages@),
{
    let mut out = chars_of("# ");
    extend_str(&mut out, title);
    extend_str(&mut out, "\n\n");
    let ghost head = out@;
    let mut i: usize = 0;
    while i < messages.len()
        invariant
            i <= messages.len(),
            out@ == head + message_sections(messages@.take(i as int)),
        decreases messages.len() - i,
    {
        let m = &messages[i];
        assert(messages@.take(i + 1).drop_last() =~= messages@.take(i as int));
        let content = match &m.content {
            Some(c) => crate::text::trim_str(c.as_str()),
            None => crate::text::trim_chars(&Vec::new()),
        };
        let ghost before = out@;
        if content.len() > 0 {
            let role = chars_of(m.role.as_str());
            if str_eq_chars("user", &role) {
                extend_str(&mut out, "**用户**\n\n");
                extend_chars(&mut out, &content);
                extend_str(&mut out, "\n\n---\n\n");
            } else if str_eq_chars("assistant", &role) {
                extend_str(&mut out, "**AI**\n\n");
                extend_chars(&mut out, &content);
                extend_str(&mut out, "\n\n---\n\n");
            }
        }
        assert(out@ =~= before + message_section(messages@[i as int]));
        i = i + 1;
    }
    assert(messages@.take(messages.len() as int) =~= messages@);
    string_of(&trim_end_str_exec(&out, "---\n\n"))
}

/// The prompt template of the skill with key `key`, if it exists and is
/// not empty.
pub open spec fn skill_template(skills: Seq<crate::store::AgentSkillRecord>, key: Seq<char>) -> Option<Seq<char>>
    decreases skills.len(),
{
    if skills.len() == 0 {
        None
    } else if skills[0].skill_key@ == key {
        if skills[0].prompt_template@.len() > 0 {
            Some(skills[0].prompt_template@)
        } else {
            None
        }
    } else {
        skill_template(skills.drop_first(), key)
    }
}

/// The prompt template of the first skill with the given key, when it is
/// not empty.
pub fn find_skill_template(skills: &[crate::store::AgentSkillRecord], key: &str) -> (r: Option<String>)
    ensures
        opt_view(r) == skill_template(skills@, key@),
{
    let k = chars_of(key);
    let mut i: usize = 0;
    assert(skills@.skip(0) =~= skills@);
    while i < skills.len()
        invariant
            i <= skills.len(),
            k@ == key@,
            skill_template(skills@, key@) == skill_template(skills@.skip(i as int), key@),
        decreases skills.len() - i,
    {
        assert(skills@.skip(i as int)[0] == skills@[i as int]);
        if str_eq_chars(skills[i].skill_key.as_str(), &k) {
            if skills[i].prompt_template.as_str().unicode_len() > 0 {
                return Some(String::from_str(skills[i].prompt_template.as_str()));
            }
            return None;
        }
        assert(skills@.skip(i as int).drop_first() =~= skills@.skip(i + 1));
        i = i + 1;
    }
    None
}

/// Baseline of the chat agent's system prompt: the shell it runs and today's date.
pub open spec fn baseline_prompt(today: Seq<char>) -> Seq<char> {
    "你运行在 Windows 系统上。使用 run_shell 工具时，执行的是 PowerShell 命令，不能使用 Linux/Unix 命令（如 ls -la、grep、cat）。请使用等效的 PowerShell 命令（如 Get-ChildItem、Select-String、Get-Content）。\n当前日期："@
        + today + "。使用 web_search 工具搜索时，请在关键词中加入年份或最新等时间限定词，以获取最新信息。"@
}

/// Lines of the agent's memories: `- key: value`.
pub open spec fn memory_lines(ms: Seq<crate::store::AgentMemoryRecord>) -> Seq<Seq<char>> {
    Seq::new(ms.len(), |i: int| "- "@ + ms[i].memory_key@ + ": "@ + ms[i].memory_value@)
}

/// The chat agent's system prompt: the baseline, the skill's template when
/// given, and a memory section when memories are given and there are any,
/// separated by blank lines.
pub open spec fn system_prompt_text(
    today: Seq<char>,
    skill: Option<Seq<char>>,
    memories: Option<Seq<crate::store::AgentMemoryRecord>>,
) -> Seq<char> {
    let p1 = seq![baseline_prompt(today)];
    let p2 = match skill {
        Some(t) => p1.push(t),
        None => p1,
    };
    let p3 = match memories {
        Some(ms) => if ms.len() > 0 {
            p2.push("## 记忆\n"@ + join(memory_lines(ms), "\n"@))
        } else {
            p2
        },
        None => p2,
    };
    join(p3, "\n\n"@)
}

/// The chat agent's system prompt.
pub fn build_system_prompt(
    today: &str,
    skill_template: Option<&str>,
    memories: Option<&[crate::store::AgentMemoryRecord]>,
) -> (r: String)
    ensures
        r@ == system_prompt_text(
            today@,
            match skill_template {
                Some(t) => Some(t@),
                None => None,
            },
            match memories {
                Some(m) => Some(m@),
                None => None,
            },
        ),
{
    let mut parts: Vec<String> = Vec::new();
    let mut base = chars_of("你运行在 Windows 系统上。使用 run_shell 工具时，执行的是 PowerShell 命令，不能使用 Linux/Unix 命令（如 ls -la、grep、cat）。请使用等效的 PowerShell 命令（如 Get-ChildItem、Select-String、Get-Content）。\n当前日期：");
    extend_str(&mut base, today);
    extend_str(&mut base, "。使用 web_search 工具搜索时，请在关键词中加入年份或最新等时间限定词，以获取最新信息。");
    parts.push(string_of(&base));
    assert(string_views(parts@) =~= seq![baseline_prompt(today@)]);
    if let Some(t) = skill_template {
        let ghost before = string_views(parts@);
        parts.push(String::from_str(t));
        assert(string_views(parts@) =~= before.push(t@));
    }
    if let Some(ms) = memories {
        if ms.len() > 0 {
            let mut lines: Vec<String> = Vec::new();
            let mut i: usize = 0;
            while i < ms.len()
                invariant
                    i <= ms.len(),
                    string_views(lines@) == memory_lines(ms@).take(i as int),
                decreases ms.len() - i,
            {
                let mut l = chars_of("- ");
                extend_str(&mut l, ms[i].memory_key.as_str());
                extend_str(&mut l, ": ");
                extend_str(&mut l, ms[i].memory_value.as_str());
                let ghost before = string_views(lines@);
                assert(l@ == memory_lines(ms@)[i as int]);
                lines.push(string_of(&l));
                assert(string_views(lines@) =~= before.push(l@));
                assert(memory_lines(ms@).take(i + 1) =~= memory_lines(ms@).take(i as int).push(
                    memory_lines(ms@)[i as int],
                ));
                i = i + 1;
            }
            assert(memory_lines(ms@).take(ms.len() as int) =~= memory_lines(ms@));
            let mut sec = chars_of("## 记忆\n");
            extend_chars(&mut sec, &crate::text::join_strings(&lines, "\n"));
            let ghost before = string_views(parts@);
            parts.push(string_of(&sec));
            assert(string_views(parts@) =~= before.push("## 记忆\n"@ + join(memory_lines(ms@), "\n"@)));
        }
    }
    string_of(&crate::text::join_strings(&parts, "\n\n"))
}

// ───────────────────────── MCP ─────────────────────────

/// A configured MCP server: how to launch it.
#[derive(Debug, Clone)]
pub struct McpServerConfig {
    pub name: String,
    pub command: String,
    pub args: Vec<String>,
    pub env: std::collections::HashMap<String, String>,
    pub enabled: bool,
    pub created_at: String,
    pub updated_at: String,
}

/// A tool an MCP server offers.
#[derive(Debug, Clone)]
pub struct McpToolDef {
    pub server_name: String,
    pub tool_name: String,
    pub description: String,
    /// JSON schema of the tool's parameters, as text.
    pub parameters_schema: String,
}

/// The response a line of the server's output carries for request `id`:
/// none for a blank line, a line that is not JSON, or a message with
/// another id (notifications have none).
pub open spec fn response_of(line: Seq<char>, id: u64) -> Option<JsonValue> {
    let t = trim(line);
    if t.len() == 0 {
        None
    } else {
        match spec_parse_json(t) {
            Some(v) => if crate::json::json_get(v, "id"@) == Some(JsonValue::Number(Some(id))) {
                Some(v)
            } else {
                None
            },
            None => None,
        }
    }
}

/// The response for request `id` a line of output carries, if any.
pub fn response_for(line: &str, id: u64) -> (r: Option<JsonValue>)
    ensures
        r == response_of(line@, id),
{
    let t = crate::text::trim_str(line);
    if t.len() == 0 {
        return None;
    }
    let ts = string_of(&t);
    match parse_json(ts.as_str()) {
        Some(v) => {
            let matches = match crate::json::get(&v, "id") {
                Some(JsonValue::Number(Some(n))) => *n == id,
                _ => false,
            };
            if matches {
                Some(v)
            } else {
                None
            }
        },
        None => None,
    }
}

/// The text pieces of a tool result's `content` items of type `text`.
pub open spec fn text_parts(items: Seq<JsonValue>) -> Seq<Seq<char>>
    decreases items.len(),
{
    if items.len() == 0 {
        seq![]
    } else {
        text_parts(items.drop_last()) + if str_member(items.last(), "type"@) == Some("text"@) {
            match str_member(items.last(), "text"@) {
                Some(t) => seq![t],
                None => Seq::<Seq<char>>::empty(),
            }
        } else {
            Seq::<Seq<char>>::empty()
        }
    }
}

/// What a tool call answers: its text pieces joined by line breaks, as an
/// error when the result says `isError`; `None` when it has no text piece
/// (the caller then shows the whole result).
pub open spec fn tool_call_answer(result: JsonValue) -> Option<Result<Seq<char>, Seq<char>>> {
    match crate::json::json_get(result, "content"@) {
        Some(JsonValue::Array(items)) => {
            let parts = text_parts(items@);
            if parts.len() == 0 {
                None
            } else if crate::json::bool_member(result, "isError"@) == Some(true) {
                Some(Err(join(parts, "\n"@)))
            } else {
                Some(Ok(join(parts, "\n"@)))
            }
        },
        _ => None,
    }
}

/// What a tool call answers, when its result has text pieces.
pub fn tool_call_text(result: &JsonValue) -> (r: Option<Result<String, String>>)
    ensures
        match tool_call_answer(*result) {
            None => r is None,
            Some(Ok(t)) => r matches Some(Ok(s)) && s@ == t,
            Some(Err(t)) => r matches Some(Err(s)) && s@ == t,
        },
{
    let items = match crate::json::get(result, "content") {
        Some(JsonValue::Array(items)) => items,
        _ => return None,
    };
    let mut parts: Vec<String> = Vec::new();
    let mut i: usize = 0;
    while i < items.len()
        invariant
            i <= items.len(),
            string_views(parts@) == text_parts(items@.take(i as int)),
        decreases items.len() - i,
    {
        assert(items@.take(i + 1).drop_last() =~= items@.take(i as int));
        let ghost before = string_views(parts@);
        let is_text = match get_str(&items[i], "type") {
            Some(t) => str_eq_chars("text", &chars_of(t.as_str())),
            None => false,
        };
        if is_text {
            match get_str(&items[i], "text") {
                Some(t) => {
                    parts.push(String::from_str(t.as_str()));
                    assert(string_views(parts@) =~= before.push(t@));
                },
                None => {},
            }
        }
        assert(string_views(parts@) =~= text_parts(items@.take(i + 1)));
        i = i + 1;
    }
    assert(items@.take(items.len() as int) =~= items@);
    if parts.len() == 0 {
        return None;
    }
    let text = string_of(&crate::text::join_strings(&parts, "\n"));
    match crate::json::get_bool(result, "isError") {
        Some(true) => Some(Err(text)),
        _ => Some(Ok(text)),
    }
}

/// Schema text given to a tool that declares no `inputSchema`.
pub open spec fn default_tool_schema() -> Seq<char> {
    "{\"type\":\"object\",\"properties\":{}}"@
}

/// The schema text of the `i`-th tool: the serialized `inputSchema` handed
/// in for it, `{}` when none was, and the default when it declares none.
pub open spec fn tool_schema_text(t: JsonValue, schemas: Seq<Option<String>>, i: int) -> Seq<char> {
    if crate::json::json_get(t, "inputSchema"@) is None {
        default_tool_schema()
    } else if 0 <= i < schemas.len() && schemas[i] is Some {
        schemas[i]->0@
    } else {
        "{}"@
    }
}

/// Name, description and schema text of the tools among the first `n`
/// entries of a `tools/list` answer; an entry without a string `name` is
/// skipped, a missing description reads as empty.
pub open spec fn tool_rows(items: Seq<JsonValue>, schemas: Seq<Option<String>>, n: int) -> Seq<
    (Seq<char>, Seq<char>, Seq<char>),
>
    decreases n,
{
    if n <= 0 || n > items.len() {
        seq![]
    } else {
        let t = items[n - 1];
        tool_rows(items, schemas, n - 1) + match str_member(t, "name"@) {
            Some(name) => seq![
                (
                    name,
                    match str_member(t, "description"@) {
                        Some(d) => d,
                        None => Seq::<char>::empty(),
                    },
                    tool_schema_text(t, schemas, n - 1),
                ),
            ],
            None => Seq::<(Seq<char>, Seq<char>, Seq<char>)>::empty(),
        }
    }
}

/// The error a `tools/list` answer without a `tools` array gives.
pub open spec fn tool_list_error() -> Seq<char> {
    "MCP tools/list 响应格式异常"@
}

/// Whether `defs` are the tools of server `server_name` that `rows` lists, in order.
pub open spec fn defs_match(defs: Seq<McpToolDef>, server_name: Seq<char>, rows: Seq<(Seq<char>, Seq<char>, Seq<char>)>) -> bool {
    &&& defs.len() == rows.len()
    &&& forall|k: int| #![trigger defs[k]] 0 <= k < defs.len() ==> {
        &&& defs[k].server_name@ == server_name
        &&& defs[k].tool_name@ == rows[k].0
        &&& defs[k].description@ == rows[k].1
        &&& defs[k].parameters_schema@ == rows[k].2
    }
}

/// The tools a `tools/list` result offers. `schemas[i]` is the `inputSchema`
/// of the `i`-th entry serialized by `serde_json` (the caller holds the raw
/// value); it is read only where the entry declares a schema.
pub fn tool_defs(server_name: &str, result: &JsonValue, schemas: &Vec<Option<String>>) -> (r: Result<Vec<McpToolDef>, String>)
    ensures
        match crate::json::json_get(*result, "tools"@) {
            Some(JsonValue::Array(items)) => r matches Ok(defs) && defs_match(defs@, server_name@, tool_rows(items@, schemas@, items@.len() as int)),
            _ => r matches Err(e) && e@ == tool_list_error(),
        },
{
    let items = match crate::json::get(result, "tools") {
        Some(JsonValue::Array(items)) => items,
        _ => return Err(String::from_str("MCP tools/list 响应格式异常")),
    };
    let mut defs: Vec<McpToolDef> = Vec::new();
    let mut i: usize = 0;
    while i < items.len()
        invariant
            i <= items.len(),
            defs_match(defs@, server_name@, tool_rows(items@, schemas@, i as int)),
        decreases items.len() - i,
    {
        let t = &items[i];
        if let Some(name) = get_str(t, "name") {
            let description = match get_str(t, "description") {
                Some(d) => String::from_str(d.as_str()),
                None => String::new(),
            };
            let parameters_schema = match crate::json::get(t, "inputSchema") {
                None => String::from_str("{\"type\":\"object\",\"properties\":{}}"),
                Some(_) => {
                    if i < schemas.len() {
                        match &schemas[i] {
                            Some(s) => String::from_str(s.as_str()),
                            None => String::from_str("{}"),
                        }
                    } else {
                        String::from_str("{}")
                    }
                },
            };
            let ghost before = defs@;
            defs.push(
                McpToolDef {
                    server_name: String::from_str(server_name),
                    tool_name: String::from_str(name.as_str()),
                    description,
                    parameters_schema,
                },
            );
            assert(defs_match(defs@, server_name@, tool_rows(items@, schemas@, i + 1))) by {
                assert forall|k: int| 0 <= k < before.len() implies defs@[k] == before[k] by {}
            }
        } else {
            assert(tool_rows(items@, schemas@, i + 1) =~= tool_rows(items@, schemas@, i as int));
        }
        i = i + 1;
    }
    Ok(defs)
}

} // verus!
