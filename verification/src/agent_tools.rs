//! The agent's per-round decision, read from the planner's JSON reply.
use crate::json::{
    bool_member, first_of_array_member, get, get_bool, get_first_of_array, get_str, get_u64,
    json_as_str, json_get, parse_json, parse_json_text, spec_parse_json, str_member, u64_member, JsonValue,
};
use crate::text::{chars_of, find_from, occurs_at, slice_chars, string_of, trim, trim_chars, trim_str};
use vstd::prelude::*;

verus! {

broadcast use vstd::string::group_string_axioms;

/// One round of the agent loop as the planner decided it.
pub struct AgentLoopDecision {
    pub done: bool,
    pub final_answer: Option<String>,
    pub note: Option<String>,
    pub action: Option<AgentToolAction>,
}

/// The tool actions the agent may request.
pub enum AgentToolAction {
    RunShell { command: String, timeout_ms: u64 },
    SearchWiki { query: String, limit: usize },
    ReadWiki { path: String, max_chars: usize },
    WriteWiki { path: String, content: String },
}

/// A string trimmed, kept only when something is left.
pub open spec fn nonblank(o: Option<Seq<char>>) -> Option<Seq<char>> {
    match o {
        Some(s) => if trim(s).len() > 0 {
            Some(trim(s))
        } else {
            None
        },
        None => None,
    }
}

/// `get(primary).or_else(|| get(fallback)).and_then(as_str)`.
pub open spec fn str_member_or(v: JsonValue, primary: Seq<char>, fallback: Seq<char>) -> Option<
    Seq<char>,
> {
    match json_get(v, primary) {
        Some(x) => json_as_str(x),
        None => str_member(v, fallback),
    }
}

pub open spec fn clamp(x: int, lo: int, hi: int) -> int {
    if x < lo {
        lo
    } else if x > hi {
        hi
    } else {
        x
    }
}

/// Numeric member of an object, read as `usize` (`as usize`), with a default.
pub open spec fn usize_member_or(v: JsonValue, key: Seq<char>, default: int) -> int {
    match u64_member(v, key) {
        Some(n) => (n as usize) as int,
        None => default,
    }
}

/// The tool action an item of the planner's reply asks for, if any.
pub open spec fn action_of(item: JsonValue, a: Option<AgentToolAction>) -> bool {
    match str_member(item, "tool"@) {
        None => a is None,
        Some(t) => {
            let tool = trim(t);
            if tool == "run_shell"@ {
                match nonblank(str_member(item, "command"@)) {
                    None => a is None,
                    Some(c) => match a {
                        Some(AgentToolAction::RunShell { command, timeout_ms }) => command@ == c
                            && timeout_ms == clamp(
                            match u64_member(item, "timeout_ms"@) {
                                Some(n) => n as int,
                                None => 30000,
                            },
                            3000,
                            120000,
                        ),
                        _ => false,
                    },
                }
            } else if tool == "search_wiki"@ {
                match nonblank(str_member(item, "query"@)) {
                    None => a is None,
                    Some(q) => match a {
                        Some(AgentToolAction::SearchWiki { query, limit }) => query@ == q && limit
                            == clamp(usize_member_or(item, "limit"@, 5), 1, 8),
                        _ => false,
                    },
                }
            } else if tool == "read_wiki"@ {
                match nonblank(str_member_or(item, "path"@, "page_path"@)) {
                    None => a is None,
                    Some(p) => match a {
                        Some(AgentToolAction::ReadWiki { path, max_chars }) => path@ == p
                            && max_chars == clamp(usize_member_or(item, "max_chars"@, 1200), 200, 5000),
                        _ => false,
                    },
                }
            } else if tool == "write_wiki"@ {
                match (
                    nonblank(str_member_or(item, "path"@, "page_path"@)),
                    nonblank(str_member(item, "content"@)),
                ) {
                    (Some(p), Some(c)) => match a {
                        Some(AgentToolAction::WriteWiki { path, content }) => path@ == p
                            && content@ == c,
                        _ => false,
                    },
                    _ => a is None,
                }
            } else {
                a is None
            }
        },
    }
}

/// How a `write_wiki` or `read_wiki` item names its page: by `path`, or by
/// `page_path` when the item has no `path`. A `write_wiki` item naming a
/// page by `page_path` alone, with content, asks to write that page (both
/// trimmed); with a `path` as well, the `path` wins.
pub proof fn lemma_wiki_items_read_page_path(
    item: JsonValue,
    a: Option<AgentToolAction>,
    t: Seq<char>,
    p: Seq<char>,
    c: Seq<char>,
)
    requires
        action_of(item, a),
        str_member(item, "tool"@) == Some(t),
        trim(p).len() > 0,
        crate::json::json_get(item, "path"@) is None,
        str_member(item, "page_path"@) == Some(p),
    ensures
        trim(t) == "write_wiki"@ && str_member(item, "content"@) == Some(c) && trim(c).len() > 0 ==> (a matches Some(
            AgentToolAction::WriteWiki { path, content },
        ) && path@ == trim(p) && content@ == trim(c)),
        trim(t) == "read_wiki"@ ==> (a matches Some(AgentToolAction::ReadWiki { path, .. }) && path@ == trim(p)),
{
    reveal_strlit("write_wiki");
    reveal_strlit("read_wiki");
    reveal_strlit("run_shell");
    reveal_strlit("search_wiki");
    assert(str_member_or(item, "path"@, "page_path"@) == Some(p));
    assert(nonblank(Some(p)) == Some(trim(p)));
    assert("read_wiki"@ != "run_shell"@) by {
        assert("read_wiki"@[1] != "run_shell"@[1]);
    }
    assert("write_wiki"@.len() == 10 && "run_shell"@.len() == 9 && "search_wiki"@.len() == 11
        && "read_wiki"@.len() == 9);
    if trim(t) == "write_wiki"@ && str_member(item, "content"@) == Some(c) && trim(c).len() > 0 {
        assert(nonblank(str_member(item, "content"@)) == Some(trim(c)));
    }
}

/// A `write_wiki` item with both `path` and `page_path` writes the page its
/// `path` names.
pub proof fn lemma_write_wiki_path_wins(
    item: JsonValue,
    a: Option<AgentToolAction>,
    t: Seq<char>,
    p: Seq<char>,
    c: Seq<char>,
)
    requires
        action_of(item, a),
        str_member(item, "tool"@) == Some(t),
        trim(t) == "write_wiki"@,
        str_member(item, "path"@) == Some(p),
        trim(p).len() > 0,
        str_member(item, "content"@) == Some(c),
        trim(c).len() > 0,
    ensures
        a matches Some(AgentToolAction::WriteWiki { path, content }) && path@ == trim(p) && content@ == trim(c),
{
    reveal_strlit("write_wiki");
    reveal_strlit("read_wiki");
    reveal_strlit("run_shell");
    reveal_strlit("search_wiki");
    let x = crate::json::json_get(item, "path"@)->0;
    assert(crate::json::json_get(item, "path"@) == Some(x));
    assert(str_member_or(item, "path"@, "page_path"@) == Some(p));
    assert(nonblank(Some(p)) == Some(trim(p)));
    assert(nonblank(str_member(item, "content"@)) == Some(trim(c)));
    assert("write_wiki"@.len() == 10 && "run_shell"@.len() == 9 && "search_wiki"@.len() == 11
        && "read_wiki"@.len() == 9);
}

/// The decision a parsed planner reply stands for.
pub open spec fn decision_of(json: JsonValue, d: AgentLoopDecision) -> bool {
    &&& d.done == match bool_member(json, "done"@) {
        Some(b) => b,
        None => false,
    }
    &&& opt_view(d.final_answer) == str_member_or(json, "final"@, "answer"@)
    &&& opt_view(d.note) == str_member_or(json, "note"@, "notes"@)
    &&& if (match json_get(json, "action"@) {
        Some(item) => !action_of(item, None),
        None => false,
    }) {
        action_of(json_get(json, "action"@)->0, d.action)
    } else {
        match first_of_array_member(json, "actions"@) {
            Some(item) => action_of(item, d.action),
            None => d.action is None,
        }
    }
}

/// View of an optional string.
pub open spec fn opt_view(o: Option<String>) -> Option<Seq<char>> {
    match o {
        Some(s) => Some(s@),
        None => None,
    }
}

fn nonblank_exec(o: Option<&String>) -> (r: Option<String>)
    ensures
        opt_view(r) == nonblank(
            match o {
                Some(s) => Some(s@),
                None => None,
            },
        ),
{
    match o {
        Some(s) => {
            let t = trim_str(s.as_str());
            if t.len() > 0 {
                Some(string_of(&t))
            } else {
                None
            }
        },
        None => None,
    }
}

fn get_str_or<'a>(v: &'a JsonValue, primary: &str, fallback: &str) -> (r: Option<&'a String>)
    ensures
        match r {
            Some(s) => str_member_or(*v, primary@, fallback@) == Some(s@),
            None => str_member_or(*v, primary@, fallback@) is None,
        },
{
    match get(v, primary) {
        Some(x) => crate::json::as_str(x),
        None => get_str(v, fallback),
    }
}

fn clamp_u64(x: u64, lo: u64, hi: u64) -> (r: u64)
    requires
        lo <= hi,
    ensures
        r == clamp(x as int, lo as int, hi as int),
{
    if x < lo {
        lo
    } else if x > hi {
        hi
    } else {
        x
    }
}

fn clamp_usize(x: usize, lo: usize, hi: usize) -> (r: usize)
    requires
        lo <= hi,
    ensures
        r == clamp(x as int, lo as int, hi as int),
{
    if x < lo {
        lo
    } else if x > hi {
        hi
    } else {
        x
    }
}

fn usize_or(v: &JsonValue, key: &str, default: usize) -> (r: usize)
    ensures
        r == usize_member_or(*v, key@, default as int),
{
    match get_u64(v, key) {
        Some(n) => n as usize,
        None => default,
    }
}

fn text_is(s: &[char], lit: &str) -> (r: bool)
    ensures
        r == (s@ == lit@),
{
    let l = chars_of(lit);
    crate::text::chars_eq(s, &l)
}

/// Reads one tool action from an item of the planner's reply.
pub fn parse_agent_tool_action(item: &JsonValue) -> (r: Option<AgentToolAction>)
    ensures
        action_of(*item, r),
{
    let tool_raw = match get_str(item, "tool") {
        Some(t) => t,
        None => return None,
    };
    let tool = trim_str(tool_raw.as_str());
    if text_is(&tool, "run_shell") {
        let command = match nonblank_exec(get_str(item, "command")) {
            Some(c) => c,
            None => return None,
        };
        let t = match get_u64(item, "timeout_ms") {
            Some(n) => n,
            None => 30000,
        };
        let timeout_ms = clamp_u64(t, 3000, 120000);
        Some(AgentToolAction::RunShell { command, timeout_ms })
    } else if text_is(&tool, "search_wiki") {
        let query = match nonblank_exec(get_str(item, "query")) {
            Some(c) => c,
            None => return None,
        };
        let limit = clamp_usize(usize_or(item, "limit", 5), 1, 8);
        Some(AgentToolAction::SearchWiki { query, limit })
    } else if text_is(&tool, "read_wiki") {
        let path = match nonblank_exec(get_str_or(item, "path", "page_path")) {
            Some(c) => c,
            None => return None,
        };
        let max_chars = clamp_usize(usize_or(item, "max_chars", 1200), 200, 5000);
        Some(AgentToolAction::ReadWiki { path, max_chars })
    } else if text_is(&tool, "write_wiki") {
        let path = match nonblank_exec(get_str_or(item, "path", "page_path")) {
            Some(c) => c,
            None => return None,
        };
        let content = match nonblank_exec(get_str(item, "content")) {
            Some(c) => c,
            None => return None,
        };
        Some(AgentToolAction::WriteWiki { path, content })
    } else {
        None
    }
}

fn clone_opt(o: Option<&String>) -> (r: Option<String>)
    ensures
        opt_view(r) == match o {
            Some(s) => Some(s@),
            None => None,
        },
{
    match o {
        Some(s) => Some(s.clone()),
        None => None,
    }
}

/// The decision a parsed planner reply stands for: `done` (default false),
/// the final answer (`final`, else `answer`), the note (`note`, else `notes`)
/// and the action (`action`, else the first of `actions`).
pub fn decision_from_json(json: &JsonValue) -> (r: AgentLoopDecision)
    ensures
        decision_of(*json, r),
{
    let done = match get_bool(json, "done") {
        Some(b) => b,
        None => false,
    };
    let final_answer = clone_opt(get_str_or(json, "final", "answer"));
    let note = clone_opt(get_str_or(json, "note", "notes"));
    let mut action = match get(json, "action") {
        Some(item) => parse_agent_tool_action(item),
        None => None,
    };
    if action.is_none() {
        action = match get_first_of_array(json, "actions") {
            Some(item) => parse_agent_tool_action(item),
            None => None,
        };
    }
    AgentLoopDecision { done, final_answer, note, action }
}

/// The JSON document a planner reply holds: the whole reply trimmed if it
/// parses, else the span from its first `{` to its last `}`.
pub open spec fn reply_json(raw: Seq<char>) -> Option<JsonValue> {
    let t = trim(raw);
    match spec_parse_json(t) {
        Some(v) => Some(v),
        None => {
            let has_open = exists|i: int| 0 <= i < t.len() && t[i] == '{';
            let has_close = exists|i: int| 0 <= i < t.len() && t[i] == '}';
            if has_open && has_close {
                let start = choose|i: int|
                    0 <= i < t.len() && t[i] == '{' && forall|j: int| 0 <= j < i ==> t[j] != '{';
                let end = choose|i: int|
                    0 <= i < t.len() && t[i] == '}' && forall|j: int|
                        i < j < t.len() ==> t[j] != '}';
                if end <= start {
                    None
                } else {
                    spec_parse_json(t.subrange(start, end + 1))
                }
            } else {
                None
            }
        },
    }
}

/// First position of `c`.
fn find_char(s: &[char], c: char) -> (r: Option<usize>)
    ensures
        match r {
            Some(i) => i < s.len() && s@[i as int] == c && forall|j: int| 0 <= j < i ==> s@[j] != c,
            None => forall|j: int| 0 <= j < s.len() ==> s@[j] != c,
        },
{
    let mut i: usize = 0;
    while i < s.len()
        invariant
            i <= s.len(),
            forall|j: int| 0 <= j < i ==> s@[j] != c,
        decreases s.len() - i,
    {
        if s[i] == c {
            return Some(i);
        }
        i = i + 1;
    }
    None
}

/// Last position of `c`.
fn rfind_char(s: &[char], c: char) -> (r: Option<usize>)
    ensures
        match r {
            Some(i) => i < s.len() && s@[i as int] == c && forall|j: int|
                i < j < s.len() ==> s@[j] != c,
            None => forall|j: int| 0 <= j < s.len() ==> s@[j] != c,
        },
{
    let mut n: usize = s.len();
    while n > 0
        invariant
            n <= s.len(),
            forall|j: int| n <= j < s.len() ==> s@[j] != c,
        decreases n,
    {
        if s[n - 1] == c {
            return Some(n - 1);
        }
        n = n - 1;
    }
    None
}

/// Reads the JSON document out of a planner reply.
pub fn parse_json_object(raw: &str) -> (r: Option<JsonValue>)
    ensures
        r == reply_json(raw@),
{
    let t = trim_str(raw);
    let ts = string_of(&t);
    let first = parse_json(ts.as_str());
    if first.is_some() {
        return first;
    }
    let start = match find_char(&t, '{') {
        Some(i) => i,
        None => return None,
    };
    let end = match rfind_char(&t, '}') {
        Some(i) => i,
        None => return None,
    };
    proof {
        let tt = trim(raw@);
        let s0 = choose|i: int|
            0 <= i < tt.len() && tt[i] == '{' && forall|j: int| 0 <= j < i ==> tt[j] != '{';
        let e0 = choose|i: int|
            0 <= i < tt.len() && tt[i] == '}' && forall|j: int| i < j < tt.len() ==> tt[j] != '}';
        assert(0 <= start < tt.len() && tt[start as int] == '{' && forall|j: int|
            0 <= j < start ==> tt[j] != '{');
        assert(0 <= end < tt.len() && tt[end as int] == '}' && forall|j: int|
            end < j < tt.len() ==> tt[j] != '}');
        assert(s0 == start);
        assert(e0 == end);
    }
    if end <= start {
        return None;
    }
    let inner = slice_chars(&t, start, end + 1);
    let is = string_of(&inner);
    parse_json(is.as_str())
}

/// Parses one round's decision from the planner's reply (best effort);
/// `None` when no JSON document can be read from it.
pub fn parse_agent_loop_decision(raw: &str) -> (r: Option<AgentLoopDecision>)
    ensures
        match reply_json(raw@) {
            Some(json) => r is Some && decision_of(json, r->0),
            None => r is None,
        },
{
    match parse_json_object(raw) {
        Some(json) => Some(decision_from_json(&json)),
        None => None,
    }
}

/// Arguments of a tool call: a string member, trimmed, when not blank.
pub fn str_arg(args: &JsonValue, key: &str) -> (r: Option<String>)
    ensures
        opt_view(r) == nonblank(str_member(*args, key@)),
{
    nonblank_exec(get_str(args, key))
}

/// A skill downloaded as JSON: its `name` and `system_prompt`, trimmed.
pub open spec fn skill_fields(v: JsonValue) -> Result<(Seq<char>, Seq<char>), Seq<char>> {
    match nonblank(str_member(v, "name"@)) {
        None => Err("Skill JSON 缺少有效的 'name' 字段"@),
        Some(name) => match nonblank(str_member(v, "system_prompt"@)) {
            None => Err("Skill JSON 缺少有效的 'system_prompt' 字段"@),
            Some(prompt) => Ok((name, prompt)),
        },
    }
}

/// Reads a skill definition: a JSON object whose `name` and
/// `system_prompt` members are non-blank strings. A text that is not JSON
/// gives `JSON 解析失败: ` and the parser's message.
pub fn parse_skill_json(text: &str) -> (r: Result<(String, String), String>)
    ensures
        match spec_parse_json(text@) {
            None => r matches Err(m) && m@.take(11) == "JSON 解析失败: "@,
            Some(v) => match skill_fields(v) {
                Ok((name, prompt)) => r matches Ok(p) && p.0@ == name && p.1@ == prompt,
                Err(m) => r matches Err(e) && e@ == m,
            },
        },
{
    let v = match parse_json_text(text) {
        Ok(v) => v,
        Err(e) => {
            let mut m = chars_of("JSON 解析失败: ");
            crate::text::extend_str(&mut m, e.as_str());
            proof {
                reveal_strlit("JSON 解析失败: ");
                assert(m@.take(11) =~= "JSON 解析失败: "@);
            }
            return Err(string_of(&m));
        },
    };
    let name = match str_arg(&v, "name") {
        Some(n) => n,
        None => {
            return Err(String::from_str("Skill JSON 缺少有效的 'name' 字段"));
        },
    };
    let prompt = match str_arg(&v, "system_prompt") {
        Some(p) => p,
        None => {
            return Err(String::from_str("Skill JSON 缺少有效的 'system_prompt' 字段"));
        },
    };
    Ok((name, prompt))
}

} // verus!
