//! What the task agent logs for each tool it ran: level, log line, and for
//! writes the pending change that waits for approval.
use crate::agent_chat::{dec_int, extend_dec_i64};
use crate::models::ShellResult;
use crate::text::{
    chars_of, dec, extend_chars, extend_dec, extend_str, join, join_strings, string_of,
    string_views, take_chars, take_chars_exec, trim, trim_str,
};
use vstd::prelude::*;
use vstd::string::StringExecFns;

verus! {

broadcast use vstd::string::group_string_axioms;

/// Outcome of a tool action as the agent loop records it.
#[derive(Debug, Clone)]
pub struct ToolActionResult {
    /// `info` or `warn`.
    pub level: String,
    pub log_line: String,
    /// Whether the action waits for the user's approval.
    pub requires_approval: bool,
    /// Resolved path and content of a write waiting for approval.
    pub pending_write: Option<(String, String)>,
}

/// The first `max` characters of a text.
pub fn truncate_chars(content: &str, max: usize) -> (r: String)
    ensures
        r@ == take_chars(content@, max as nat),
{
    let c = chars_of(content);
    string_of(&take_chars_exec(&c, max))
}

/// A logged result that needs no approval.
pub fn make_result(level: &str, line: String) -> (r: ToolActionResult)
    ensures
        r.level@ == level@,
        r.log_line@ == line@,
        !r.requires_approval,
        r.pending_write is None,
{
    ToolActionResult {
        level: String::from_str(level),
        log_line: line,
        requires_approval: false,
        pending_write: None,
    }
}

/// `true` or `false`.
pub open spec fn bool_text(b: bool) -> Seq<char> {
    if b {
        "true"@
    } else {
        "false"@
    }
}

fn extend_bool(v: &mut Vec<char>, b: bool)
    ensures
        final(v)@ == old(v)@ + bool_text(b),
{
    if b {
        extend_str(v, "true");
    } else {
        extend_str(v, "false");
    }
}

/// Prefix of a tool's log line: its 1-based position and name.
pub open spec fn tool_tag(idx: u32, tool: Seq<char>) -> Seq<char> {
    "[tool#"@ + dec((idx + 1) as nat) + "/"@ + tool + "]"@
}

fn tool_tag_exec(idx: u32, tool: &str) -> (r: Vec<char>)
    requires
        idx < u32::MAX,
    ensures
        r@ == tool_tag(idx, tool@),
{
    let mut v = chars_of("[tool#");
    extend_dec(&mut v, idx as u64 + 1);
    extend_str(&mut v, "/");
    extend_str(&mut v, tool);
    extend_str(&mut v, "]");
    v
}

/// What a shell run reports as its output: the block reason, else its
/// trimmed stdout (or stderr when stdout is blank), else its exit code.
pub open spec fn shell_report(r: ShellResult) -> Seq<char> {
    if r.blocked {
        "blocked: "@ + match r.blocked_reason {
            Some(s) => s@,
            None => "unknown"@,
        }
    } else {
        let out = if trim(r.stdout@).len() > 0 {
            trim(r.stdout@)
        } else {
            trim(r.stderr@)
        };
        if out.len() > 0 {
            out
        } else {
            "(exit "@ + dec_int(r.exit_code as int) + ")"@
        }
    }
}

/// Log of a shell action: a warning when blocked, failed or not run.
pub open spec fn shell_log(idx: u32, command: Seq<char>, outcome: Result<ShellResult, String>) -> (Seq<char>, Seq<char>) {
    match outcome {
        Ok(r) => (
            if r.blocked || r.exit_code != 0 {
                "warn"@
            } else {
                "info"@
            },
            tool_tag(idx, "run_shell"@) + " cmd=`"@ + command + "` action="@ + r.policy_action@
                + " decision="@ + r.policy_decision@ + " exit="@ + dec_int(r.exit_code as int)
                + " blocked="@ + bool_text(r.blocked) + " output="@ + take_chars(shell_report(r), 320),
        ),
        Err(e) => ("warn"@, tool_tag(idx, "run_shell"@) + " cmd=`"@ + command + "` error="@ + e@),
    }
}

/// Logged result of a shell action.
pub fn shell_action_result(idx: u32, command: &str, outcome: Result<ShellResult, String>) -> (r: ToolActionResult)
    requires
        idx < u32::MAX,
    ensures
        (r.level@, r.log_line@) == shell_log(idx, command@, outcome),
        !r.requires_approval,
        r.pending_write is None,
{
    let ghost o = outcome;
    let mut line = tool_tag_exec(idx, "run_shell");
    extend_str(&mut line, " cmd=`");
    extend_str(&mut line, command);
    match outcome {
        Ok(res) => {
            let mut content: Vec<char> = Vec::new();
            if res.blocked {
                extend_str(&mut content, "blocked: ");
                match &res.blocked_reason {
                    Some(s) => extend_str(&mut content, s.as_str()),
                    None => extend_str(&mut content, "unknown"),
                }
            } else {
                let so = trim_str(res.stdout.as_str());
                let out = if so.len() > 0 {
                    so
                } else {
                    trim_str(res.stderr.as_str())
                };
                extend_chars(&mut content, &out);
                if content.len() == 0 {
                    extend_str(&mut content, "(exit ");
                    extend_dec_i64(&mut content, res.exit_code as i64);
                    extend_str(&mut content, ")");
                }
            }
            assert(content@ == shell_report(res));
            extend_str(&mut line, "` action=");
            extend_str(&mut line, res.policy_action.as_str());
            extend_str(&mut line, " decision=");
            extend_str(&mut line, res.policy_decision.as_str());
            extend_str(&mut line, " exit=");
            extend_dec_i64(&mut line, res.exit_code as i64);
            extend_str(&mut line, " blocked=");
            extend_bool(&mut line, res.blocked);
            extend_str(&mut line, " output=");
            extend_chars(&mut line, &take_chars_exec(&content, 320));
            let level = if res.blocked || res.exit_code != 0 {
                "warn"
            } else {
                "info"
            };
            make_result(level, string_of(&line))
        },
        Err(e) => {
            extend_str(&mut line, "` error=");
            extend_str(&mut line, e.as_str());
            make_result("warn", string_of(&line))
        },
    }
}

/// Text an agent reads of a page: its path, the number of characters
/// kept, and the first `max_chars` characters.
pub fn read_page_text(path: &str, content: &str, max_chars: usize) -> (r: String)
    ensures
        r@ == "path="@ + path@ + " chars="@ + dec(take_chars(content@, max_chars as nat).len())
            + " content="@ + take_chars(content@, max_chars as nat),
{
    let preview = take_chars_exec(&chars_of(content), max_chars);
    let mut v = chars_of("path=");
    extend_str(&mut v, path);
    extend_str(&mut v, " chars=");
    extend_dec(&mut v, preview.len() as u64);
    extend_str(&mut v, " content=");
    extend_chars(&mut v, &preview);
    string_of(&v)
}

/// Logged result of a page read.
pub fn read_action_result(idx: u32, path: &str, max_chars: usize, outcome: Result<String, String>) -> (r: ToolActionResult)
    requires
        idx < u32::MAX,
    ensures
        match outcome {
            Ok(c) => r.level@ == "info"@ && r.log_line@ == tool_tag(idx, "read_wiki"@) + " path=`"@
                + path@ + "` max_chars="@ + dec(max_chars as nat) + " output="@ + take_chars(c@, 320),
            Err(e) => r.level@ == "warn"@ && r.log_line@ == tool_tag(idx, "read_wiki"@) + " path=`"@
                + path@ + "` max_chars="@ + dec(max_chars as nat) + " error="@ + e@,
        },
        !r.requires_approval,
        r.pending_write is None,
{
    let mut line = tool_tag_exec(idx, "read_wiki");
    extend_str(&mut line, " path=`");
    extend_str(&mut line, path);
    extend_str(&mut line, "` max_chars=");
    extend_dec(&mut line, max_chars as u64);
    match outcome {
        Ok(c) => {
            extend_str(&mut line, " output=");
            extend_chars(&mut line, &take_chars_exec(&chars_of(c.as_str()), 320));
            make_result("info", string_of(&line))
        },
        Err(e) => {
            extend_str(&mut line, " error=");
            extend_str(&mut line, e.as_str());
            make_result("warn", string_of(&line))
        },
    }
}

/// Logged result of a write request: a warning that waits for approval
/// with the resolved path and content, or the reason the path was refused.
pub fn write_action_result(idx: u32, path: &str, content: String, resolved: Result<String, String>) -> (r: ToolActionResult)
    requires
        idx < u32::MAX,
    ensures
        r.level@ == "warn"@,
        match resolved {
            Ok(p) => {
                &&& r.log_line@ == tool_tag(idx, "write_wiki"@) + " path=`"@ + path@ + "` resolved=`"@
                    + p@ + "` chars="@ + dec(content@.len()) + " decision=require_approval preview="@
                    + take_chars(content@, 200)
                &&& r.requires_approval
                &&& r.pending_write matches Some((a, b)) && a@ == p@ && b@ == content@
            },
            Err(e) => {
                &&& r.log_line@ == tool_tag(idx, "write_wiki"@) + " path=`"@ + path@ + "` chars="@
                    + dec(content@.len()) + " error="@ + e@
                &&& !r.requires_approval
                &&& r.pending_write is None
            },
        },
{
    let cc = chars_of(content.as_str());
    let preview = take_chars_exec(&cc, 200);
    let mut line = tool_tag_exec(idx, "write_wiki");
    extend_str(&mut line, " path=`");
    extend_str(&mut line, path);
    match resolved {
        Err(e) => {
            extend_str(&mut line, "` chars=");
            extend_dec(&mut line, cc.len() as u64);
            extend_str(&mut line, " error=");
            extend_str(&mut line, e.as_str());
            make_result("warn", string_of(&line))
        },
        Ok(p) => {
            extend_str(&mut line, "` resolved=`");
            extend_str(&mut line, p.as_str());
            extend_str(&mut line, "` chars=");
            extend_dec(&mut line, cc.len() as u64);
            extend_str(&mut line, " decision=require_approval preview=");
            extend_chars(&mut line, &preview);
            ToolActionResult {
                level: String::from_str("warn"),
                log_line: string_of(&line),
                requires_approval: true,
                pending_write: Some((p, content)),
            }
        },
    }
}

/// Line of a search hit: path, title, score (as already formatted) and the
/// first 80 characters of the summary.
pub fn search_hit_line(path: &str, title: &str, score: &str, summary: &str) -> (r: String)
    ensures
        r@ == path@ + " | "@ + title@ + " | score="@ + score@ + " | "@ + take_chars(summary@, 80),
{
    let mut v = chars_of(path);
    extend_str(&mut v, " | ");
    extend_str(&mut v, title);
    extend_str(&mut v, " | score=");
    extend_str(&mut v, score);
    extend_str(&mut v, " | ");
    extend_chars(&mut v, &take_chars_exec(&chars_of(summary), 80));
    string_of(&v)
}

/// Logged result of a wiki search: the first `limit` hit lines joined by
/// ` ; ` (or `(no hits)`), with the number of hits.
pub fn search_action_result(idx: u32, query: &str, limit: usize, outcome: Result<Vec<String>, String>) -> (r: ToolActionResult)
    requires
        idx < u32::MAX,
    ensures
        match outcome {
            Ok(lines) => {
                let shown = string_views(lines@).take(
                    if lines.len() < limit {
                        lines.len() as int
                    } else {
                        limit as int
                    },
                );
                r.level@ == "info"@ && r.log_line@ == tool_tag(idx, "search_wiki"@) + " query=`"@
                    + query@ + "` limit="@ + dec(limit as nat) + " hits="@ + dec(lines.len() as nat)
                    + " output="@ + if shown.len() == 0 {
                    "(no hits)"@
                } else {
                    join(shown, " ; "@)
                }
            },
            Err(e) => r.level@ == "warn"@ && r.log_line@ == tool_tag(idx, "search_wiki"@) + " query=`"@
                + query@ + "` limit="@ + dec(limit as nat) + " error="@ + e@,
        },
        !r.requires_approval,
        r.pending_write is None,
{
    let mut line = tool_tag_exec(idx, "search_wiki");
    extend_str(&mut line, " query=`");
    extend_str(&mut line, query);
    extend_str(&mut line, "` limit=");
    extend_dec(&mut line, limit as u64);
    match outcome {
        Ok(lines) => {
            let n = if lines.len() < limit {
                lines.len()
            } else {
                limit
            };
            let mut shown: Vec<String> = Vec::new();
            let mut i: usize = 0;
            while i < n
                invariant
                    i <= n,
                    n <= lines.len(),
                    string_views(shown@) == string_views(lines@).take(i as int),
                decreases n - i,
            {
                let ghost before = string_views(shown@);
                let s = String::from_str(lines[i].as_str());
                assert(s@ == string_views(lines@)[i as int]);
                shown.push(s);
                assert(string_views(shown@) =~= before.push(string_views(lines@)[i as int]));
                assert(string_views(lines@).take(i + 1) =~= string_views(lines@).take(i as int).push(
                    string_views(lines@)[i as int],
                ));
                i = i + 1;
            }
            extend_str(&mut line, " hits=");
            extend_dec(&mut line, lines.len() as u64);
            extend_str(&mut line, " output=");
            if n == 0 {
                extend_str(&mut line, "(no hits)");
            } else {
                let j = join_strings(&shown, " ; ");
                extend_chars(&mut line, &j);
            }
            make_result("info", string_of(&line))
        },
        Err(e) => {
            extend_str(&mut line, " error=");
            extend_str(&mut line, e.as_str());
            make_result("warn", string_of(&line))
        },
    }
}

} // verus!
