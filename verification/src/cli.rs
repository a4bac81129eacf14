//! The command-line tool's settings and argument readers: LLM endpoint
//! configuration, scopes and memory tiers.
use crate::json::{
    first_of_array_member, get, get_first_of_array, json_as_str, json_get, parse_json_text,
    spec_parse_json, JsonValue,
};
use crate::text::{
    ascii_lower, ascii_lower_chars, chars_of, dec, ends_with, ends_with_str, extend_chars,
    extend_dec, extend_str, starts_with, starts_with_str, string_of, trim, trim_chars, trim_str,
};
use crate::clip::{replace_char, replace_char_exec, trim_end_char, trim_end_char_exec};
use crate::wiki_core::{MemoryTier, Scope};
use vstd::prelude::*;
use vstd::string::StringExecFns;

verus! {

broadcast use vstd::string::group_string_axioms;

/// The settings file: its `[llm]` table.
#[derive(Debug, Clone)]
pub struct LlmConfigFile {
    pub llm: LlmConfig,
}

/// An OpenAI-compatible endpoint and how to call it.
#[derive(Debug, Clone)]
pub struct LlmConfig {
    pub base_url: String,
    pub api_key: String,
    pub model: String,
    /// Seconds before a request gives up (60 when not set).
    pub timeout_seconds: u64,
    /// Further attempts after a failed one (0 when not set).
    pub max_retries: u32,
}

/// Timeout used when the settings file gives none.
pub fn default_timeout_seconds() -> (r: u64)
    ensures
        r == 60,
{
    60
}

/// Chat-completions endpoint of a base URL: trailing `/` removed, then
/// `/chat/completions` after a `/v1` ending, else `/v1/chat/completions`.
pub open spec fn completions_url(base: Seq<char>) -> Seq<char> {
    let t = trim_end_char(base, '/');
    if ends_with(t, "/v1"@) {
        t + "/chat/completions"@
    } else {
        t + "/v1/chat/completions"@
    }
}

/// Chat-completions endpoint of a base URL.
pub fn chat_completions_url(base_url: &str) -> (r: String)
    ensures
        r@ == completions_url(base_url@),
{
    let mut t = trim_end_char_exec(&chars_of(base_url), '/');
    if ends_with_str(&t, "/v1") {
        extend_str(&mut t, "/chat/completions");
    } else {
        extend_str(&mut t, "/v1/chat/completions");
    }
    string_of(&t)
}

/// Number of attempts a smoke call makes: one, plus the retries.
pub fn attempts_of(cfg: &LlmConfig) -> (r: u64)
    ensures
        r == cfg.max_retries + 1,
{
    cfg.max_retries as u64 + 1
}

/// Scope named on the command line: `shared:<team>`, `private:<agent>`, or
/// a bare agent id.
pub open spec fn scope_of(s: Seq<char>, r: Scope) -> bool {
    if starts_with(s, "shared:"@) {
        r matches Scope::Shared { team_id } && team_id@ == s.skip(7)
    } else if starts_with(s, "private:"@) {
        r matches Scope::Private { agent_id } && agent_id@ == s.skip(8)
    } else {
        r matches Scope::Private { agent_id } && agent_id@ == s
    }
}

/// Reads a scope argument.
pub fn parse_scope(s: &str) -> (r: Scope)
    ensures
        scope_of(s@, r),
{
    let c = chars_of(s);
    if starts_with_str(&c, "shared:") {
        proof {
            reveal_strlit("shared:");
        }
        let rest = crate::text::slice_chars(&c, 7, c.len());
        assert(rest@ =~= s@.skip(7));
        Scope::Shared { team_id: string_of(&rest) }
    } else if starts_with_str(&c, "private:") {
        proof {
            reveal_strlit("private:");
        }
        let rest = crate::text::slice_chars(&c, 8, c.len());
        assert(rest@ =~= s@.skip(8));
        Scope::Private { agent_id: string_of(&rest) }
    } else {
        Scope::Private { agent_id: String::from_str(s) }
    }
}

/// Memory tier named on the command line (trimmed, any ASCII case).
pub open spec fn tier_of(s: Seq<char>) -> Option<MemoryTier> {
    let x = ascii_lower(trim(s));
    if x == "working"@ {
        Some(MemoryTier::Working)
    } else if x == "episodic"@ {
        Some(MemoryTier::Episodic)
    } else if x == "semantic"@ {
        Some(MemoryTier::Semantic)
    } else if x == "procedural"@ {
        Some(MemoryTier::Procedural)
    } else {
        None
    }
}

/// Reads a memory tier argument; an unknown name is an error naming it.
pub fn parse_tier(s: &str) -> (r: Result<MemoryTier, String>)
    ensures
        match tier_of(s@) {
            Some(t) => r == Ok::<MemoryTier, String>(t),
            None => r matches Err(e) && e@ == "unknown tier: "@ + s@,
        },
{
    let x = ascii_lower_chars(&trim_str(s));
    if crate::text::str_eq_chars("working", &x) {
        Ok(MemoryTier::Working)
    } else if crate::text::str_eq_chars("episodic", &x) {
        Ok(MemoryTier::Episodic)
    } else if crate::text::str_eq_chars("semantic", &x) {
        Ok(MemoryTier::Semantic)
    } else if crate::text::str_eq_chars("procedural", &x) {
        Ok(MemoryTier::Procedural)
    } else {
        let mut v = chars_of("unknown tier: ");
        extend_str(&mut v, s);
        Err(string_of(&v))
    }
}

/// Error of a chat call answered with a failure status.
pub fn llm_http_error(status: u16, body: &str) -> (r: String)
    ensures
        r@ == "llm http "@ + dec(status as nat) + ": "@ + body@,
{
    let mut v = chars_of("llm http ");
    extend_dec(&mut v, status as u64);
    extend_str(&mut v, ": ");
    extend_str(&mut v, body);
    string_of(&v)
}

/// `choices[0].message.content` of a chat reply, if it is a string.
pub open spec fn reply_content(v: JsonValue) -> Option<Seq<char>> {
    match first_of_array_member(v, "choices"@) {
        Some(c) => match json_get(c, "message"@) {
            Some(m) => match json_get(m, "content"@) {
                Some(x) => json_as_str(x),
                None => None,
            },
            None => None,
        },
        None => None,
    }
}

/// The answer text of a chat reply: its first choice's content, trimmed.
/// Errors: the parser's message when the reply is not JSON; a message
/// quoting the reply when the content is missing or blank.
pub fn llm_reply_content(text: &str) -> (r: Result<String, String>)
    ensures
        match spec_parse_json(text@) {
            None => r is Err,
            Some(v) => {
                let c = trim(
                    match reply_content(v) {
                        Some(s) => s,
                        None => seq![],
                    },
                );
                if c.len() > 0 {
                    r matches Ok(s) && s@ == c
                } else {
                    r matches Err(e) && e@ == "llm response missing content: "@ + text@
                }
            },
        },
{
    let v = match parse_json_text(text) {
        Ok(v) => v,
        Err(e) => return Err(e),
    };
    let content: Vec<char> = match get_first_of_array(&v, "choices") {
        Some(c) => match get(c, "message") {
            Some(m) => match get(m, "content") {
                Some(x) => match crate::json::as_str(x) {
                    Some(s) => trim_str(s.as_str()),
                    None => trim_chars(&Vec::new()),
                },
                None => trim_chars(&Vec::new()),
            },
            None => trim_chars(&Vec::new()),
        },
        None => trim_chars(&Vec::new()),
    };
    if content.len() > 0 {
        Ok(string_of(&content))
    } else {
        let mut e = chars_of("llm response missing content: ");
        extend_str(&mut e, text);
        Err(string_of(&e))
    }
}

/// A time stamp usable in a file name: the RFC 3339 time (or `now` when it
/// could not be formatted) with `:` replaced by `-`.
pub fn timestamp_slug(rfc3339: Option<String>) -> (r: String)
    ensures
        r@ == replace_char(
            match rfc3339 {
                Some(t) => t@,
                None => "now"@,
            },
            ':',
            "-"@,
        ),
{
    let t = match rfc3339 {
        Some(t) => chars_of(t.as_str()),
        None => chars_of("now"),
    };
    string_of(&replace_char_exec(&t, ':', "-"))
}

/// Result lines of a query page: each document with its score as shown.
pub open spec fn result_lines(rows: Seq<(String, String)>) -> Seq<char>
    decreases rows.len(),
{
    if rows.len() == 0 {
        seq![]
    } else {
        result_lines(rows.drop_last()) + "- `"@ + rows.last().0@ + "` score="@ + rows.last().1@ + "\n"@
    }
}

/// Markdown of a page recording a query: its title, the query, and the
/// first twenty results (document id and score, the score already formatted).
pub open spec fn query_page_text(title: Seq<char>, query: Seq<char>, rows: Seq<(String, String)>) -> Seq<char> {
    "# "@ + title + "\n\n## Query\n\n"@ + query + "\n\n## Top Results\n\n"@ + result_lines(
        if rows.len() > 20 {
            rows.take(20)
        } else {
            rows
        },
    )
}

/// The markdown of a query page.
pub fn query_page_markdown(title: &str, query: &str, rows: &[(String, String)]) -> (r: String)
    ensures
        r@ == query_page_text(title@, query@, rows@),
{
    let mut md = chars_of("# ");
    extend_str(&mut md, title);
    extend_str(&mut md, "\n\n## Query\n\n");
    extend_str(&mut md, query);
    extend_str(&mut md, "\n\n## Top Results\n\n");
    let n: usize = if rows.len() > 20 {
        20
    } else {
        rows.len()
    };
    let ghost shown = if rows@.len() > 20 {
        rows@.take(20)
    } else {
        rows@
    };
    let ghost start = md@;
    let mut i: usize = 0;
    while i < n
        invariant
            i <= n,
            n == shown.len(),
            n <= rows.len(),
            forall|k: int| 0 <= k < n ==> shown[k] == rows@[k],
            md@ == start + result_lines(shown.take(i as int)),
        decreases n - i,
    {
        assert(shown.take(i + 1).drop_last() =~= shown.take(i as int));
        extend_str(&mut md, "- `");
        extend_str(&mut md, rows[i].0.as_str());
        extend_str(&mut md, "` score=");
        extend_str(&mut md, rows[i].1.as_str());
        extend_str(&mut md, "\n");
        i = i + 1;
    }
    assert(shown.take(n as int) =~= shown);
    string_of(&md)
}

} // verus!
