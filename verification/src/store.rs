//! Records of the vault's database and the text rules applied before
//! storing: normalised ask questions, session titles, full-text queries.
use crate::text::{
    chars_of, collapse_ws, collapse_ws_chars, extend_chars, extend_str, join, lemma_join_push,
    string_of, string_views, take_chars, take_chars_exec, trim, trim_chars, trim_str, utf8_len,
    views, words, split_ws,
};
use crate::unicode::{str_lowercase, to_lowercase};
use crate::wiki_core::{lines, lines_exec};
use vstd::prelude::*;
use vstd::string::StringExecFns;

verus! {

broadcast use vstd::string::group_string_axioms;

// ───────────────────────── records ─────────────────────────

/// Paths and identity of a file being ingested.
pub struct IngestTaskInput<'a> {
    pub source_path: &'a str,
    pub raw_path: &'a str,
    pub wiki_path: &'a str,
    pub content_hash: &'a str,
    pub title: &'a str,
    pub timestamp_ms: &'a str,
}

/// A citation to store.
pub struct CitationInput<'a> {
    pub cited_page_path: &'a str,
    pub score: usize,
    pub excerpt: &'a str,
}

/// A pending ingest task, as the lint reads it.
#[derive(Debug, Clone)]
pub struct PendingTaskRecord {
    pub id: i64,
    pub kind: String,
    pub status: String,
    pub raw_path: String,
    pub wiki_path: String,
    pub created_at: String,
    pub updated_at: String,
}

/// An earlier ingest of the same content (for deduplication).
#[derive(Debug, Clone)]
pub struct ExistingIngestRecord {
    pub raw_path: String,
    pub wiki_path: String,
}

/// A citation between pages, as the lint reads it.
#[derive(Debug, Clone)]
pub struct CitationRecord {
    pub page_path: String,
    pub cited_page_path: String,
    pub score: usize,
    pub excerpt: String,
}

/// A stored snapshot of a wiki page.
#[derive(Debug, Clone)]
pub struct WikiPageHistoryRecord {
    pub id: i64,
    pub path: String,
    pub title: String,
    pub content_hash: String,
    pub checksum: String,
    pub created_at: String,
    pub prev_content: Option<String>,
}

/// A question of the ask history.
#[derive(Debug, Clone)]
pub struct AskHistoryRecord {
    pub id: i64,
    pub question: String,
    pub created_at: String,
}

/// Summary of an ask session.
#[derive(Debug, Clone)]
pub struct AskSessionRecord {
    pub session_id: String,
    pub title: String,
    pub created_at: String,
    pub updated_at: String,
    pub turn_count: usize,
    pub last_turn_role: Option<String>,
    pub last_turn_content: Option<String>,
}

/// One turn of an ask session.
#[derive(Debug, Clone)]
pub struct AskSessionTurnRecord {
    pub id: i64,
    pub session_id: String,
    pub role: String,
    pub content: String,
    pub created_at: String,
    pub citations_json: String,
    pub meta_json: Option<String>,
}

/// A search hit among the turns of all ask sessions.
#[derive(Debug, Clone)]
pub struct AskSessionSearchHitRecord {
    pub session_id: String,
    pub session_title: String,
    pub turn_id: i64,
    pub role: String,
    pub snippet: String,
    pub created_at: String,
}

/// An event of the outbox.
#[derive(Debug, Clone)]
pub struct OutboxEventRecord {
    pub id: i64,
    pub event_type: String,
    pub payload_json: String,
    pub created_at: String,
    pub processed_at: Option<String>,
    pub consumer_tag: Option<String>,
}

/// An agent run, for listing.
#[derive(Debug, Clone)]
pub struct AgentRunRecord {
    pub id: i64,
    pub topic: String,
    pub status: String,
    pub created_at: String,
    pub updated_at: String,
    pub completed_at: Option<String>,
    pub archived_at: Option<String>,
}

/// An event of an agent run, for its timeline.
#[derive(Debug, Clone)]
pub struct AgentRunEventRecord {
    pub id: i64,
    pub run_id: i64,
    pub level: String,
    pub message: String,
    pub created_at: String,
}

/// A draft an agent run produced, for review.
#[derive(Debug, Clone)]
pub struct AgentDraftRecord {
    pub id: i64,
    pub run_id: i64,
    pub title: String,
    pub content: String,
    pub status: String,
    pub created_at: String,
    pub updated_at: String,
}

/// A stored agent memory.
#[derive(Debug, Clone)]
pub struct AgentMemoryRecord {
    pub id: i64,
    pub run_id: Option<i64>,
    pub memory_key: String,
    pub memory_value: String,
    pub created_at: String,
    pub updated_at: String,
}

/// A stored agent skill template.
#[derive(Debug, Clone)]
pub struct AgentSkillRecord {
    pub id: i64,
    pub skill_key: String,
    pub prompt_template: String,
    pub version: i64,
    pub created_at: String,
    pub updated_at: String,
}

/// Ids created for an ingest task.
pub struct IngestTaskRecord {
    pub source_id: i64,
    pub task_id: i64,
}


// ───────────────────────── ask history and sessions ─────────────────────────

/// Most questions the ask history keeps.
pub const ASK_HISTORY_MAX_ENTRIES: usize = 200;

/// A question as compared for deduplication: its words separated by single
/// spaces, lowercased.
pub open spec fn question_norm(q: Seq<char>) -> Seq<char> {
    str_lowercase(collapse_ws(q))
}

/// A question normalised for deduplication.
pub fn normalize_ask_question(question: &str) -> (r: String)
    ensures
        r@ == question_norm(question@),
{
    let c = collapse_ws_chars(&chars_of(question));
    let s = string_of(&c);
    to_lowercase(s.as_str())
}

/// What the ask history stores for a question: the trimmed question and
/// its normalised form; nothing for a blank question.
pub fn ask_history_entry(question: &str) -> (r: Option<(String, String)>)
    ensures
        trim(question@).len() == 0 ==> r is None,
        trim(question@).len() > 0 ==> (r matches Some((q, n)) && q@ == trim(question@) && n@
            == question_norm(trim(question@))),
{
    let t = trim_str(question);
    if t.len() == 0 {
        return None;
    }
    let q = string_of(&t);
    let n = normalize_ask_question(q.as_str());
    Some((q, n))
}

/// Title given to a session with a blank title.
pub open spec fn default_session_title() -> Seq<char> {
    "新对话"@
}

/// A session title: trimmed and cut to 60 characters, or the default title
/// when blank.
pub open spec fn session_title(t: Seq<char>) -> Seq<char> {
    let tr = trim(t);
    if tr.len() == 0 {
        default_session_title()
    } else {
        take_chars(tr, 60)
    }
}

/// A session title as stored.
pub fn normalize_ask_session_title(title: &str) -> (r: String)
    ensures
        r@ == session_title(title@),
{
    let t = trim_str(title);
    if t.len() == 0 {
        String::from_str("新对话")
    } else {
        string_of(&take_chars_exec(&t, 60))
    }
}

/// The first line that is not blank, trimmed.
pub open spec fn first_nonblank_line(ls: Seq<Seq<char>>) -> Option<Seq<char>>
    decreases ls.len(),
{
    if ls.len() == 0 {
        None
    } else if trim(ls[0]).len() > 0 {
        Some(trim(ls[0]))
    } else {
        first_nonblank_line(ls.drop_first())
    }
}

/// Title derived from a session's first message: its first non-blank line,
/// cut to 36 characters with an ellipsis when longer; none when there is no
/// such line or it reads as the default title.
pub open spec fn auto_title(content: Seq<char>) -> Option<Seq<char>> {
    match first_nonblank_line(lines(content)) {
        None => None,
        Some(l) => {
            let t = take_chars(l, 36) + if l.len() > 36 {
                seq!['…']
            } else {
                Seq::<char>::empty()
            };
            let n = session_title(t);
            if n == default_session_title() {
                None
            } else {
                Some(n)
            }
        },
    }
}

/// Title derived from a session's first message.
pub fn build_auto_session_title(content: &str) -> (r: Option<String>)
    ensures
        match r {
            Some(t) => auto_title(content@) == Some(t@),
            None => auto_title(content@) is None,
        },
{
    let ls = lines_exec(&chars_of(content));
    let ghost lv = views(ls@);
    assert(lv.skip(0) =~= lv);
    let mut i: usize = 0;
    while i < ls.len()
        invariant
            i <= ls.len(),
            lv == views(ls@),
            lv == lines(content@),
            first_nonblank_line(lv) == first_nonblank_line(lv.skip(i as int)),
        decreases ls.len() - i,
    {
        let t = trim_chars(&ls[i]);
        assert(lv.skip(i as int)[0] == ls@[i as int]@);
        if t.len() > 0 {
            assert(first_nonblank_line(lv.skip(i as int)) == Some(t@));
            let mut title = take_chars_exec(&t, 36);
            let ghost head = title@;
            if t.len() > 36 {
                title.push('…');
            }
            assert(title@ =~= take_chars(t@, 36) + if t@.len() > 36 {
                seq!['…']
            } else {
                Seq::<char>::empty()
            });
            let n = normalize_ask_session_title(string_of(&title).as_str());
            let nc = chars_of(n.as_str());
            if crate::text::str_eq_chars("新对话", &nc) {
                return None;
            }
            return Some(n);
        }
        assert(lv.skip(i as int).drop_first() =~= lv.skip(i + 1));
        i = i + 1;
    }
    assert(lv.skip(ls.len() as int) =~= Seq::<Seq<char>>::empty());
    None
}

// ───────────────────────── wiki search ─────────────────────────

/// A token with its double quotes removed.
pub open spec fn strip_quotes(s: Seq<char>) -> Seq<char>
    decreases s.len(),
{
    if s.len() == 0 {
        seq![]
    } else {
        strip_quotes(s.drop_last()) + if s.last() == '"' {
            Seq::<char>::empty()
        } else {
            seq![s.last()]
        }
    }
}

/// Prefix-match terms of the non-blank tokens: `"token"*`.
pub open spec fn fts_terms(tokens: Seq<Seq<char>>) -> Seq<Seq<char>>
    decreases tokens.len(),
{
    if tokens.len() == 0 {
        seq![]
    } else {
        let pre = fts_terms(tokens.drop_last());
        let t = trim(tokens.last());
        if t.len() > 0 {
            pre.push("\""@ + strip_quotes(t) + "\"*"@)
        } else {
            pre
        }
    }
}

/// Full-text query of the tokens: their terms joined by ` OR `, or none
/// when every token is blank.
pub open spec fn fts_query(tokens: Seq<Seq<char>>) -> Option<Seq<char>> {
    let ts = fts_terms(tokens);
    if ts.len() == 0 {
        None
    } else {
        Some(join(ts, " OR "@))
    }
}

fn strip_quotes_exec(s: &[char]) -> (r: Vec<char>)
    ensures
        r@ == strip_quotes(s@),
{
    let mut out: Vec<char> = Vec::new();
    let mut i: usize = 0;
    while i < s.len()
        invariant
            i <= s.len(),
            out@ == strip_quotes(s@.take(i as int)),
        decreases s.len() - i,
    {
        assert(s@.take(i + 1).drop_last() =~= s@.take(i as int));
        if s[i] != '"' {
            out.push(s[i]);
        }
        assert(out@ =~= strip_quotes(s@.take(i + 1)));
        i = i + 1;
    }
    assert(s@.take(s.len() as int) =~= s@);
    out
}

/// Full-text query matching any of the tokens as a prefix.
pub fn build_fts_match_query(tokens: &[String]) -> (r: Option<String>)
    ensures
        match r {
            Some(q) => fts_query(string_views(tokens@)) == Some(q@),
            None => fts_query(string_views(tokens@)) is None,
        },
{
    let ghost tv = string_views(tokens@);
    let mut out: Vec<char> = Vec::new();
    let mut n: usize = 0;
    let mut i: usize = 0;
    while i < tokens.len()
        invariant
            i <= tokens.len(),
            tv == string_views(tokens@),
            n == fts_terms(tv.take(i as int)).len(),
            n <= i,
            out@ == join(fts_terms(tv.take(i as int)), " OR "@),
        decreases tokens.len() - i,
    {
        let ghost pre = fts_terms(tv.take(i as int));
        assert(tv.take(i + 1).drop_last() =~= tv.take(i as int));
        assert(tv.take(i + 1).last() == tokens@[i as int]@);
        let t = trim_str(tokens[i].as_str());
        if t.len() > 0 {
            let mut term = chars_of("\"");
            extend_chars(&mut term, &strip_quotes_exec(&t));
            extend_str(&mut term, "\"*");
            proof {
                lemma_join_push(pre, " OR "@, term@);
            }
            if n > 0 {
                extend_str(&mut out, " OR ");
            }
            extend_chars(&mut out, &term);
            n = n + 1;
            assert(out@ =~= join(pre.push(term@), " OR "@));
        }
        i = i + 1;
    }
    assert(tv.take(tokens.len() as int) =~= tv);
    if n == 0 {
        None
    } else {
        Some(string_of(&out))
    }
}

/// How a wiki search runs: not at all (limit 0), as a listing of recent
/// pages (blank keyword), or by the trimmed keyword, first through the
/// full-text query of its words when there is one.
pub enum WikiSearchPlan {
    Nothing,
    Recent,
    Keyword { keyword: String, fts_query: Option<String> },
}

/// The plan of a wiki search.
pub fn plan_wiki_search(keyword: &str, limit: usize) -> (r: WikiSearchPlan)
    ensures
        limit == 0 ==> r is Nothing,
        limit > 0 && trim(keyword@).len() == 0 ==> r is Recent,
        limit > 0 && trim(keyword@).len() > 0 ==> (r matches WikiSearchPlan::Keyword { keyword: k, fts_query: q }
            && k@ == trim(keyword@) && match q {
            Some(x) => fts_query(words(trim(keyword@))) == Some(x@),
            None => fts_query(words(trim(keyword@))) is None,
        }),
{
    if limit == 0 {
        return WikiSearchPlan::Nothing;
    }
    let t = trim_str(keyword);
    if t.len() == 0 {
        return WikiSearchPlan::Recent;
    }
    let ws = split_ws(&t);
    let mut tokens: Vec<String> = Vec::new();
    let mut i: usize = 0;
    while i < ws.len()
        invariant
            i <= ws.len(),
            string_views(tokens@) == views(ws@).take(i as int),
        decreases ws.len() - i,
    {
        let ghost before = string_views(tokens@);
        tokens.push(string_of(&ws[i]));
        assert(string_views(tokens@) =~= before.push(ws@[i as int]@));
        assert(views(ws@)[i as int] == ws@[i as int]@);
        assert(views(ws@).take(i + 1) =~= views(ws@).take(i as int).push(views(ws@)[i as int]));
        i = i + 1;
    }
    assert(views(ws@).take(ws.len() as int) =~= views(ws@));
    let q = build_fts_match_query(&tokens);
    WikiSearchPlan::Keyword { keyword: string_of(&t), fts_query: q }
}

// ───────────────────────── input rules of the store ─────────────────────────

/// A required text field: trimmed, refused with `message` when blank.
pub open spec fn required(value: Seq<char>, message: Seq<char>) -> Result<Seq<char>, Seq<char>> {
    if trim(value).len() == 0 {
        Err(message)
    } else {
        Ok(trim(value))
    }
}

/// A result of texts as plain values.
pub open spec fn text_result(r: Result<String, String>) -> Result<Seq<char>, Seq<char>> {
    match r {
        Ok(v) => Ok(v@),
        Err(e) => Err(e@),
    }
}

/// A required text field: its trimmed value, or the refusal `message` when
/// it is blank (the rule applied to session ids, event types, consumer
/// tags, run topics and draft statuses before they are stored).
pub fn require_text(value: &str, message: &str) -> (r: Result<String, String>)
    ensures
        text_result(r) == required(value@, message@),
{
    let t = trim_str(value);
    if t.len() == 0 {
        Err(String::from_str(message))
    } else {
        Ok(string_of(&t))
    }
}

/// A turn of an ask session, as stored.
#[derive(Debug, Clone)]
pub struct AskTurnInput {
    pub session_id: String,
    pub role: String,
    pub content: String,
    pub citations_json: String,
    pub meta_json: Option<String>,
}

/// A turn's fields checked and normalised: session id, role (`user` or
/// `assistant`) and content trimmed and non-blank; citations trimmed, `[]`
/// when absent or blank; metadata trimmed, dropped when blank.
pub fn ask_turn_input(
    session_id: &str,
    role: &str,
    content: &str,
    citations_json: Option<&str>,
    meta_json: Option<&str>,
) -> (r: Result<AskTurnInput, String>)
    ensures
        trim(session_id@).len() == 0 ==> (r matches Err(e) && e@ == "session_id 不能为空"@),
        trim(session_id@).len() > 0 && !(trim(role@) == "user"@ || trim(role@) == "assistant"@) ==> (r matches Err(
            e,
        ) && e@ == "role 必须是 user 或 assistant"@),
        trim(session_id@).len() > 0 && (trim(role@) == "user"@ || trim(role@) == "assistant"@) && trim(
            content@,
        ).len() == 0 ==> (r matches Err(e) && e@ == "content 不能为空"@),
        r is Ok <==> trim(session_id@).len() > 0 && (trim(role@) == "user"@ || trim(role@) == "assistant"@)
            && trim(content@).len() > 0,
        r matches Ok(t) ==> {
            &&& t.session_id@ == trim(session_id@)
            &&& t.role@ == trim(role@)
            &&& t.content@ == trim(content@)
            &&& t.citations_json@ == match citations_json {
                Some(c) => if trim(c@).len() == 0 {
                    "[]"@
                } else {
                    trim(c@)
                },
                None => "[]"@,
            }
            &&& match meta_json {
                Some(m) => if trim(m@).len() == 0 {
                    t.meta_json is None
                } else {
                    t.meta_json matches Some(x) && x@ == trim(m@)
                },
                None => t.meta_json is None,
            }
        },
{
    let sid = trim_str(session_id);
    if sid.len() == 0 {
        return Err(String::from_str("session_id 不能为空"));
    }
    let r = trim_str(role);
    if !(crate::text::str_eq_chars("user", &r) || crate::text::str_eq_chars("assistant", &r)) {
        return Err(String::from_str("role 必须是 user 或 assistant"));
    }
    let c = trim_str(content);
    if c.len() == 0 {
        return Err(String::from_str("content 不能为空"));
    }
    let citations = match citations_json {
        Some(x) => {
            let t = trim_str(x);
            if t.len() == 0 {
                String::from_str("[]")
            } else {
                string_of(&t)
            }
        },
        None => String::from_str("[]"),
    };
    let meta = match meta_json {
        Some(m) => {
            let t = trim_str(m);
            if t.len() == 0 {
                None
            } else {
                Some(string_of(&t))
            }
        },
        None => None,
    };
    Ok(AskTurnInput {
        session_id: string_of(&sid),
        role: string_of(&r),
        content: string_of(&c),
        citations_json: citations,
        meta_json: meta,
    })
}

/// Two required fields, checked in order.
pub open spec fn required_pair(a: Seq<char>, a_msg: Seq<char>, b: Seq<char>, b_msg: Seq<char>) -> Result<
    (Seq<char>, Seq<char>),
    Seq<char>,
> {
    if trim(a).len() == 0 {
        Err(a_msg)
    } else if trim(b).len() == 0 {
        Err(b_msg)
    } else {
        Ok((trim(a), trim(b)))
    }
}

/// A pair of texts as plain values.
pub open spec fn pair_result(r: Result<(String, String), String>) -> Result<(Seq<char>, Seq<char>), Seq<char>> {
    match r {
        Ok(p) => Ok((p.0@, p.1@)),
        Err(e) => Err(e@),
    }
}

fn require_pair(a: &str, a_msg: &str, b: &str, b_msg: &str) -> (r: Result<(String, String), String>)
    ensures
        pair_result(r) == required_pair(a@, a_msg@, b@, b_msg@),
{
    let ta = trim_str(a);
    let tb = trim_str(b);
    if ta.len() == 0 {
        Err(String::from_str(a_msg))
    } else if tb.len() == 0 {
        Err(String::from_str(b_msg))
    } else {
        Ok((string_of(&ta), string_of(&tb)))
    }
}

/// An agent memory's key and value, trimmed and non-blank.
pub fn agent_memory_input(key: &str, value: &str) -> (r: Result<(String, String), String>)
    ensures
        pair_result(r) == required_pair(key@, "memory_key 不能为空"@, value@, "memory_value 不能为空"@),
{
    require_pair(key, "memory_key 不能为空", value, "memory_value 不能为空")
}

/// An agent skill's key and prompt template, trimmed and non-blank.
pub fn agent_skill_input(skill_key: &str, prompt_template: &str) -> (r: Result<(String, String), String>)
    ensures
        pair_result(r) == required_pair(
            skill_key@,
            "skill_key 不能为空"@,
            prompt_template@,
            "prompt_template 不能为空"@,
        ),
{
    require_pair(skill_key, "skill_key 不能为空", prompt_template, "prompt_template 不能为空")
}

/// A run event's level and message, trimmed and non-blank.
pub fn run_event_input(level: &str, message: &str) -> (r: Result<(String, String), String>)
    ensures
        pair_result(r) == required_pair(level@, "level 不能为空"@, message@, "message 不能为空"@),
{
    require_pair(level, "level 不能为空", message, "message 不能为空")
}

/// A draft's title (trimmed), content and status (trimmed, non-blank).
pub fn agent_draft_input(title: &str, content: &str, status: &str) -> (r: Result<(String, String, String), String>)
    ensures
        match required_pair(content@, "draft content 不能为空"@, status@, "draft status 不能为空"@) {
            Ok((c, s)) => r matches Ok(t) && t.0@ == trim(title@) && t.1@ == c && t.2@ == s,
            Err(m) => r matches Err(e) && e@ == m,
        },
{
    match require_pair(content, "draft content 不能为空", status, "draft status 不能为空") {
        Ok((c, s)) => Ok((string_of(&trim_str(title)), c, s)),
        Err(e) => Err(e),
    }
}

/// A run's final status, trimmed and non-blank, and its completion time:
/// none while the run is `running` or `reviewing`, `now` otherwise.
pub fn run_completion(status: &str, now: &str) -> (r: Result<(String, Option<String>), String>)
    ensures
        trim(status@).len() == 0 ==> (r matches Err(e) && e@ == "status 不能为空"@),
        trim(status@).len() > 0 ==> (r matches Ok(p) && p.0@ == trim(status@) && if trim(status@) == "running"@
            || trim(status@) == "reviewing"@ {
            p.1 is None
        } else {
            p.1 matches Some(t) && t@ == now@
        }),
{
    let t = trim_str(status);
    if t.len() == 0 {
        return Err(String::from_str("status 不能为空"));
    }
    let open = crate::text::str_eq_chars("running", &t) || crate::text::str_eq_chars("reviewing", &t);
    let completed = if open {
        None
    } else {
        Some(String::from_str(now))
    };
    Ok((string_of(&t), completed))
}

} // verus!
