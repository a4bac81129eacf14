//! Knowledge model of the wiki kernel: memory tiers, scopes, relations,
//! wikilinks between pages, and the redaction applied before ingest.
use crate::text::{
    extend_str, is_ws, lead_ws, occurs_at, trail_ws, trim_start,
    ascii_lower, ascii_lower_chars, chars_eq, chars_of, contains, contains_str, extend_chars,
    split_char, split_char_exec, starts_with, starts_with_str, string_of, trim, trim_chars, views,
};
use vstd::prelude::*;
use vstd::string::StringExecFns;

verus! {

broadcast use vstd::string::group_string_axioms;

/// Consolidation tier: working → episodic → semantic → procedural.
#[derive(Debug, Clone, Copy, PartialEq, Eq, Hash)]
pub enum MemoryTier {
    Working,
    Episodic,
    Semantic,
    Procedural,
}

/// Private or shared scope (several agents, teams).
#[derive(Debug, Clone, PartialEq, Eq, Hash)]
pub enum Scope {
    Private { agent_id: String },
    Shared { team_id: String },
}

#[derive(Debug, Clone, PartialEq, Eq, Hash)]
pub enum EntityKind {
    Person,
    Project,
    Library,
    Concept,
    FilePath,
    Decision,
    Other(String),
}

#[derive(Debug, Clone, Copy, PartialEq, Eq, Hash, Structural)]
pub enum RelationKind {
    Uses,
    DependsOn,
    Contradicts,
    Caused,
    Fixed,
    Supersedes,
    Related,
}

/// Operations recorded in the audit log.
#[derive(Debug, Clone, Copy, PartialEq, Eq)]
pub enum AuditOperation {
    IngestSource,
    WriteClaim,
    SupersedeClaim,
    WritePage,
    RunLint,
    RunQuery,
    CrystallizeSession,
    RedactSensitive,
}

/// An event of the kernel's outbox (ids as 128-bit integers; the time of
/// each event is kept by the application).
#[derive(Debug, Clone, PartialEq, Eq)]
pub enum WikiEvent {
    SourceIngested { source_id: u128, redacted: bool },
    ClaimUpserted { claim_id: u128 },
    ClaimSuperseded { old: u128, new: u128 },
    PageWritten { page_id: u128 },
    QueryServed { query_fingerprint: String, top_doc_ids: Vec<String> },
    SessionCrystallized { page_id: u128 },
    GraphExpanded { seeds: Vec<u128>, visited: Vec<u128> },
    LintRunFinished { findings: usize },
}

/// State of a shared work item.
#[derive(Debug, Clone, Copy, PartialEq, Eq)]
pub enum WorkState {
    Todo,
    InProgress,
    Blocked,
    Done,
}

/// Who works on what: a topic, its owner and its state (the id and the
/// time, in seconds since the epoch, are drawn by the application).
#[derive(Debug, Clone)]
pub struct WorkItem {
    pub id: u128,
    pub topic: String,
    pub owner: String,
    pub state: WorkState,
    pub updated_at: i64,
}

impl WorkItem {
    /// A new item, still to do.
    pub fn new(id: u128, topic: String, owner: String, now: i64) -> (r: Self)
        ensures
            r.id == id,
            r.topic == topic,
            r.owner == owner,
            r.state == WorkState::Todo,
            r.updated_at == now,
    {
        WorkItem { id, topic, owner, state: WorkState::Todo, updated_at: now }
    }
}

#[derive(Debug, Clone, Copy, PartialEq, Eq)]
pub enum LintSeverity {
    Info,
    Warn,
    Error,
}

#[derive(Debug, Clone)]
pub struct LintFinding {
    pub code: String,
    pub message: String,
    pub severity: LintSeverity,
    pub subject: Option<String>,
}

/// An exploration session to distil into a page draft.
#[derive(Debug, Clone)]
pub struct SessionCrystallizationInput {
    pub question: String,
    pub findings: Vec<String>,
    pub files_touched: Vec<String>,
    pub lessons: Vec<String>,
    pub scope: Scope,
}

// ───────────────────────── wikilinks ─────────────────────────

/// First `]]` starting at `j` or later.
pub open spec fn close_from(s: Seq<char>, j: int) -> Option<int>
    decreases s.len() - j,
{
    if j < 0 || j + 1 >= s.len() {
        None
    } else if s[j] == ']' && s[j + 1] == ']' {
        Some(j)
    } else {
        close_from(s, j + 1)
    }
}

/// Trimmed bodies of the `[[...]]` spans met scanning from `i`: each `[[`
/// (with room for at least `[[x]` after it) is closed by the first `]]`
/// after it; scanning ends at an unclosed `[[`.
pub open spec fn link_bodies_from(s: Seq<char>, i: int) -> Seq<Seq<char>>
    decreases s.len() - i,
{
    if i < 0 || i + 3 >= s.len() {
        seq![]
    } else if s[i] == '[' && s[i + 1] == '[' {
        match close_from(s, i + 2) {
            Some(j) => if j > i && j + 1 < s.len() {
                seq![trim(s.subrange(i + 2, j))] + link_bodies_from(s, j + 2)
            } else {
                seq![]
            },
            None => seq![],
        }
    } else {
        link_bodies_from(s, i + 1)
    }
}

/// Non-empty entries, each kept at its first occurrence.
pub open spec fn dedup_nonempty(xs: Seq<Seq<char>>) -> Seq<Seq<char>>
    decreases xs.len(),
{
    if xs.len() == 0 {
        seq![]
    } else {
        let prev = dedup_nonempty(xs.drop_last());
        let x = xs.last();
        if x.len() == 0 || prev.contains(x) {
            prev
        } else {
            prev.push(x)
        }
    }
}

/// Page titles a markdown text links to with `[[Title]]`.
pub open spec fn wikilinks(markdown: Seq<char>) -> Seq<Seq<char>> {
    dedup_nonempty(link_bodies_from(markdown, 0))
}

proof fn lemma_close_from_range(s: Seq<char>, j: int)
    requires
        j >= 0,
    ensures
        close_from(s, j) matches Some(k) ==> j <= k && k + 1 < s.len() && s[k] == ']' && s[k
            + 1] == ']',
        close_from(s, j) is None ==> forall|k: int|
            j <= k && k + 1 < s.len() ==> !(#[trigger] s[k] == ']' && s[k + 1] == ']'),
    decreases s.len() - j,
{
    if j >= 0 && j + 1 < s.len() {
        lemma_close_from_range(s, j + 1);
    }
}

fn close_from_exec(s: &[char], j0: usize) -> (r: Option<usize>)
    ensures
        match r {
            Some(k) => close_from(s@, j0 as int) == Some(k as int),
            None => close_from(s@, j0 as int) is None,
        },
{
    let mut j = j0;
    while s.len() > 0 && j < s.len() - 1
        invariant
            j0 <= j,
            close_from(s@, j0 as int) == close_from(s@, j as int),
        decreases s.len() - j,
    {
        if s[j] == ']' && s[j + 1] == ']' {
            return Some(j);
        }
        j = j + 1;
    }
    None
}

fn seq_vec_contains(v: &Vec<Vec<char>>, x: &[char]) -> (r: bool)
    ensures
        r == views(v@).contains(x@),
{
    let mut i: usize = 0;
    while i < v.len()
        invariant
            i <= v.len(),
            forall|k: int| 0 <= k < i ==> views(v@)[k] != x@,
        decreases v.len() - i,
    {
        assert(views(v@)[i as int] == v@[i as int]@);
        if chars_eq(&v[i], x) {
            return true;
        }
        i = i + 1;
    }
    false
}

/// Titles linked with `[[...]]`, without duplicates, in order of first
/// appearance.
pub fn extract_wikilinks(markdown: &str) -> (r: Vec<String>)
    ensures
        crate::text::string_views(r@) == wikilinks(markdown@),
{
    let s = chars_of(markdown);
    let mut out: Vec<Vec<char>> = Vec::new();
    let ghost mut found: Seq<Seq<char>> = seq![];
    let mut i: usize = 0;
    let mut stop = false;
    while !stop && s.len() > 3 && i < s.len() - 3
        invariant
            s@ == markdown@,
            stop ==> link_bodies_from(s@, i as int) == Seq::<Seq<char>>::empty(),
            link_bodies_from(s@, 0) == found + link_bodies_from(s@, i as int),
            views(out@) == dedup_nonempty(found),
        decreases s.len() - i + (if stop { 0int } else { 1int }),
    {
        if s[i] == '[' && s[i + 1] == '[' {
            let start = i + 2;
            match close_from_exec(&s, start) {
                Some(j) => {
                    proof {
                        lemma_close_from_range(s@, start as int);
                    }
                    let body = crate::text::slice_chars(&s, start, j);
                    let t = trim_chars(&body);
                    let ghost f2 = found.push(t@);
                    proof {
                        assert(link_bodies_from(s@, i as int) == seq![t@] + link_bodies_from(
                            s@,
                            j + 2,
                        ));
                        assert(found + link_bodies_from(s@, i as int) =~= f2 + link_bodies_from(
                            s@,
                            j + 2,
                        ));
                        assert(f2.drop_last() =~= found);
                    }
                    if t.len() > 0 && !seq_vec_contains(&out, &t) {
                        out.push(t);
                        assert(views(out@) =~= dedup_nonempty(found).push(t@));
                    }
                    proof {
                        found = f2;
                    }
                    i = j + 2;
                },
                None => {
                    proof {
                        assert(link_bodies_from(s@, i as int) == Seq::<Seq<char>>::empty());
                        assert(found + link_bodies_from(s@, i as int) =~= found);
                    }
                    stop = true;
                },
            }
        } else {
            i = i + 1;
        }
    }
    proof {
        assert(found + link_bodies_from(s@, i as int) =~= found);
    }
    let mut res: Vec<String> = Vec::new();
    let mut k: usize = 0;
    while k < out.len()
        invariant
            k <= out.len(),
            views(out@) == wikilinks(markdown@),
            crate::text::string_views(res@) == views(out@).take(k as int),
        decreases out.len() - k,
    {
        assert(views(out@)[k as int] == out@[k as int]@);
        let ghost before = crate::text::string_views(res@);
        let piece = string_of(&out[k]);
        res.push(piece);
        assert(crate::text::string_views(res@) =~= before.push(out@[k as int]@));
        assert(views(out@).take(k + 1) =~= views(out@).take(k as int).push(out@[k as int]@));
        k = k + 1;
    }
    assert(views(out@).take(out.len() as int) =~= views(out@));
    res
}

/// Every extracted title is non-empty, trimmed, and appears once.
pub proof fn lemma_wikilinks_unique_nonempty(xs: Seq<Seq<char>>)
    ensures
        forall|i: int|
            0 <= i < dedup_nonempty(xs).len() ==> #[trigger] dedup_nonempty(xs)[i].len() > 0,
        forall|i: int, j: int|
            0 <= i < j < dedup_nonempty(xs).len() ==> dedup_nonempty(xs)[i] != dedup_nonempty(
                xs,
            )[j],
    decreases xs.len(),
{
    if xs.len() > 0 {
        lemma_wikilinks_unique_nonempty(xs.drop_last());
        let prev = dedup_nonempty(xs.drop_last());
        let x = xs.last();
        if !(x.len() == 0 || prev.contains(x)) {
            let d = prev.push(x);
            assert forall|i: int, j: int| 0 <= i < j < d.len() implies d[i] != d[j] by {
                if j == d.len() - 1 {
                    assert(d[i] == prev[i]);
                    if d[i] == x {
                        assert(prev.contains(x));
                    }
                }
            }
        }
    }
}

// ───────────────────────── redaction ─────────────────────────

/// Kinds of secrets the redaction recognises.
#[derive(Debug, Clone, Copy, PartialEq, Eq, Structural)]
pub enum SensitiveKind {
    ApiKeyLike,
    BearerToken,
    HighEntropySecret,
    PrivateMarker,
}

/// One redacted line: its kind and the placeholder that replaced it.
#[derive(Debug, Clone)]
pub struct RedactionFinding {
    pub kind: SensitiveKind,
    pub placeholder: String,
}

/// A line without its trailing carriage return, when it has one.
pub open spec fn strip_cr(x: Seq<char>) -> Seq<char> {
    if x.len() > 0 && x.last() == '\r' {
        x.drop_last()
    } else {
        x
    }
}

/// `str::lines`: pieces between `\n`, a `\r` before a `\n` dropped, and no
/// final empty piece.
pub open spec fn lines(s: Seq<char>) -> Seq<Seq<char>> {
    let parts = split_char(s, '\n');
    let ended = parts.drop_last().map_values(|x: Seq<char>| strip_cr(x));
    if parts.last().len() == 0 {
        ended
    } else {
        ended.push(parts.last())
    }
}

/// The secret a line holds, if any.
pub open spec fn line_secret(line: Seq<char>) -> Option<SensitiveKind> {
    let t = trim(line);
    let lower = ascii_lower(t);
    if starts_with(lower, "authorization:"@) || starts_with(lower, "bearer "@) {
        Some(SensitiveKind::BearerToken)
    } else if contains(t, "AKIA"@) || (contains(t, "api_key"@) && contains(t, "="@)) || contains(
        t,
        "BEGIN RSA PRIVATE KEY"@,
    ) {
        Some(SensitiveKind::ApiKeyLike)
    } else if contains(t, "PRIVATE"@) && contains(t, "DO_NOT_COMMIT"@) {
        Some(SensitiveKind::PrivateMarker)
    } else {
        None
    }
}

/// Placeholder written in place of a redacted line.
pub open spec fn placeholder(k: SensitiveKind) -> Seq<char> {
    match k {
        SensitiveKind::BearerToken => "[REDACTED_BEARER]"@,
        SensitiveKind::ApiKeyLike => "[REDACTED_SECRET]"@,
        SensitiveKind::PrivateMarker => "[REDACTED_PRIVATE]"@,
        SensitiveKind::HighEntropySecret => "[REDACTED_SECRET]"@,
    }
}

/// A line as it is written out.
pub open spec fn redacted_line(line: Seq<char>) -> Seq<char> {
    match line_secret(line) {
        Some(k) => placeholder(k),
        None => line,
    }
}

/// Lines glued with `\n`, no separator being written while the output is
/// still empty.
pub open spec fn glue(parts: Seq<Seq<char>>) -> Seq<char>
    decreases parts.len(),
{
    if parts.len() == 0 {
        seq![]
    } else {
        let a = glue(parts.drop_last());
        if a.len() == 0 {
            parts.last()
        } else {
            a + "\n"@ + parts.last()
        }
    }
}

/// Kinds of the redacted lines, in order.
pub open spec fn secret_kinds(ls: Seq<Seq<char>>) -> Seq<SensitiveKind>
    decreases ls.len(),
{
    if ls.len() == 0 {
        seq![]
    } else {
        let prev = secret_kinds(ls.drop_last());
        match line_secret(ls.last()) {
            Some(k) => prev.push(k),
            None => prev,
        }
    }
}

fn line_secret_exec(line: &[char]) -> (r: Option<SensitiveKind>)
    ensures
        r == line_secret(line@),
{
    let t = trim_chars(line);
    let lower = ascii_lower_chars(&t);
    if starts_with_str(&lower, "authorization:") || starts_with_str(&lower, "bearer ") {
        Some(SensitiveKind::BearerToken)
    } else if contains_str(&t, "AKIA") || (contains_str(&t, "api_key") && contains_str(&t, "="))
        || contains_str(&t, "BEGIN RSA PRIVATE KEY") {
        Some(SensitiveKind::ApiKeyLike)
    } else if contains_str(&t, "PRIVATE") && contains_str(&t, "DO_NOT_COMMIT") {
        Some(SensitiveKind::PrivateMarker)
    } else {
        None
    }
}

fn placeholder_text(k: SensitiveKind) -> (r: &'static str)
    ensures
        r@ == placeholder(k),
{
    match k {
        SensitiveKind::BearerToken => "[REDACTED_BEARER]",
        SensitiveKind::ApiKeyLike => "[REDACTED_SECRET]",
        SensitiveKind::PrivateMarker => "[REDACTED_PRIVATE]",
        SensitiveKind::HighEntropySecret => "[REDACTED_SECRET]",
    }
}

/// `str::lines`, collected.
pub fn lines_exec(s: &[char]) -> (r: Vec<Vec<char>>)
    ensures
        views(r@) == lines(s@),
{
    let parts = split_char_exec(s, '\n');
    let n = parts.len();
    let mut out: Vec<Vec<char>> = Vec::new();
    let mut i: usize = 0;
    while i + 1 < n
        invariant
            n == parts.len(),
            n >= 1,
            i + 1 <= n,
            views(out@) == views(parts@).drop_last().map_values(|x: Seq<char>| strip_cr(x)).take(
                i as int,
            ),
        decreases n - i,
    {
        let p = &parts[i];
        let q = if p.len() > 0 && p[p.len() - 1] == '\r' {
            crate::text::slice_chars(p, 0, p.len() - 1)
        } else {
            crate::text::slice_chars(p, 0, p.len())
        };
        assert(views(parts@)[i as int] == p@);
        assert(q@ =~= strip_cr(p@));
        let ghost before = views(out@);
        out.push(q);
        assert(views(out@) =~= before.push(q@));
        assert(views(out@) =~= views(parts@).drop_last().map_values(|x: Seq<char>| strip_cr(x)).take(
            i + 1,
        ));
        i = i + 1;
    }
    assert(views(parts@).drop_last().map_values(|x: Seq<char>| strip_cr(x)).take(i as int)
        =~= views(parts@).drop_last().map_values(|x: Seq<char>| strip_cr(x)));
    let last = &parts[n - 1];
    assert(views(parts@).last() == last@);
    if last.len() > 0 {
        let l = crate::text::slice_chars(last, 0, last.len());
        assert(l@ =~= last@);
        out.push(l);
        assert(views(out@) =~= lines(s@));
    }
    out
}

/// Replaces lines that look like secrets with placeholders, and reports
/// each replacement.
pub fn redact_for_ingest(input: &str) -> (r: (String, Vec<RedactionFinding>))
    ensures
        r.0@ == redacted_text(input@),
        r.1@.map_values(|f: RedactionFinding| f.kind) == secret_kinds(lines(input@)),
        forall|i: int| 0 <= i < r.1@.len() ==> #[trigger] r.1@[i].placeholder@ == placeholder(r.1@[i].kind),
{
    let s = chars_of(input);
    let ls = lines_exec(&s);
    let ghost lv = lines(input@);
    let mut out: Vec<char> = Vec::new();
    let mut findings: Vec<RedactionFinding> = Vec::new();
    let mut i: usize = 0;
    while i < ls.len()
        invariant
            i <= ls.len(),
            views(ls@) == lv,
            out@ == glue(lv.take(i as int).map_values(|l: Seq<char>| redacted_line(l))),
            findings@.map_values(|f: RedactionFinding| f.kind) == secret_kinds(lv.take(i as int)),
            forall|k: int| 0 <= k < findings@.len() ==> #[trigger] findings@[k].placeholder@ == placeholder(findings@[k].kind),
        decreases ls.len() - i,
    {
        let line = &ls[i];
        assert(views(ls@)[i as int] == line@);
        let ghost pre = lv.take(i as int);
        let ghost nxt = lv.take(i + 1);
        assert(nxt.drop_last() =~= pre);
        assert(nxt.last() == line@);
        assert(nxt.map_values(|l: Seq<char>| redacted_line(l)).drop_last() =~= pre.map_values(
            |l: Seq<char>| redacted_line(l),
        ));
        let replaced: Vec<char> = match line_secret_exec(line) {
            Some(k) => {
                let ph = placeholder_text(k);
                let ghost before = findings@;
                findings.push(RedactionFinding { kind: k, placeholder: String::from_str(ph) });
                assert(findings@.map_values(|f: RedactionFinding| f.kind) =~= before.map_values(
                    |f: RedactionFinding| f.kind,
                ).push(k));
                chars_of(ph)
            },
            None => {
                let c = crate::text::slice_chars(line, 0, line.len());
                assert(c@ =~= line@);
                c
            },
        };
        if out.len() > 0 {
            out.push('\n');
            assert(out@ =~= glue(pre.map_values(|l: Seq<char>| redacted_line(l))) + "\n"@) by {
                reveal_strlit("\n");
            }
        }
        extend_chars(&mut out, &replaced);
        i = i + 1;
    }
    assert(lv.take(ls.len() as int) =~= lv);
    (string_of(&out), findings)
}

// ───────────────────────── lifecycle and crystallization ─────────────────────────

/// The next tier of the consolidation ladder (procedural stays procedural).
pub open spec fn next_tier(t: MemoryTier) -> MemoryTier {
    match t {
        MemoryTier::Working => MemoryTier::Episodic,
        MemoryTier::Episodic => MemoryTier::Semantic,
        MemoryTier::Semantic => MemoryTier::Procedural,
        MemoryTier::Procedural => MemoryTier::Procedural,
    }
}

/// Moves a claim's tier one step up the consolidation ladder.
pub fn advance_tier(tier: MemoryTier) -> (r: MemoryTier)
    ensures
        r == next_tier(tier),
{
    match tier {
        MemoryTier::Working => MemoryTier::Episodic,
        MemoryTier::Episodic => MemoryTier::Semantic,
        MemoryTier::Semantic => MemoryTier::Procedural,
        MemoryTier::Procedural => MemoryTier::Procedural,
    }
}

/// Rank of a tier on the ladder.
pub open spec fn tier_rank(t: MemoryTier) -> int {
    match t {
        MemoryTier::Working => 0,
        MemoryTier::Episodic => 1,
        MemoryTier::Semantic => 2,
        MemoryTier::Procedural => 3,
    }
}

/// Advancing never moves a claim down the ladder, moves it up by exactly
/// one step below the top, and leaves the top in place.
pub proof fn lemma_advance_tier_monotone(t: MemoryTier)
    ensures
        tier_rank(next_tier(t)) >= tier_rank(t),
        t != MemoryTier::Procedural ==> tier_rank(next_tier(t)) == tier_rank(t) + 1,
        t == MemoryTier::Procedural ==> next_tier(t) == t,
{
}

/// A text on one line: its words joined by single spaces.
pub open spec fn one_line(s: Seq<char>) -> Seq<char> {
    crate::text::collapse_ws(s)
}

/// Bulleted lines of texts, each made one line.
pub open spec fn bullets(items: Seq<Seq<char>>) -> Seq<char>
    decreases items.len(),
{
    if items.len() == 0 {
        seq![]
    } else {
        bullets(items.drop_last()) + "- "@ + one_line(items.last()) + "\n"@
    }
}

/// Bulleted lines of file paths, in backquotes.
pub open spec fn file_bullets(items: Seq<Seq<char>>) -> Seq<char>
    decreases items.len(),
{
    if items.len() == 0 {
        seq![]
    } else {
        file_bullets(items.drop_last()) + "- `"@ + items.last() + "`\n"@
    }
}

/// Markdown of a crystallized session: the question, the findings, the
/// files touched and the lessons (the last two only when there are any).
pub open spec fn crystallized_markdown(input: SessionCrystallizationInput) -> Seq<char> {
    let files = crate::text::string_views(input.files_touched@);
    let lessons = crate::text::string_views(input.lessons@);
    "# 问题\n\n"@ + input.question@ + "\n\n## 结论与发现\n\n"@ + bullets(
        crate::text::string_views(input.findings@),
    ) + (if files.len() > 0 {
        "\n## 涉及文件\n\n"@ + file_bullets(files)
    } else {
        seq![]
    }) + (if lessons.len() > 0 {
        "\n## 可复用教训\n\n"@ + bullets(lessons)
    } else {
        seq![]
    })
}

/// The page a session crystallizes into, and the candidate claims (its lessons).
pub struct CrystallizationDraft {
    pub title: String,
    pub markdown: String,
    pub claim_candidates: Vec<String>,
    /// Scope of the page, the session's.
    pub scope: Scope,
    /// Titles the page links to; a fresh draft holds none.
    pub outbound_page_titles: Vec<String>,
}

fn extend_bullets(v: &mut Vec<char>, items: &Vec<String>)
    ensures
        final(v)@ == old(v)@ + bullets(crate::text::string_views(items@)),
{
    let ghost start = v@;
    let ghost iv = crate::text::string_views(items@);
    let mut i: usize = 0;
    while i < items.len()
        invariant
            i <= items.len(),
            iv == crate::text::string_views(items@),
            v@ == start + bullets(iv.take(i as int)),
        decreases items.len() - i,
    {
        assert(iv.take(i + 1).drop_last() =~= iv.take(i as int));
        assert(iv.take(i + 1).last() == items@[i as int]@);
        extend_str(v, "- ");
        extend_chars(v, &crate::text::collapse_ws_chars(&chars_of(items[i].as_str())));
        extend_str(v, "\n");
        i = i + 1;
    }
    assert(iv.take(items.len() as int) =~= iv);
}

fn extend_file_bullets(v: &mut Vec<char>, items: &Vec<String>)
    ensures
        final(v)@ == old(v)@ + file_bullets(crate::text::string_views(items@)),
{
    let ghost start = v@;
    let ghost iv = crate::text::string_views(items@);
    let mut i: usize = 0;
    while i < items.len()
        invariant
            i <= items.len(),
            iv == crate::text::string_views(items@),
            v@ == start + file_bullets(iv.take(i as int)),
        decreases items.len() - i,
    {
        assert(iv.take(i + 1).drop_last() =~= iv.take(i as int));
        assert(iv.take(i + 1).last() == items@[i as int]@);
        extend_str(v, "- `");
        extend_str(v, items[i].as_str());
        extend_str(v, "`\n");
        i = i + 1;
    }
    assert(iv.take(items.len() as int) =~= iv);
}

/// The page text of a crystallized session: title `结晶: <question on one
/// line>`, the markdown, and the lessons as candidate claims.
pub fn draft_from_session(input: SessionCrystallizationInput) -> (r: CrystallizationDraft)
    ensures
        r.title@ == "结晶: "@ + one_line(input.question@),
        r.markdown@ == crystallized_markdown(input),
        r.claim_candidates@ == input.lessons@,
        r.scope == input.scope,
        r.outbound_page_titles@.len() == 0,
{
    let mut title = chars_of("结晶: ");
    extend_chars(&mut title, &crate::text::collapse_ws_chars(&chars_of(input.question.as_str())));
    let mut md = chars_of("# 问题\n\n");
    extend_str(&mut md, input.question.as_str());
    extend_str(&mut md, "\n\n## 结论与发现\n\n");
    extend_bullets(&mut md, &input.findings);
    if input.files_touched.len() > 0 {
        extend_str(&mut md, "\n## 涉及文件\n\n");
        extend_file_bullets(&mut md, &input.files_touched);
    }
    if input.lessons.len() > 0 {
        extend_str(&mut md, "\n## 可复用教训\n\n");
        extend_bullets(&mut md, &input.lessons);
    }
    CrystallizationDraft {
        title: string_of(&title),
        markdown: string_of(&md),
        claim_candidates: input.lessons,
        scope: input.scope,
        outbound_page_titles: Vec::new(),
    }
}

// ───────────────────────── what redaction leaves ─────────────────────────

/// Whether a text holds a character.
pub open spec fn has_char(s: Seq<char>, c: char) -> bool {
    exists|i: int| 0 <= i < s.len() && s[i] == c
}

proof fn lemma_split_single(x: Seq<char>, sep: char)
    requires
        !has_char(x, sep),
    ensures
        split_char(x, sep) == seq![x],
    decreases x.len(),
{
    if x.len() == 0 {
        assert(x =~= Seq::<char>::empty());
        assert(split_char(x, sep) =~= seq![x]);
    } else {
        assert(!has_char(x.drop_last(), sep)) by {
            if has_char(x.drop_last(), sep) {
                let i = choose|i: int| 0 <= i < x.drop_last().len() && x.drop_last()[i] == sep;
                assert(x[i] == sep);
            }
        }
        lemma_split_single(x.drop_last(), sep);
        assert(x.last() != sep) by {
            if x.last() == sep {
                assert(x[x.len() - 1] == sep);
            }
        }
        assert(x.drop_last().push(x.last()) =~= x);
        let parts = split_char(x.drop_last(), sep);
        assert(parts.last() == x.drop_last());
        assert(parts.update(parts.len() - 1, parts.last().push(x.last())) =~= seq![x]);
        assert(split_char(x, sep) =~= seq![x]);
    }
}

proof fn lemma_split_after_sep(a: Seq<char>, x: Seq<char>, sep: char)
    requires
        !has_char(x, sep),
    ensures
        split_char(a + seq![sep] + x, sep) == split_char(a, sep).push(x),
    decreases x.len(),
{
    if x.len() == 0 {
        assert(x =~= Seq::<char>::empty());
        assert(a + seq![sep] + x =~= a.push(sep));
        assert((a + seq![sep] + x).drop_last() =~= a);
        assert(split_char(a + seq![sep] + x, sep) =~= split_char(a, sep).push(x));
    } else {
        let y = x.drop_last();
        assert(!has_char(y, sep)) by {
            if has_char(y, sep) {
                let i = choose|i: int| 0 <= i < y.len() && y[i] == sep;
                assert(x[i] == sep);
            }
        }
        lemma_split_after_sep(a, y, sep);
        assert(x.last() != sep) by {
            if x.last() == sep {
                assert(x[x.len() - 1] == sep);
            }
        }
        let s = a + seq![sep] + x;
        assert(s.drop_last() =~= a + seq![sep] + y);
        assert(s.last() == x.last());
        assert(y.push(x.last()) =~= x);
        let parts = split_char(a + seq![sep] + y, sep);
        assert(parts == split_char(a, sep).push(y));
        assert(parts.last() == y);
        assert(parts.update(parts.len() - 1, parts.last().push(x.last())) =~= split_char(a, sep).push(x));
        assert(split_char(s, sep) =~= split_char(a, sep).push(x));
    }
}

/// Every piece of a text split at `sep` is free of `sep`.
proof fn lemma_split_pieces_free(s: Seq<char>, sep: char, k: int)
    requires
        0 <= k < split_char(s, sep).len(),
    ensures
        !has_char(split_char(s, sep)[k], sep),
        split_char(s, sep).len() >= 1,
    decreases s.len(),
{
    if s.len() == 0 {
    } else {
        let parts = split_char(s.drop_last(), sep);
        crate::text::lemma_split_char_nonempty(s.drop_last(), sep);
        if s.last() == sep {
            if k < parts.len() {
                lemma_split_pieces_free(s.drop_last(), sep, k);
            }
        } else {
            let last = parts.last().push(s.last());
            if k < parts.len() - 1 {
                lemma_split_pieces_free(s.drop_last(), sep, k);
            } else {
                lemma_split_pieces_free(s.drop_last(), sep, parts.len() - 1);
                assert(!has_char(last, sep)) by {
                    if has_char(last, sep) {
                        let i = choose|i: int| 0 <= i < last.len() && last[i] == sep;
                        if i < last.len() - 1 {
                            assert(parts.last()[i] == sep);
                        }
                    }
                }
            }
        }
    }
}

/// Pieces of text glued with `\n`, none holding `\n`, split again at `\n`:
/// each piece is one of the parts, or empty.
proof fn lemma_split_glue(ps: Seq<Seq<char>>, k: int)
    requires
        forall|i: int| 0 <= i < ps.len() ==> !has_char(#[trigger] ps[i], '\n'),
        0 <= k < split_char(glue(ps), '\n').len(),
    ensures
        split_char(glue(ps), '\n')[k].len() == 0 || exists|i: int|
            0 <= i < ps.len() && #[trigger] ps[i] == split_char(glue(ps), '\n')[k],
    decreases ps.len(),
{
    if ps.len() == 0 {
        assert(split_char(glue(ps), '\n') =~= seq![Seq::<char>::empty()]);
    } else {
        let pre = ps.drop_last();
        let a = glue(pre);
        let x = ps.last();
        assert(!has_char(x, '\n')) by {
            assert(ps[ps.len() - 1] == x);
        }
        assert forall|i: int| 0 <= i < pre.len() implies !has_char(#[trigger] pre[i], '\n') by {
            assert(pre[i] == ps[i]);
        }
        if a.len() == 0 {
            lemma_split_single(x, '\n');
            assert(ps[ps.len() - 1] == split_char(glue(ps), '\n')[k]);
        } else {
            assert(a + "\n"@ + x =~= a + seq!['\n'] + x) by {
                reveal_strlit("\n");
            }
            lemma_split_after_sep(a, x, '\n');
            let sp = split_char(a, '\n');
            if k < sp.len() {
                lemma_split_glue(pre, k);
                if split_char(a, '\n')[k].len() != 0 {
                    let i = choose|i: int| 0 <= i < pre.len() && #[trigger] pre[i] == split_char(a, '\n')[k];
                    assert(ps[i] == pre[i]);
                }
            } else {
                assert(ps[ps.len() - 1] == split_char(glue(ps), '\n')[k]);
            }
        }
    }
}


proof fn lemma_lead_ws_facts(s: Seq<char>)
    ensures
        lead_ws(s) <= s.len(),
        forall|i: int| 0 <= i < lead_ws(s) ==> is_ws(#[trigger] s[i]),
        lead_ws(s) < s.len() ==> !is_ws(s[lead_ws(s) as int]),
    decreases s.len(),
{
    if s.len() > 0 && is_ws(s[0]) {
        lemma_lead_ws_facts(s.drop_first());
        assert forall|i: int| 0 <= i < lead_ws(s) implies is_ws(#[trigger] s[i]) by {
            if i > 0 {
                assert(s[i] == s.drop_first()[i - 1]);
            }
        }
        if lead_ws(s) < s.len() {
            assert(s[lead_ws(s) as int] == s.drop_first()[lead_ws(s.drop_first()) as int]);
        }
    }
}

proof fn lemma_lead_ws_unique(s: Seq<char>, n: nat)
    requires
        n <= s.len(),
        forall|i: int| 0 <= i < n ==> is_ws(#[trigger] s[i]),
        n < s.len() ==> !is_ws(s[n as int]),
    ensures
        lead_ws(s) == n,
    decreases s.len(),
{
    if n > 0 {
        assert(is_ws(s[0]));
        assert forall|i: int| 0 <= i < n - 1 implies is_ws(#[trigger] s.drop_first()[i]) by {
            assert(s.drop_first()[i] == s[i + 1]);
        }
        if n - 1 < s.drop_first().len() {
            assert(s.drop_first()[n - 1] == s[n as int]);
        }
        lemma_lead_ws_unique(s.drop_first(), (n - 1) as nat);
    }
}

proof fn lemma_trail_ws_bound(s: Seq<char>)
    ensures
        trail_ws(s) <= s.len(),
    decreases s.len(),
{
    if s.len() > 0 && is_ws(s.last()) {
        lemma_trail_ws_bound(s.drop_last());
    }
}

/// Dropping a trailing blank does not change the trimmed text.
proof fn lemma_trim_drop_ws(s: Seq<char>)
    requires
        s.len() > 0,
        is_ws(s.last()),
    ensures
        trim(s.drop_last()) == trim(s),
{
    let d = s.drop_last();
    lemma_lead_ws_facts(s);
    let l = lead_ws(s);
    if l < s.len() {
        assert(l < s.len() - 1) by {
            if l == s.len() - 1 {
                assert(s[l as int] == s.last());
            }
        }
        assert forall|i: int| 0 <= i < l implies is_ws(#[trigger] d[i]) by {
            assert(d[i] == s[i]);
        }
        assert(d[l as int] == s[l as int]);
        lemma_lead_ws_unique(d, l);
        let u = s.skip(l as int);
        assert(d.skip(l as int) =~= u.drop_last());
        assert(u.last() == s.last());
        lemma_trail_ws_bound(u.drop_last());
        assert(trail_ws(u) == 1 + trail_ws(u.drop_last()));
        assert(u.drop_last().take(u.drop_last().len() - trail_ws(u.drop_last())) =~= u.take(
            u.len() - trail_ws(u),
        ));
    } else {
        assert forall|i: int| 0 <= i < d.len() implies is_ws(#[trigger] d[i]) by {
            assert(d[i] == s[i]);
        }
        lemma_lead_ws_unique(d, d.len());
        assert(trim_start(d) =~= Seq::<char>::empty());
        assert(trim_start(s) =~= Seq::<char>::empty());
    }
}

/// A line's secret does not depend on a carriage return at its end.
proof fn lemma_secret_strip_cr(x: Seq<char>)
    ensures
        line_secret(strip_cr(x)) == line_secret(x),
{
    if x.len() > 0 && x.last() == '\r' {
        lemma_trim_drop_ws(x);
    }
}

proof fn lemma_missing_char(hay: Seq<char>, needle: Seq<char>, j: int)
    requires
        0 <= j < needle.len(),
        forall|i: int| 0 <= i < hay.len() ==> hay[i] != needle[j],
    ensures
        !contains(hay, needle),
{
    if contains(hay, needle) {
        let i = choose|i: int| occurs_at(hay, needle, i);
        assert(hay.subrange(i, i + needle.len())[j] == needle[j]);
        assert(hay[i + j] == needle[j]);
    }
}

proof fn lemma_no_prefix(s: Seq<char>, p: Seq<char>)
    requires
        s.len() > 0,
        p.len() > 0,
        s[0] != p[0],
    ensures
        !starts_with(s, p),
{
    if starts_with(s, p) {
        assert(s.take(p.len() as int)[0] == p[0]);
    }
}

proof fn lemma_bracketed_clean(p: Seq<char>)
    requires
        p.len() > 2,
        p[0] == '[',
        p.last() == ']',
        forall|i: int| 0 <= i < p.len() ==> p[i] != 'K' && p[i] != 'O' && p[i] != 'p' && p[i] != '\n',
    ensures
        line_secret(p) is None,
        !has_char(p, '\n'),
{
    lemma_lead_ws_unique(p, 0);
    assert(p.skip(0) =~= p);
    assert(trail_ws(p) == 0);
    assert(p.take(p.len() as int) =~= p);
    assert(trim(p) == p);
    let lower = ascii_lower(p);
    assert(lower[0] == '[');
    reveal_strlit("authorization:");
    reveal_strlit("bearer ");
    reveal_strlit("AKIA");
    reveal_strlit("api_key");
    reveal_strlit("BEGIN RSA PRIVATE KEY");
    reveal_strlit("DO_NOT_COMMIT");
    lemma_no_prefix(lower, "authorization:"@);
    lemma_no_prefix(lower, "bearer "@);
    lemma_missing_char(p, "AKIA"@, 1);
    lemma_missing_char(p, "api_key"@, 1);
    lemma_missing_char(p, "BEGIN RSA PRIVATE KEY"@, 18);
    lemma_missing_char(p, "DO_NOT_COMMIT"@, 1);
}

/// A placeholder is never itself taken for a secret.
proof fn lemma_placeholder_clean(k: SensitiveKind)
    ensures
        line_secret(placeholder(k)) is None,
        !has_char(placeholder(k), '\n'),
{
    reveal_strlit("[REDACTED_BEARER]");
    reveal_strlit("[REDACTED_SECRET]");
    reveal_strlit("[REDACTED_PRIVATE]");
    lemma_bracketed_clean(placeholder(k));
}

proof fn lemma_empty_clean(q: Seq<char>)
    requires
        q.len() == 0,
    ensures
        line_secret(q) is None,
{
    lemma_lead_ws_unique(q, 0);
    assert(trim(q) =~= Seq::<char>::empty()) by {
        assert(q.skip(0) =~= q);
    }
    reveal_strlit("authorization:");
    reveal_strlit("bearer ");
    reveal_strlit("AKIA");
    reveal_strlit("api_key");
    reveal_strlit("BEGIN RSA PRIVATE KEY");
    reveal_strlit("PRIVATE");
    let t = trim(q);
    assert(!starts_with(ascii_lower(t), "authorization:"@));
    assert(!starts_with(ascii_lower(t), "bearer "@));
    assert(!contains(t, "AKIA"@));
    assert(!contains(t, "api_key"@));
    assert(!contains(t, "BEGIN RSA PRIVATE KEY"@));
    assert(!contains(t, "PRIVATE"@));
}

/// The text `redact_for_ingest` makes of an input.
pub open spec fn redacted_text(input: Seq<char>) -> Seq<char> {
    glue(lines(input).map_values(|l: Seq<char>| redacted_line(l)))
}

/// What redaction leaves holds no secret: no line of the redacted text is
/// taken for a bearer token, an API key or a private marker.
pub proof fn lemma_redaction_leaves_no_secret(input: Seq<char>)
    ensures
        forall|k: int| 0 <= k < lines(redacted_text(input)).len() ==> line_secret(#[trigger] lines(redacted_text(input))[k]) is None,
{
    let ls = lines(input);
    let ps = ls.map_values(|l: Seq<char>| redacted_line(l));
    let parts = split_char(input, '\n');
    crate::text::lemma_split_char_nonempty(input, '\n');
    assert forall|i: int| 0 <= i < ps.len() implies !has_char(#[trigger] ps[i], '\n') && line_secret(ps[i]) is None by {
        let l = ls[i];
        assert(!has_char(l, '\n')) by {
            if i < parts.len() - 1 {
                lemma_split_pieces_free(input, '\n', i);
                assert(l == strip_cr(parts[i]));
                if has_char(l, '\n') {
                    let j = choose|j: int| 0 <= j < l.len() && l[j] == '\n';
                    assert(parts[i][j] == '\n');
                }
            } else {
                lemma_split_pieces_free(input, '\n', parts.len() - 1);
                assert(l == parts.last());
            }
        }
        match line_secret(l) {
            Some(kind) => {
                lemma_placeholder_clean(kind);
            },
            None => {},
        }
    }
    let out = redacted_text(input);
    let qs = split_char(out, '\n');
    crate::text::lemma_split_char_nonempty(out, '\n');
    assert forall|k: int| 0 <= k < lines(out).len() implies line_secret(#[trigger] lines(out)[k]) is None by {
        let q = qs[k];
        lemma_split_glue(ps, k);
        if q.len() == 0 {
            lemma_empty_clean(q);
        } else {
            let i = choose|i: int| 0 <= i < ps.len() && #[trigger] ps[i] == q;
            assert(line_secret(ps[i]) is None);
        }
        assert(line_secret(q) is None);
        lemma_secret_strip_cr(q);
        if k < qs.len() - 1 {
            assert(lines(out)[k] == strip_cr(qs[k]));
        } else {
            assert(lines(out)[k] == qs.last());
        }
        assert(line_secret(lines(out)[k]) is None);
    }
}


} // verus!
