//! Wiki kernel helpers: keyword matching used by search and lint, and the
//! markdown projections written to disk (index, lint report).
use crate::text::{
    ascii_lower, ascii_lower_chars, ascii_lower_char, chars_of, contains, contains_exec, dec,
    ends_with, ends_with_str, extend_chars, extend_dec, extend_str, is_ascii_alnum, is_ascii_ws,
    string_of, string_views, take_chars, take_chars_exec, trim, trim_chars, utf8_len, utf8_len_exec,
    views,
};
use crate::unicode::{char_alphanumeric, is_alphanumeric};
use crate::wiki_core::{LintFinding, LintSeverity, WikiEvent};
use vstd::prelude::*;
use vstd::string::StringExecFns;

verus! {

broadcast use vstd::string::group_string_axioms;

// ───────────────────────── search ports ─────────────────────────

/// The three ranked retrieval paths (keyword, vector, graph) of hybrid search;
/// doc ids are prefixed `claim:`, `page:` or `entity:`.
pub trait SearchPorts {
    fn bm25_ranked_ids(&self, query: &str, limit: usize) -> Vec<String>;

    fn vector_ranked_ids(&self, query: &str, limit: usize) -> Vec<String>;

    fn graph_ranked_ids(&self, query: &str, limit: usize) -> Vec<String>;
}

/// Retrieval paths that find nothing.
#[derive(Debug, Default, Clone, Copy)]
pub struct EmptySearchPorts;

impl SearchPorts for EmptySearchPorts {
    fn bm25_ranked_ids(&self, query: &str, limit: usize) -> (r: Vec<String>)
        ensures
            r@.len() == 0,
    {
        Vec::new()
    }

    fn vector_ranked_ids(&self, query: &str, limit: usize) -> (r: Vec<String>)
        ensures
            r@.len() == 0,
    {
        Vec::new()
    }

    fn graph_ranked_ids(&self, query: &str, limit: usize) -> (r: Vec<String>)
        ensures
            r@.len() == 0,
    {
        Vec::new()
    }
}

/// Receives each event the kernel emits (an outbox writer, a log, a
/// memory engine).
pub trait WikiHook {
    fn on_event(&mut self, event: &WikiEvent);
}

/// Event hook that ignores every event.
#[derive(Debug, Default)]
pub struct NoopWikiHook;

impl WikiHook for NoopWikiHook {
    fn on_event(&mut self, event: &WikiEvent) {
    }
}

// ───────────────────────── word splitting ─────────────────────────

/// Whether a character separates words: not alphanumeric (and, when
/// `underscore` is set, not `_` either).
pub open spec fn is_separator(c: char, underscore: bool) -> bool {
    !char_alphanumeric(c) && !(underscore && c == '_')
}

/// Pieces between separators (`str::split` with a character predicate),
/// empty pieces included.
pub open spec fn split_words(s: Seq<char>, underscore: bool) -> Seq<Seq<char>>
    decreases s.len(),
{
    if s.len() == 0 {
        seq![seq![]]
    } else {
        let parts = split_words(s.drop_last(), underscore);
        if is_separator(s.last(), underscore) {
            parts.push(seq![])
        } else {
            parts.update(parts.len() - 1, parts.last().push(s.last()))
        }
    }
}

proof fn lemma_split_words_nonempty(s: Seq<char>, underscore: bool)
    ensures
        split_words(s, underscore).len() >= 1,
    decreases s.len(),
{
    if s.len() > 0 {
        lemma_split_words_nonempty(s.drop_last(), underscore);
    }
}

fn split_words_exec(s: &[char], underscore: bool) -> (r: Vec<Vec<char>>)
    ensures
        views(r@) == split_words(s@, underscore),
{
    let mut out: Vec<Vec<char>> = Vec::new();
    let mut cur: Vec<char> = Vec::new();
    let mut i: usize = 0;
    while i < s.len()
        invariant
            i <= s.len(),
            views(out@).push(cur@) == split_words(s@.take(i as int), underscore),
        decreases s.len() - i,
    {
        let ghost p = s@.take(i as int);
        let ghost q = s@.take(i + 1);
        assert(q.drop_last() =~= p);
        assert(q.last() == s@[i as int]);
        proof {
            lemma_split_words_nonempty(p, underscore);
        }
        let c = s[i];
        let sep = !is_alphanumeric(c) && !(underscore && c == '_');
        if sep {
            let done = cur;
            out.push(done);
            cur = Vec::new();
            assert(views(out@).push(cur@) =~= split_words(p, underscore).push(seq![]));
        } else {
            let ghost parts = split_words(p, underscore);
            cur.push(c);
            assert(views(out@).push(cur@) =~= parts.update(parts.len() - 1, parts.last().push(c)));
        }
        i = i + 1;
    }
    assert(s@.take(s.len() as int) =~= s@);
    out.push(cur);
    out
}

/// Search tokens of a query: pieces between non-alphanumeric characters
/// longer than one byte, ASCII-lowercased.
pub open spec fn query_token_list(q: Seq<char>) -> Seq<Seq<char>> {
    lowered(split_words(q, false).filter(multi_byte()))
}

/// Whether a piece is longer than one byte.
pub open spec fn multi_byte() -> spec_fn(Seq<char>) -> bool {
    |w: Seq<char>| utf8_len(w) > 1
}

/// Each piece ASCII-lowercased.
pub open spec fn lowered(s: Seq<Seq<char>>) -> Seq<Seq<char>> {
    s.map_values(|w: Seq<char>| ascii_lower(w))
}

/// Search tokens of a query.
pub fn query_tokens(query: &str) -> (r: Vec<String>)
    ensures
        string_views(r@) == query_token_list(query@),
{
    let s = chars_of(query);
    let parts = split_words_exec(&s, false);
    let mut out: Vec<String> = Vec::new();
    let ghost pv = views(parts@);
    let mut i: usize = 0;
    while i < parts.len()
        invariant
            i <= parts.len(),
            pv == views(parts@),
            pv == split_words(query@, false),
            s@ == query@,
            string_views(out@) == lowered(pv.take(i as int).filter(multi_byte())),
        decreases parts.len() - i,
    {
        let w = &parts[i];
        assert(pv[i as int] == w@);
        let ghost pre = pv.take(i as int);
        assert(pv.take(i + 1) =~= pre.push(w@));
        assert(pv.take(i + 1).filter(multi_byte()) == if utf8_len(w@) > 1 {
            pre.filter(multi_byte()).push(w@)
        } else {
            pre.filter(multi_byte())
        }) by {
            pre.lemma_filter_push(w@, multi_byte());
        }
        let long = match utf8_len_exec(w) {
            Some(n) => n > 1,
            None => true,
        };
        if long {
            let l = ascii_lower_chars(w);
            let ghost before = string_views(out@);
            out.push(string_of(&l));
            assert(string_views(out@) =~= before.push(l@));
        }
        assert(string_views(out@) =~= lowered(pv.take(i + 1).filter(multi_byte())));
        i = i + 1;
    }
    assert(pv.take(parts.len() as int) =~= pv);
    out
}

/// Number of tokens a text contains.
pub open spec fn token_hits(hay: Seq<char>, tokens: Seq<Seq<char>>) -> nat
    decreases tokens.len(),
{
    if tokens.len() == 0 {
        0
    } else {
        token_hits(hay, tokens.drop_last()) + if contains(hay, tokens.last()) {
            1nat
        } else {
            0nat
        }
    }
}

/// Number of tokens a (lowercased) text contains.
pub fn score_text_lc(haystack_lc: &str, tokens: &[String]) -> (r: usize)
    ensures
        r == token_hits(haystack_lc@, string_views(tokens@)),
{
    let h = chars_of(haystack_lc);
    let mut n: usize = 0;
    let mut i: usize = 0;
    while i < tokens.len()
        invariant
            i <= tokens.len(),
            h@ == haystack_lc@,
            n == token_hits(haystack_lc@, string_views(tokens@).take(i as int)),
            n <= i,
        decreases tokens.len() - i,
    {
        let t = chars_of(tokens[i].as_str());
        let ghost pre = string_views(tokens@).take(i as int);
        assert(string_views(tokens@).take(i + 1).drop_last() =~= pre);
        assert(string_views(tokens@).take(i + 1).last() == tokens@[i as int]@);
        if contains_exec(&h, &t) {
            n = n + 1;
        }
        i = i + 1;
    }
    assert(string_views(tokens@).take(tokens.len() as int) =~= string_views(tokens@));
    n
}

/// Whether two claims look contradictory ("不是" against "是", "cannot"
/// against "can ").
pub open spec fn contradicts(a: Seq<char>, b: Seq<char>) -> bool {
    let la = ascii_lower(a);
    let lb = ascii_lower(b);
    ||| (contains(la, "不是"@) && contains(lb, "是"@))
    ||| (contains(lb, "不是"@) && contains(la, "是"@))
    ||| (contains(la, "cannot"@) && contains(lb, "can "@))
    ||| (contains(lb, "cannot"@) && contains(la, "can "@))
}

/// ASCII lowercasing leaves an occurrence of a text without ASCII capitals in place.
proof fn lemma_lower_keeps_occurrence(s: Seq<char>, t: Seq<char>)
    requires
        contains(s, t),
        forall|k: int| 0 <= k < t.len() ==> !crate::text::is_ascii_upper(#[trigger] t[k]),
    ensures
        contains(ascii_lower(s), t),
{
    let i = choose|i: int| crate::text::occurs_at(s, t, i);
    assert(ascii_lower(s).subrange(i, i + t.len()) =~= t) by {
        assert forall|k: int| 0 <= k < t.len() implies ascii_lower(s).subrange(i, i + t.len())[k] == t[k] by {
            assert(s.subrange(i, i + t.len())[k] == t[k]);
            assert(s[i + k] == t[k]);
        }
    }
    assert(crate::text::occurs_at(ascii_lower(s), t, i));
}

/// The contradiction test does not depend on which claim comes first; a
/// claim saying "是" and one saying "不是" contradict each other, and so do
/// one saying "can " and one saying "cannot", in either order.
pub proof fn lemma_contradiction_symmetric(a: Seq<char>, b: Seq<char>)
    ensures
        contradicts(a, b) == contradicts(b, a),
        contains(a, "是"@) && contains(b, "不是"@) ==> contradicts(a, b) && contradicts(b, a),
        contains(a, "can "@) && contains(b, "cannot"@) ==> contradicts(a, b) && contradicts(b, a),
{
    reveal_strlit("是");
    reveal_strlit("不是");
    reveal_strlit("can ");
    reveal_strlit("cannot");
    if contains(a, "是"@) && contains(b, "不是"@) {
        lemma_lower_keeps_occurrence(a, "是"@);
        lemma_lower_keeps_occurrence(b, "不是"@);
    }
    if contains(a, "can "@) && contains(b, "cannot"@) {
        lemma_lower_keeps_occurrence(a, "can "@);
        lemma_lower_keeps_occurrence(b, "cannot"@);
    }
}

/// Whether two claims look contradictory.
pub fn contradicts_heuristic(a: &str, b: &str) -> (r: bool)
    ensures
        r == contradicts(a@, b@),
{
    let la = ascii_lower_chars(&chars_of(a));
    let lb = ascii_lower_chars(&chars_of(b));
    (crate::text::contains_str(&la, "不是") && crate::text::contains_str(&lb, "是")) || (
    crate::text::contains_str(&lb, "不是") && crate::text::contains_str(&la, "是")) || (
    crate::text::contains_str(&la, "cannot") && crate::text::contains_str(&lb, "can ")) || (
    crate::text::contains_str(&lb, "cannot") && crate::text::contains_str(&la, "can "))
}

/// Keywords of a claim: pieces between characters that are neither
/// alphanumeric nor `_`, trimmed and ASCII-lowercased, of at least four bytes.
pub open spec fn claim_keys(claim: Seq<char>) -> Seq<Seq<char>> {
    long_keys(split_words(claim, true).map_values(|w: Seq<char>| ascii_lower(trim(w))))
}

/// Whether a keyword is long enough to count (at least four bytes).
pub open spec fn long_key() -> spec_fn(Seq<char>) -> bool {
    |k: Seq<char>| utf8_len(k) >= 4
}

/// The keywords of at least four bytes, in order.
pub open spec fn long_keys(s: Seq<Seq<char>>) -> Seq<Seq<char>> {
    s.filter(long_key())
}

/// Whether the pages mention the claim: true when it has no keyword, else
/// when some keyword occurs in the page text.
pub open spec fn has_page_reference(claim: Seq<char>, page_text: Seq<char>) -> bool {
    let keys = claim_keys(claim);
    keys.len() == 0 || exists|i: int| 0 <= i < keys.len() && contains(page_text, #[trigger] keys[i])
}

/// Whether the pages mention a claim's keywords.
pub fn claim_has_page_reference(claim_text: &str, page_text: &str) -> (r: bool)
    ensures
        r == has_page_reference(claim_text@, page_text@),
{
    let c = chars_of(claim_text);
    let p = chars_of(page_text);
    let parts = split_words_exec(&c, true);
    let ghost pv = views(parts@);
    let ghost mapped = pv.map_values(|w: Seq<char>| ascii_lower(trim(w)));
    let mut n_keys: usize = 0;
    let mut i: usize = 0;
    while i < parts.len()
        invariant
            i <= parts.len(),
            pv == views(parts@),
            pv == split_words(claim_text@, true),
            mapped == pv.map_values(|w: Seq<char>| ascii_lower(trim(w))),
            p@ == page_text@,
            n_keys == long_keys(mapped.take(i as int)).len(),
            forall|j: int|
                0 <= j < long_keys(mapped.take(i as int)).len()
                    ==> !contains(
                    page_text@,
                    #[trigger] long_keys(mapped.take(i as int))[j],
                ),
        decreases parts.len() - i,
    {
        let w = &parts[i];
        assert(pv[i as int] == w@);
        let t = trim_chars(w);
        let k = ascii_lower_chars(&t);
        assert(mapped[i as int] == k@);
        let ghost pre = mapped.take(i as int);
        assert(mapped.take(i + 1) =~= pre.push(k@));
        proof {
            pre.lemma_filter_push(k@, long_key());
        }
        let long = match utf8_len_exec(&k) {
            Some(n) => n >= 4,
            None => true,
        };
        if long {
            if contains_exec(&p, &k) {
                proof {
                    let f = long_keys(mapped.take(i + 1));
                    assert(f.last() == k@);
                    let keys = claim_keys(claim_text@);
                    assert(keys =~= long_keys(mapped));
                    lemma_filter_prefix(mapped, i + 1, long_key());
                    assert(keys[f.len() - 1] == k@);
                }
                return true;
            }
            n_keys = n_keys + 1;
        }
        i = i + 1;
    }
    proof {
        assert(mapped.take(parts.len() as int) =~= mapped);
        let keys = claim_keys(claim_text@);
        assert(keys =~= long_keys(mapped));
    }
    n_keys == 0
}

/// A filtered prefix is a prefix of the filtered sequence.
proof fn lemma_filter_prefix(s: Seq<Seq<char>>, k: int, pred: spec_fn(Seq<char>) -> bool)
    requires
        0 <= k <= s.len(),
    ensures
        s.take(k).filter(pred).len() <= s.filter(pred).len(),
        forall|j: int|
            0 <= j < s.take(k).filter(pred).len() ==> #[trigger] s.take(k).filter(pred)[j] == s.filter(
                pred,
            )[j],
    decreases s.len() - k,
{
    if k < s.len() {
        lemma_filter_prefix(s, k + 1, pred);
        assert(s.take(k + 1) =~= s.take(k).push(s[k]));
        s.take(k).lemma_filter_push(s[k], pred);
        let a = s.take(k).filter(pred);
        let b = s.take(k + 1).filter(pred);
        assert forall|j: int| 0 <= j < a.len() implies #[trigger] a[j] == s.filter(pred)[j] by {
            assert(a[j] == b[j]);
        }
    } else {
        assert(s.take(k) =~= s);
    }
}

// ───────────────────────── projections ─────────────────────────

/// Counts of what a projection wrote.
#[derive(Debug, Default, Clone, Copy)]
pub struct ProjectionStats {
    pub pages_written: usize,
    pub claims_written: usize,
    pub sources_written: usize,
}

/// Rows each followed by a line break, or the empty marker.
pub open spec fn index_section(rows: Seq<Seq<char>>) -> Seq<char> {
    if rows.len() == 0 {
        "- (empty)\n"@
    } else {
        lines_text(rows)
    }
}

/// Rows each followed by a line break.
pub open spec fn lines_text(rows: Seq<Seq<char>>) -> Seq<char>
    decreases rows.len(),
{
    if rows.len() == 0 {
        seq![]
    } else {
        lines_text(rows.drop_last()) + rows.last() + "\n"@
    }
}

/// The index page of a projection.
pub open spec fn index_text(pages: Seq<Seq<char>>, claims: Seq<Seq<char>>, sources: Seq<Seq<char>>) -> Seq<char> {
    "# index\n\n## pages\n\n"@ + index_section(pages) + "\n## concepts\n\n"@ + index_section(claims)
        + "\n## sources\n\n"@ + index_section(sources)
}

fn extend_section(v: &mut Vec<char>, rows: &[String])
    ensures
        final(v)@ == old(v)@ + index_section(string_views(rows@)),
{
    if rows.len() == 0 {
        extend_str(v, "- (empty)\n");
        return;
    }
    let ghost start = v@;
    let mut i: usize = 0;
    while i < rows.len()
        invariant
            i <= rows.len(),
            v@ == start + lines_text(string_views(rows@).take(i as int)),
        decreases rows.len() - i,
    {
        let ghost pre = string_views(rows@).take(i as int);
        assert(string_views(rows@).take(i + 1).drop_last() =~= pre);
        assert(string_views(rows@).take(i + 1).last() == rows@[i as int]@);
        extend_str(v, rows[i].as_str());
        extend_str(v, "\n");
        assert(start + lines_text(string_views(rows@).take(i + 1)) =~= start + lines_text(pre)
            + rows@[i as int]@ + "\n"@);
        i = i + 1;
    }
    assert(string_views(rows@).take(rows.len() as int) =~= string_views(rows@));
}

/// The index page listing pages, concepts (claims) and sources.
pub fn render_index(pages: &[String], claims: &[String], sources: &[String]) -> (r: String)
    ensures
        r@ == index_text(string_views(pages@), string_views(claims@), string_views(sources@)),
{
    let mut v = chars_of("# index\n\n## pages\n\n");
    extend_section(&mut v, pages);
    extend_str(&mut v, "\n## concepts\n\n");
    extend_section(&mut v, claims);
    extend_str(&mut v, "\n## sources\n\n");
    extend_section(&mut v, sources);
    string_of(&v)
}

/// Slug characters: ASCII letters and digits lowercased, ASCII whitespace,
/// `-` and `_` turned into `-`, everything else dropped.
pub open spec fn slug_chars(s: Seq<char>) -> Seq<char>
    decreases s.len(),
{
    if s.len() == 0 {
        seq![]
    } else {
        let prev = slug_chars(s.drop_last());
        let c = s.last();
        if is_ascii_alnum(c) {
            prev.push(ascii_lower_char(c))
        } else if is_ascii_ws(c) || c == '-' || c == '_' {
            prev.push('-')
        } else {
            prev
        }
    }
}

/// Number of leading `c`.
pub open spec fn lead_count(s: Seq<char>, c: char) -> nat
    decreases s.len(),
{
    if s.len() > 0 && s[0] == c {
        1 + lead_count(s.drop_first(), c)
    } else {
        0
    }
}

/// `str::trim_matches('-')`.
pub open spec fn trim_dashes(s: Seq<char>) -> Seq<char> {
    let a = s.skip(lead_count(s, '-') as int);
    let b = a.reverse();
    a.take(a.len() - lead_count(b, '-'))
}

/// File name of a page: its slug, or the first eight characters of the
/// fallback when the slug is empty.
pub open spec fn slug_text(title: Seq<char>, fallback: Seq<char>) -> Seq<char> {
    let s = trim_dashes(slug_chars(title));
    if s.len() == 0 {
        take_chars(fallback, 8)
    } else {
        s
    }
}

fn lead_count_exec(s: &[char], c: char) -> (r: usize)
    ensures
        r == lead_count(s@, c),
        r <= s.len(),
{
    let mut i: usize = 0;
    while i < s.len() && s[i] == c
        invariant
            i <= s.len(),
            forall|k: int| 0 <= k < i ==> s@[k] == c,
        decreases s.len() - i,
    {
        i = i + 1;
    }
    proof {
        lemma_lead_count(s@, c, i as int);
    }
    i
}

proof fn lemma_lead_count(s: Seq<char>, c: char, i: int)
    requires
        0 <= i <= s.len(),
        forall|k: int| 0 <= k < i ==> s[k] == c,
        i == s.len() || s[i] != c,
    ensures
        lead_count(s, c) == i,
    decreases i,
{
    if i > 0 {
        let t = s.drop_first();
        assert forall|k: int| 0 <= k < i - 1 implies t[k] == c by {
            assert(t[k] == s[k + 1]);
        }
        if i < s.len() {
            assert(t[i - 1] == s[i]);
        }
        lemma_lead_count(t, c, i - 1);
    }
}

/// Leading and trailing `-` removed.
pub fn trim_dashes_exec(s: &[char]) -> (r: Vec<char>)
    ensures
        r@ == trim_dashes(s@),
{
    let a0 = lead_count_exec(s, '-');
    let a = crate::text::slice_chars(s, a0, s.len());
    assert(a@ =~= s@.skip(a0 as int));
    let mut b: Vec<char> = Vec::new();
    let mut i: usize = a.len();
    while i > 0
        invariant
            i <= a.len(),
            b@ == a@.reverse().take(a.len() - i),
        decreases i,
    {
        b.push(a[i - 1]);
        assert(b@ =~= a@.reverse().take(a.len() - (i - 1)));
        i = i - 1;
    }
    assert(b@ =~= a@.reverse());
    let e = lead_count_exec(&b, '-');
    crate::text::slice_chars(&a, 0, a.len() - e)
}

/// File name of a page from its title, with a fallback.
pub fn slugify(title: &str, fallback: &str) -> (r: String)
    ensures
        r@ == slug_text(title@, fallback@),
{
    let t = chars_of(title);
    let mut out: Vec<char> = Vec::new();
    let mut i: usize = 0;
    while i < t.len()
        invariant
            i <= t.len(),
            t@ == title@,
            out@ == slug_chars(t@.take(i as int)),
        decreases t.len() - i,
    {
        let c = t[i];
        assert(t@.take(i + 1).drop_last() =~= t@.take(i as int));
        assert(t@.take(i + 1).last() == c);
        if ('a' <= c && c <= 'z') || ('A' <= c && c <= 'Z') || ('0' <= c && c <= '9') {
            out.push(crate::text::char_ascii_lower(c));
        } else if c == ' ' || c == '\t' || c == '\n' || c == '\x0C' || c == '\r' || c == '-' || c
            == '_' {
            out.push('-');
        }
        i = i + 1;
    }
    assert(t@.take(t.len() as int) =~= t@);
    let s = trim_dashes_exec(&out);
    if s.len() == 0 {
        let f = chars_of(fallback);
        string_of(&take_chars_exec(&f, 8))
    } else {
        string_of(&s)
    }
}

/// Body of a source preview: cut to `max_len` bytes with a marker when longer.
pub open spec fn preview_of(body: Seq<char>, max_len: nat) -> Seq<char> {
    if utf8_len(body) > max_len {
        let k = choose|k: int| 0 <= k <= body.len() && utf8_len(body.take(k)) == max_len;
        body.take(k) + "\n\n...truncated..."@
    } else {
        body
    }
}

/// Whether the first `max_len` bytes end on a character boundary.
pub open spec fn cuts_on_boundary(body: Seq<char>, max_len: nat) -> bool {
    utf8_len(body) <= max_len || exists|k: int|
        0 <= k <= body.len() && utf8_len(body.take(k)) == max_len
}

proof fn lemma_utf8_take_unique(body: Seq<char>, a: int, b: int)
    requires
        0 <= a < b <= body.len(),
    ensures
        utf8_len(body.take(a)) < utf8_len(body.take(b)),
    decreases b - a,
{
    let q = body.take(b);
    assert(q.drop_last() =~= body.take(b - 1));
    if a < b - 1 {
        lemma_utf8_take_unique(body, a, b - 1);
    }
}

/// A source body for its preview page, cut to `max_len` bytes when longer
/// (the cut must fall between characters).
pub fn preview_text(body: &str, max_len: usize) -> (r: String)
    requires
        cuts_on_boundary(body@, max_len as nat),
    ensures
        r@ == preview_of(body@, max_len as nat),
{
    let b = chars_of(body);
    let total = utf8_len_exec(&b);
    let longer = match total {
        Some(n) => n > max_len,
        None => true,
    };
    if !longer {
        return String::from_str(body);
    }
    let mut n: usize = 0;
    let mut i: usize = 0;
    while n < max_len
        invariant
            i <= b.len(),
            b@ == body@,
            n == utf8_len(b@.take(i as int)),
            n <= max_len,
            utf8_len(b@) > max_len,
            exists|k: int| 0 <= k <= b@.len() && utf8_len(b@.take(k)) == max_len,
        decreases max_len - n,
    {
        proof {
            if i == b.len() {
                assert(b@.take(i as int) =~= b@);
            }
        }
        let ghost q = b@.take(i + 1);
        assert(q.drop_last() =~= b@.take(i as int));
        let k = crate::text::char_utf8_len_exec(b[i]);
        proof {
            let kk = choose|k: int| 0 <= k <= b@.len() && utf8_len(b@.take(k)) == max_len;
            if kk <= i {
                if kk < i {
                    lemma_utf8_take_unique(b@, kk, i as int);
                }
            } else if kk > i + 1 {
                lemma_utf8_take_unique(b@, i + 1, kk);
            }
        }
        n = n + k;
        i = i + 1;
    }
    proof {
        let kk = choose|k: int| 0 <= k <= body@.len() && utf8_len(body@.take(k)) == max_len;
        if kk < i {
            lemma_utf8_take_unique(b@, kk, i as int);
        } else if kk > i {
            lemma_utf8_take_unique(b@, i as int, kk);
        }
    }
    let mut out = crate::text::slice_chars(&b, 0, i);
    extend_str(&mut out, "\n\n...truncated...");
    string_of(&out)
}

// ───────────────────────── lint report ─────────────────────────

/// File name of a lint report: the name, with `.md` appended when missing.
pub fn lint_report_file_name(report_name: &str) -> (r: String)
    ensures
        ends_with(report_name@, ".md"@) ==> r@ == report_name@,
        !ends_with(report_name@, ".md"@) ==> r@ == report_name@ + ".md"@,
{
    let n = chars_of(report_name);
    if ends_with_str(&n, ".md") {
        String::from_str(report_name)
    } else {
        let mut v = n;
        extend_str(&mut v, ".md");
        string_of(&v)
    }
}

/// Section name of a severity.
pub open spec fn severity_key(s: LintSeverity) -> Seq<char> {
    match s {
        LintSeverity::Error => "error"@,
        LintSeverity::Warn => "warn"@,
        LintSeverity::Info => "info"@,
    }
}

/// Line of one finding.
pub open spec fn finding_line(f: LintFinding) -> Seq<char> {
    "- `"@ + f.code@ + "` "@ + f.message@ + match f.subject {
        Some(s) => " (subject="@ + s@ + ")"@,
        None => seq![],
    } + "\n"@
}

/// Lines of the findings of one severity, in order.
pub open spec fn severity_lines(fs: Seq<LintFinding>, sev: LintSeverity) -> Seq<char>
    decreases fs.len(),
{
    if fs.len() == 0 {
        seq![]
    } else {
        severity_lines(fs.drop_last(), sev) + if fs.last().severity == sev {
            finding_line(fs.last())
        } else {
            seq![]
        }
    }
}

/// Whether a severity occurs among the findings.
pub open spec fn has_severity(fs: Seq<LintFinding>, sev: LintSeverity) -> bool {
    exists|i: int| 0 <= i < fs.len() && #[trigger] fs[i].severity == sev
}

/// A severity's section, absent when no finding has it.
pub open spec fn severity_section(fs: Seq<LintFinding>, sev: LintSeverity) -> Seq<char> {
    if has_severity(fs, sev) {
        "## "@ + severity_key(sev) + "\n\n"@ + severity_lines(fs, sev) + "\n"@
    } else {
        seq![]
    }
}

/// A lint report: the total, then sections in the order error, info, warn.
pub open spec fn lint_report_text(fs: Seq<LintFinding>) -> Seq<char> {
    "# Lint Report\n\n- total findings: `"@ + dec(fs.len()) + "`\n\n"@ + severity_section(
        fs,
        LintSeverity::Error,
    ) + severity_section(fs, LintSeverity::Info) + severity_section(fs, LintSeverity::Warn)
}

fn same_severity(a: LintSeverity, b: LintSeverity) -> (r: bool)
    ensures
        r == (a == b),
{
    match (a, b) {
        (LintSeverity::Info, LintSeverity::Info) => true,
        (LintSeverity::Warn, LintSeverity::Warn) => true,
        (LintSeverity::Error, LintSeverity::Error) => true,
        _ => false,
    }
}

fn severity_key_exec(s: LintSeverity) -> (r: &'static str)
    ensures
        r@ == severity_key(s),
{
    match s {
        LintSeverity::Error => "error",
        LintSeverity::Warn => "warn",
        LintSeverity::Info => "info",
    }
}

fn extend_severity_section(v: &mut Vec<char>, fs: &[LintFinding], sev: LintSeverity)
    ensures
        final(v)@ == old(v)@ + severity_section(fs@, sev),
{
    let mut lines: Vec<char> = Vec::new();
    let mut any = false;
    let mut i: usize = 0;
    while i < fs.len()
        invariant
            i <= fs.len(),
            lines@ == severity_lines(fs@.take(i as int), sev),
            any == has_severity(fs@.take(i as int), sev),
        decreases fs.len() - i,
    {
        let f = &fs[i];
        let ghost pre = fs@.take(i as int);
        assert(fs@.take(i + 1).drop_last() =~= pre);
        assert(fs@.take(i + 1).last() == fs@[i as int]);
        if same_severity(f.severity, sev) {
            let ghost l0 = lines@;
            extend_str(&mut lines, "- `");
            extend_str(&mut lines, f.code.as_str());
            extend_str(&mut lines, "` ");
            extend_str(&mut lines, f.message.as_str());
            match &f.subject {
                Some(s) => {
                    extend_str(&mut lines, " (subject=");
                    extend_str(&mut lines, s.as_str());
                    extend_str(&mut lines, ")");
                },
                None => {},
            }
            extend_str(&mut lines, "\n");
            assert(lines@ =~= l0 + finding_line(fs@[i as int]));
            assert(has_severity(fs@.take(i + 1), sev)) by {
                assert(fs@.take(i + 1)[i as int].severity == sev);
            }
            any = true;
        } else {
            assert(lines@ =~= lines@ + Seq::<char>::empty());
            assert(has_severity(fs@.take(i + 1), sev) == has_severity(pre, sev)) by {
                if has_severity(fs@.take(i + 1), sev) {
                    let j = choose|j: int|
                        0 <= j < fs@.take(i + 1).len() && #[trigger] fs@.take(i + 1)[j].severity
                            == sev;
                    assert(j < i);
                    assert(pre[j] == fs@.take(i + 1)[j]);
                }
                if has_severity(pre, sev) {
                    let j = choose|j: int| 0 <= j < pre.len() && #[trigger] pre[j].severity == sev;
                    assert(fs@.take(i + 1)[j] == pre[j]);
                }
            }
        }
        i = i + 1;
    }
    assert(fs@.take(fs.len() as int) =~= fs@);
    if any {
        extend_str(v, "## ");
        extend_str(v, severity_key_exec(sev));
        extend_str(v, "\n\n");
        extend_chars(v, &lines);
        extend_str(v, "\n");
    }
}

/// Markdown of a lint report.
pub fn render_lint_report(findings: &[LintFinding]) -> (r: String)
    ensures
        r@ == lint_report_text(findings@),
{
    let mut v = chars_of("# Lint Report\n\n- total findings: `");
    extend_dec(&mut v, findings.len() as u64);
    extend_str(&mut v, "`\n\n");
    extend_severity_section(&mut v, findings, LintSeverity::Error);
    extend_severity_section(&mut v, findings, LintSeverity::Info);
    extend_severity_section(&mut v, findings, LintSeverity::Warn);
    string_of(&v)
}

} // verus!
