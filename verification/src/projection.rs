//! The wiki's markdown projection: one file per page, claim and source, in
//! a fixed order, plus the index and the audit log.
use crate::kernel::{index_text, preview_of, preview_text, render_index, slug_text, slugify, cuts_on_boundary, ProjectionStats};
use crate::text::{
    chars_of, dec, extend_chars, extend_dec, extend_str, string_of, string_views, take_chars,
    take_chars_exec,
};
use crate::wiki_core::{AuditOperation, MemoryTier};
use vstd::prelude::*;
use vstd::string::StringExecFns;

verus! {

broadcast use vstd::string::group_string_axioms;

// ───────────────────────── orders ─────────────────────────

/// Whether `order` lists each index below `n` exactly once.
pub open spec fn is_permutation(order: Seq<usize>, n: nat) -> bool {
    &&& order.len() == n
    &&& order.no_duplicates()
    &&& forall|k: int| 0 <= k < order.len() ==> order[k] < n
}

/// Whether `order` sorts `keys` ascending, equal keys in their given order.
pub open spec fn stably_sorted(order: Seq<usize>, keys: Seq<i128>) -> bool {
    forall|a: int, b: int|
        0 <= a < b < order.len() ==> keys[order[a] as int] < keys[order[b] as int] || (keys[order[a] as int]
            == keys[order[b] as int] && order[a] < order[b])
}

/// Order of indexes that sorts the keys ascending, stably (`sort_by` on the key).
pub fn stable_order(keys: &[i128]) -> (r: Vec<usize>)
    ensures
        is_permutation(r@, keys.len() as nat),
        stably_sorted(r@, keys@),
{
    let mut order: Vec<usize> = Vec::new();
    let mut i: usize = 0;
    while i < keys.len()
        invariant
            i <= keys.len(),
            is_permutation(order@, i as nat),
            stably_sorted(order@, keys@),
        decreases keys.len() - i,
    {
        let k = keys[i];
        let mut p: usize = 0;
        while p < order.len() && keys[order[p]] <= k
            invariant
                p <= order.len(),
                is_permutation(order@, i as nat),
                i < keys.len(),
                forall|q: int| 0 <= q < p ==> keys@[order@[q] as int] <= k,
            decreases order.len() - p,
        {
            p = p + 1;
        }
        let ghost old_order = order@;
        order.insert(p, i);
        proof {
            assert(order@ =~= old_order.take(p as int).push(i) + old_order.skip(p as int));
            assert forall|q: int| 0 <= q < order.len() implies order@[q] < i + 1 by {
                if q < p {
                    assert(order@[q] == old_order[q]);
                } else if q > p {
                    assert(order@[q] == old_order[q - 1]);
                }
            }
            assert forall|a: int, b: int| 0 <= a < b < order.len() implies order@[a] != order@[b] by {
                if a < p && b > p {
                    assert(order@[a] == old_order[a]);
                    assert(order@[b] == old_order[b - 1]);
                } else if a < p && b < p {
                    assert(order@[a] == old_order[a]);
                    assert(order@[b] == old_order[b]);
                } else if a > p {
                    assert(order@[a] == old_order[a - 1]);
                    assert(order@[b] == old_order[b - 1]);
                } else if a == p {
                    assert(order@[b] == old_order[b - 1]);
                } else {
                    assert(order@[a] == old_order[a]);
                }
            }
            assert forall|a: int, b: int| 0 <= a < b < order.len() implies keys@[order@[a] as int]
                < keys@[order@[b] as int] || (keys@[order@[a] as int] == keys@[order@[b] as int]
                && order@[a] < order@[b]) by {
                if b < p {
                    assert(order@[a] == old_order[a]);
                    assert(order@[b] == old_order[b]);
                } else if b == p {
                    assert(order@[a] == old_order[a]);
                } else if a > p {
                    assert(order@[a] == old_order[a - 1]);
                    assert(order@[b] == old_order[b - 1]);
                } else if a == p {
                    assert(order@[b] == old_order[b - 1]);
                    assert(!(keys@[old_order[p as int] as int] <= k));
                    if b - 1 > p {
                        assert(keys@[old_order[p as int] as int] < keys@[old_order[b - 1] as int] || keys@[old_order[p as int] as int] == keys@[old_order[b - 1] as int]);
                    }
                } else {
                    assert(order@[a] == old_order[a]);
                    assert(order@[b] == old_order[b - 1]);
                    assert(keys@[old_order[a] as int] <= k);
                    assert(!(keys@[old_order[p as int] as int] <= k));
                    if b - 1 > p {
                        assert(keys@[old_order[p as int] as int] < keys@[old_order[b - 1] as int] || keys@[old_order[p as int] as int] == keys@[old_order[b - 1] as int]);
                    }
                }
            }
        }
        i = i + 1;
    }
    order
}

/// Lexicographic order of texts by code point (`Ord` for `str`).
pub open spec fn seq_lt(a: Seq<char>, b: Seq<char>) -> bool
    decreases a.len(),
{
    if a.len() == 0 {
        b.len() > 0
    } else if b.len() == 0 {
        false
    } else if a[0] != b[0] {
        (a[0] as int) < (b[0] as int)
    } else {
        seq_lt(a.drop_first(), b.drop_first())
    }
}

/// The lexicographic order of texts is total, asymmetric and irreflexive.
pub proof fn lemma_seq_lt_total(a: Seq<char>, b: Seq<char>)
    ensures
        seq_lt(a, b) || a == b || seq_lt(b, a),
        !(seq_lt(a, b) && seq_lt(b, a)),
        !seq_lt(a, a),
    decreases a.len(),
{
    if a.len() > 0 && b.len() > 0 && a[0] == b[0] {
        lemma_seq_lt_total(a.drop_first(), b.drop_first());
        if a.drop_first() == b.drop_first() {
            assert(a =~= seq![a[0]] + a.drop_first());
            assert(b =~= seq![b[0]] + b.drop_first());
        }
    }
    if a.len() > 0 {
        lemma_seq_lt_total(a.drop_first(), a.drop_first());
    }
    if a.len() == 0 && b.len() == 0 {
        assert(a =~= b);
    }
}

/// The lexicographic order of texts is transitive.
pub proof fn lemma_seq_lt_trans(a: Seq<char>, b: Seq<char>, c: Seq<char>)
    requires
        seq_lt(a, b),
        seq_lt(b, c),
    ensures
        seq_lt(a, c),
    decreases a.len(),
{
    if a.len() > 0 && b.len() > 0 && c.len() > 0 && a[0] == b[0] && b[0] == c[0] {
        lemma_seq_lt_trans(a.drop_first(), b.drop_first(), c.drop_first());
    }
}

/// Whether one text comes before another in lexicographic order.
pub fn chars_lt(a: &[char], b: &[char]) -> (r: bool)
    ensures
        r == seq_lt(a@, b@),
{
    let mut i: usize = 0;
    assert(a@.skip(0) =~= a@);
    assert(b@.skip(0) =~= b@);
    while i < a.len() && i < b.len() && a[i] == b[i]
        invariant
            i <= a.len(),
            i <= b.len(),
            seq_lt(a@, b@) == seq_lt(a@.skip(i as int), b@.skip(i as int)),
        decreases a.len() - i,
    {
        assert(a@.skip(i as int).drop_first() =~= a@.skip(i + 1));
        assert(b@.skip(i as int).drop_first() =~= b@.skip(i + 1));
        i = i + 1;
    }
    if i == a.len() {
        i < b.len()
    } else if i == b.len() {
        false
    } else {
        a[i] < b[i]
    }
}

/// Whether a page (title, id) comes before another: by title, then by id.
pub open spec fn page_before(ta: Seq<char>, ia: u128, tb: Seq<char>, ib: u128) -> bool {
    seq_lt(ta, tb) || (ta == tb && ia < ib)
}

/// Whether `order` sorts pages by title then id, equal ones in their given order.
pub open spec fn pages_sorted(order: Seq<usize>, titles: Seq<Seq<char>>, ids: Seq<u128>) -> bool {
    forall|a: int, b: int|
        0 <= a < b < order.len() ==> page_before(
            titles[order[a] as int],
            ids[order[a] as int],
            titles[order[b] as int],
            ids[order[b] as int],
        ) || (titles[order[a] as int] == titles[order[b] as int] && ids[order[a] as int]
            == ids[order[b] as int] && order[a] < order[b])
}

proof fn lemma_page_before_facts(ta: Seq<char>, ia: u128, tb: Seq<char>, ib: u128, tc: Seq<char>, ic: u128)
    ensures
        page_before(ta, ia, tb, ib) || (ta == tb && ia == ib) || page_before(tb, ib, ta, ia),
        !(page_before(ta, ia, tb, ib) && page_before(tb, ib, ta, ia)),
        page_before(ta, ia, tb, ib) && page_before(tb, ib, tc, ic) ==> page_before(ta, ia, tc, ic),
{
    lemma_seq_lt_total(ta, tb);
    lemma_seq_lt_total(tb, tc);
    lemma_seq_lt_total(ta, tc);
    if seq_lt(ta, tb) && seq_lt(tb, tc) {
        lemma_seq_lt_trans(ta, tb, tc);
    }
}

fn page_precedes(titles: &Vec<String>, ids: &[u128], x: usize, y: usize) -> (r: bool)
    requires
        titles.len() == ids.len(),
        x < ids.len(),
        y < ids.len(),
    ensures
        r == page_before(titles@[x as int]@, ids@[x as int], titles@[y as int]@, ids@[y as int]),
{
    let tx = chars_of(titles[x].as_str());
    let ty = chars_of(titles[y].as_str());
    chars_lt(&tx, &ty) || (crate::text::chars_eq(&tx, &ty) && ids[x] < ids[y])
}

/// Order of indexes that sorts pages by title, then id.
pub fn page_order(titles: &Vec<String>, ids: &[u128]) -> (r: Vec<usize>)
    requires
        titles.len() == ids.len(),
    ensures
        is_permutation(r@, ids.len() as nat),
        pages_sorted(r@, string_views(titles@), ids@),
{
    let ghost tv = string_views(titles@);
    let mut order: Vec<usize> = Vec::new();
    let mut i: usize = 0;
    while i < ids.len()
        invariant
            i <= ids.len(),
            titles.len() == ids.len(),
            tv == string_views(titles@),
            is_permutation(order@, i as nat),
            pages_sorted(order@, tv, ids@),
        decreases ids.len() - i,
    {
        let mut p: usize = 0;
        while p < order.len() && !page_precedes(titles, ids, i, order[p])
            invariant
                p <= order.len(),
                titles.len() == ids.len(),
                tv == string_views(titles@),
                is_permutation(order@, i as nat),
                i < ids.len(),
                forall|q: int| 0 <= q < p ==> !page_before(tv[i as int], ids@[i as int], tv[order@[q] as int], ids@[order@[q] as int]),
            decreases order.len() - p,
        {
            p = p + 1;
        }
        let ghost old_order = order@;
        order.insert(p, i);
        proof {
            let ki = (tv[i as int], ids@[i as int]);
            assert(order@ =~= old_order.take(p as int).push(i) + old_order.skip(p as int));
            assert forall|q: int| 0 <= q < order.len() implies order@[q] < i + 1 by {
                if q < p {
                    assert(order@[q] == old_order[q]);
                } else if q > p {
                    assert(order@[q] == old_order[q - 1]);
                }
            }
            assert forall|a: int, b: int| 0 <= a < b < order.len() implies order@[a] != order@[b] by {
                if a < p && b > p {
                    assert(order@[a] == old_order[a]);
                    assert(order@[b] == old_order[b - 1]);
                } else if a < p && b < p {
                    assert(order@[a] == old_order[a]);
                    assert(order@[b] == old_order[b]);
                } else if a > p {
                    assert(order@[a] == old_order[a - 1]);
                    assert(order@[b] == old_order[b - 1]);
                } else if a == p {
                    assert(order@[b] == old_order[b - 1]);
                } else {
                    assert(order@[a] == old_order[a]);
                }
            }
            assert forall|a: int, b: int| 0 <= a < b < order.len() implies page_before(
                tv[order@[a] as int],
                ids@[order@[a] as int],
                tv[order@[b] as int],
                ids@[order@[b] as int],
            ) || (tv[order@[a] as int] == tv[order@[b] as int] && ids@[order@[a] as int]
                == ids@[order@[b] as int] && order@[a] < order@[b]) by {
                let xa = order@[a] as int;
                let xb = order@[b] as int;
                lemma_page_before_facts(tv[xa], ids@[xa], tv[xb], ids@[xb], tv[i as int], ids@[i as int]);
                if b < p {
                    assert(order@[a] == old_order[a]);
                    assert(order@[b] == old_order[b]);
                } else if b == p {
                    assert(order@[a] == old_order[a]);
                } else if a > p {
                    assert(order@[a] == old_order[a - 1]);
                    assert(order@[b] == old_order[b - 1]);
                } else if a == p {
                    assert(order@[b] == old_order[b - 1]);
                    let x0 = old_order[p as int] as int;
                    assert(page_before(tv[i as int], ids@[i as int], tv[x0], ids@[x0]));
                    if b - 1 > p {
                        lemma_page_before_facts(tv[i as int], ids@[i as int], tv[x0], ids@[x0], tv[xb], ids@[xb]);
                        lemma_page_before_facts(tv[x0], ids@[x0], tv[xb], ids@[xb], tv[i as int], ids@[i as int]);
                    }
                } else {
                    assert(order@[a] == old_order[a]);
                    assert(order@[b] == old_order[b - 1]);
                    let x0 = old_order[p as int] as int;
                    assert(page_before(tv[i as int], ids@[i as int], tv[x0], ids@[x0]));
                    lemma_page_before_facts(tv[xa], ids@[xa], tv[i as int], ids@[i as int], tv[x0], ids@[x0]);
                    if b - 1 > p {
                        lemma_page_before_facts(tv[i as int], ids@[i as int], tv[x0], ids@[x0], tv[xb], ids@[xb]);
                        lemma_page_before_facts(tv[x0], ids@[x0], tv[xb], ids@[xb], tv[i as int], ids@[i as int]);
                    }
                }
            }
        }
        i = i + 1;
    }
    order
}

// ───────────────────────── projection ─────────────────────────

/// A wiki page to project.
#[derive(Debug, Clone)]
pub struct ProjectionPage {
    /// Id as text (names the file when the title gives no slug).
    pub id: String,
    /// Id as a number (orders pages with equal titles).
    pub id_key: u128,
    pub title: String,
    pub markdown: String,
    /// Date of the last update, as shown in the index.
    pub updated_date: String,
}

/// A claim to project; scores already formatted.
#[derive(Debug, Clone)]
pub struct ProjectionClaim {
    pub id: String,
    pub text: String,
    pub tier: MemoryTier,
    pub confidence: String,
    pub quality: String,
    pub stale: bool,
    pub source_count: usize,
    /// Creation time (orders the claims).
    pub created_at: i128,
}

/// A raw source to project.
#[derive(Debug, Clone)]
pub struct ProjectionSource {
    pub id: String,
    pub uri: String,
    pub body: String,
    /// Ingestion time as shown.
    pub ingested_at: String,
    /// Ingestion time (orders the sources).
    pub ingested_at_key: i128,
}

/// A file of the projection: its directory under the wiki root, name and content.
#[derive(Debug, Clone)]
pub struct ProjectionFile {
    pub dir: String,
    pub name: String,
    pub content: String,
}

/// Everything a projection writes, with its counts.
#[derive(Debug, Clone)]
pub struct Projection {
    pub files: Vec<ProjectionFile>,
    pub index: String,
    pub stats: ProjectionStats,
}

/// Name a tier is shown by.
pub open spec fn tier_name(t: MemoryTier) -> Seq<char> {
    match t {
        MemoryTier::Working => "Working"@,
        MemoryTier::Episodic => "Episodic"@,
        MemoryTier::Semantic => "Semantic"@,
        MemoryTier::Procedural => "Procedural"@,
    }
}

fn tier_name_exec(t: MemoryTier) -> (r: &'static str)
    ensures
        r@ == tier_name(t),
{
    match t {
        MemoryTier::Working => "Working",
        MemoryTier::Episodic => "Episodic",
        MemoryTier::Semantic => "Semantic",
        MemoryTier::Procedural => "Procedural",
    }
}

/// `true` or `false`.
pub open spec fn flag(b: bool) -> Seq<char> {
    if b {
        "true"@
    } else {
        "false"@
    }
}

fn extend_flag(v: &mut Vec<char>, b: bool)
    ensures
        final(v)@ == old(v)@ + flag(b),
{
    if b {
        extend_str(v, "true");
    } else {
        extend_str(v, "false");
    }
}

/// Whether an id starts with eight ASCII characters (its short form).
pub open spec fn short_id_ok(id: Seq<char>) -> bool {
    id.len() >= 8 && forall|i: int| 0 <= i < 8 ==> (id[i] as int) < 128
}

/// A file as plain values.
pub open spec fn file_view(f: ProjectionFile) -> (Seq<char>, Seq<char>, Seq<char>) {
    (f.dir@, f.name@, f.content@)
}

/// Slug naming a page's file.
pub open spec fn page_slug(p: ProjectionPage) -> Seq<char> {
    slug_text(p.title@, p.id@)
}

/// A page's file.
pub open spec fn page_file(p: ProjectionPage) -> (Seq<char>, Seq<char>, Seq<char>) {
    ("pages"@, page_slug(p) + ".md"@, p.markdown@)
}

/// A page's index row.
pub open spec fn page_row(p: ProjectionPage) -> Seq<char> {
    "- ["@ + p.title@ + "](pages/"@ + page_slug(p) + ".md) | updated: "@ + p.updated_date@
}

/// A claim's file.
pub open spec fn claim_file(c: ProjectionClaim) -> (Seq<char>, Seq<char>, Seq<char>) {
    let short = c.id@.take(8);
    (
        "concepts"@,
        short + ".md"@,
        "# Claim "@ + short + "\n\n- id: `"@ + c.id@ + "`\n- tier: `"@ + tier_name(c.tier)
            + "`\n- confidence: `"@ + c.confidence@ + "`\n- quality: `"@ + c.quality@
            + "`\n- stale: `"@ + flag(c.stale) + "`\n- sources: `"@ + dec(c.source_count as nat)
            + "`\n\n## Text\n\n"@ + c.text@ + "\n"@,
    )
}

/// A claim's index row.
pub open spec fn claim_row(c: ProjectionClaim) -> Seq<char> {
    let short = c.id@.take(8);
    "- [claim:"@ + short + "](concepts/"@ + short + ".md) | tier="@ + tier_name(c.tier) + " stale="@
        + flag(c.stale)
}

/// A source's file, its body previewed to 2000 bytes.
pub open spec fn source_file(s: ProjectionSource) -> (Seq<char>, Seq<char>, Seq<char>) {
    let short = s.id@.take(8);
    (
        "sources"@,
        short + ".md"@,
        "# Source "@ + short + "\n\n- id: `"@ + s.id@ + "`\n- uri: `"@ + s.uri@ + "`\n- ingested_at: `"@
            + s.ingested_at@ + "`\n\n## Preview\n\n"@ + preview_of(s.body@, 2000) + "\n"@,
    )
}

/// A source's index row.
pub open spec fn source_row(s: ProjectionSource) -> Seq<char> {
    let short = s.id@.take(8);
    "- [source:"@ + short + "](sources/"@ + short + ".md) | "@ + s.uri@
}

/// Titles of the pages.
pub open spec fn titles_of(ps: Seq<ProjectionPage>) -> Seq<Seq<char>> {
    ps.map_values(|p: ProjectionPage| p.title@)
}

/// Ids of the pages.
pub open spec fn ids_of(ps: Seq<ProjectionPage>) -> Seq<u128> {
    ps.map_values(|p: ProjectionPage| p.id_key)
}

/// Creation times of the claims.
pub open spec fn claim_times(cs: Seq<ProjectionClaim>) -> Seq<i128> {
    cs.map_values(|c: ProjectionClaim| c.created_at)
}

/// Ingestion times of the sources.
pub open spec fn source_times(ss: Seq<ProjectionSource>) -> Seq<i128> {
    ss.map_values(|s: ProjectionSource| s.ingested_at_key)
}

/// Whether `r` projects the pages, claims and sources taken in the orders
/// `po`, `co`, `so`: page files, then claim files, then source files, and
/// the index of their rows.
pub open spec fn projects(
    r: Projection,
    ps: Seq<ProjectionPage>,
    cs: Seq<ProjectionClaim>,
    ss: Seq<ProjectionSource>,
    po: Seq<usize>,
    co: Seq<usize>,
    so: Seq<usize>,
) -> bool {
    &&& is_permutation(po, ps.len())
    &&& pages_sorted(po, titles_of(ps), ids_of(ps))
    &&& is_permutation(co, cs.len())
    &&& stably_sorted(co, claim_times(cs))
    &&& is_permutation(so, ss.len())
    &&& stably_sorted(so, source_times(ss))
    &&& r.files.len() == ps.len() + cs.len() + ss.len()
    &&& forall|k: int| 0 <= k < ps.len() ==> file_view(#[trigger] r.files@[k]) == page_file(ps[po[k] as int])
    &&& forall|k: int|
        0 <= k < cs.len() ==> file_view(#[trigger] r.files@[ps.len() + k]) == claim_file(cs[co[k] as int])
    &&& forall|k: int|
        0 <= k < ss.len() ==> file_view(#[trigger] r.files@[ps.len() + cs.len() + k]) == source_file(
            ss[so[k] as int],
        )
    &&& r.index@ == index_text(
        Seq::new(ps.len(), |k: int| page_row(ps[po[k] as int])),
        Seq::new(cs.len(), |k: int| claim_row(cs[co[k] as int])),
        Seq::new(ss.len(), |k: int| source_row(ss[so[k] as int])),
    )
    &&& r.stats.pages_written == ps.len()
    &&& r.stats.claims_written == cs.len()
    &&& r.stats.sources_written == ss.len()
}

fn copy_str(s: &String) -> (r: String)
    ensures
        r@ == s@,
{
    String::from_str(s.as_str())
}

fn short_id(id: &String) -> (r: Vec<char>)
    requires
        short_id_ok(id@),
    ensures
        r@ == id@.take(8),
{
    let c = chars_of(id.as_str());
    crate::text::slice_chars(&c, 0, 8)
}

/// Plans a projection of the wiki: pages by title (then id), claims by
/// creation time, sources by ingestion time; their files, the index of
/// their rows, and the counts.
pub fn plan_projection(
    pages: &[ProjectionPage],
    claims: &[ProjectionClaim],
    sources: &[ProjectionSource],
) -> (r: Projection)
    requires
        forall|i: int| 0 <= i < claims.len() ==> short_id_ok(#[trigger] claims@[i].id@),
        forall|i: int| 0 <= i < sources.len() ==> short_id_ok(#[trigger] sources@[i].id@),
        forall|i: int| 0 <= i < sources.len() ==> cuts_on_boundary(#[trigger] sources@[i].body@, 2000),
    ensures
        exists|po: Seq<usize>, co: Seq<usize>, so: Seq<usize>| projects(r, pages@, claims@, sources@, po, co, so),
{
    let mut titles: Vec<String> = Vec::new();
    let mut ids: Vec<u128> = Vec::new();
    let mut i: usize = 0;
    while i < pages.len()
        invariant
            i <= pages.len(),
            string_views(titles@) == titles_of(pages@).take(i as int),
            ids@ == ids_of(pages@).take(i as int),
        decreases pages.len() - i,
    {
        let ghost t0 = string_views(titles@);
        let t = copy_str(&pages[i].title);
        titles.push(t);
        ids.push(pages[i].id_key);
        assert(string_views(titles@) =~= t0.push(pages@[i as int].title@));
        assert(titles_of(pages@).take(i + 1) =~= titles_of(pages@).take(i as int).push(pages@[i as int].title@));
        assert(ids@ =~= ids_of(pages@).take(i + 1));
        i = i + 1;
    }
    assert(titles_of(pages@).take(pages.len() as int) =~= titles_of(pages@));
    assert(ids_of(pages@).take(pages.len() as int) =~= ids_of(pages@));
    let po = page_order(&titles, &ids);
    let mut files: Vec<ProjectionFile> = Vec::new();
    let mut page_rows: Vec<String> = Vec::new();
    let mut k: usize = 0;
    while k < po.len()
        invariant
            k <= po.len(),
            is_permutation(po@, pages.len() as nat),
            files.len() == k,
            page_rows.len() == k,
            forall|j: int| 0 <= j < k ==> file_view(#[trigger] files@[j]) == page_file(pages@[po@[j] as int]),
            forall|j: int| 0 <= j < k ==> #[trigger] page_rows@[j]@ == page_row(pages@[po@[j] as int]),
        decreases po.len() - k,
    {
        let p = &pages[po[k]];
        let slug = slugify(p.title.as_str(), p.id.as_str());
        let mut name = chars_of(slug.as_str());
        extend_str(&mut name, ".md");
        files.push(ProjectionFile { dir: String::from_str("pages"), name: string_of(&name), content: copy_str(&p.markdown) });
        let mut row = chars_of("- [");
        extend_str(&mut row, p.title.as_str());
        extend_str(&mut row, "](pages/");
        extend_str(&mut row, slug.as_str());
        extend_str(&mut row, ".md) | updated: ");
        extend_str(&mut row, p.updated_date.as_str());
        page_rows.push(string_of(&row));
        k = k + 1;
    }
    let mut ckeys: Vec<i128> = Vec::new();
    let mut i: usize = 0;
    while i < claims.len()
        invariant
            i <= claims.len(),
            ckeys@ == claim_times(claims@).take(i as int),
        decreases claims.len() - i,
    {
        ckeys.push(claims[i].created_at);
        assert(ckeys@ =~= claim_times(claims@).take(i + 1));
        i = i + 1;
    }
    assert(claim_times(claims@).take(claims.len() as int) =~= claim_times(claims@));
    let co = stable_order(&ckeys);
    let np = pages.len();
    let mut claim_rows: Vec<String> = Vec::new();
    let mut k: usize = 0;
    while k < co.len()
        invariant
            k <= co.len(),
            np == pages.len(),
            is_permutation(co@, claims.len() as nat),
            forall|i: int| 0 <= i < claims.len() ==> short_id_ok(#[trigger] claims@[i].id@),
            files.len() == np + k,
            claim_rows.len() == k,
            forall|j: int| 0 <= j < np ==> file_view(#[trigger] files@[j]) == page_file(pages@[po@[j] as int]),
            forall|j: int|
                0 <= j < k ==> file_view(#[trigger] files@[np + j]) == claim_file(claims@[co@[j] as int]),
            forall|j: int| 0 <= j < k ==> #[trigger] claim_rows@[j]@ == claim_row(claims@[co@[j] as int]),
        decreases co.len() - k,
    {
        let c = &claims[co[k]];
        let short = short_id(&c.id);
        let tier = tier_name_exec(c.tier);
        let mut name = short.clone();
        extend_str(&mut name, ".md");
        let mut md = chars_of("# Claim ");
        extend_chars(&mut md, &short);
        extend_str(&mut md, "\n\n- id: `");
        extend_str(&mut md, c.id.as_str());
        extend_str(&mut md, "`\n- tier: `");
        extend_str(&mut md, tier);
        extend_str(&mut md, "`\n- confidence: `");
        extend_str(&mut md, c.confidence.as_str());
        extend_str(&mut md, "`\n- quality: `");
        extend_str(&mut md, c.quality.as_str());
        extend_str(&mut md, "`\n- stale: `");
        extend_flag(&mut md, c.stale);
        extend_str(&mut md, "`\n- sources: `");
        extend_dec(&mut md, c.source_count as u64);
        extend_str(&mut md, "`\n\n## Text\n\n");
        extend_str(&mut md, c.text.as_str());
        extend_str(&mut md, "\n");
        let ghost before = files@;
        files.push(ProjectionFile { dir: String::from_str("concepts"), name: string_of(&name), content: string_of(&md) });
        assert(forall|j: int| 0 <= j < files.len() - 1 ==> files@[j] == before[j]);
        let mut row = chars_of("- [claim:");
        extend_chars(&mut row, &short);
        extend_str(&mut row, "](concepts/");
        extend_chars(&mut row, &short);
        extend_str(&mut row, ".md) | tier=");
        extend_str(&mut row, tier);
        extend_str(&mut row, " stale=");
        extend_flag(&mut row, c.stale);
        claim_rows.push(string_of(&row));
        k = k + 1;
    }
    let mut skeys: Vec<i128> = Vec::new();
    let mut i: usize = 0;
    while i < sources.len()
        invariant
            i <= sources.len(),
            skeys@ == source_times(sources@).take(i as int),
        decreases sources.len() - i,
    {
        skeys.push(sources[i].ingested_at_key);
        assert(skeys@ =~= source_times(sources@).take(i + 1));
        i = i + 1;
    }
    assert(source_times(sources@).take(sources.len() as int) =~= source_times(sources@));
    let so = stable_order(&skeys);
    let nc = claims.len();
    let mut source_rows: Vec<String> = Vec::new();
    let mut k: usize = 0;
    while k < so.len()
        invariant
            k <= so.len(),
            np == pages.len(),
            nc == claims.len(),
            is_permutation(so@, sources.len() as nat),
            forall|i: int| 0 <= i < sources.len() ==> short_id_ok(#[trigger] sources@[i].id@),
            forall|i: int| 0 <= i < sources.len() ==> cuts_on_boundary(#[trigger] sources@[i].body@, 2000),
            files.len() == np + nc + k,
            source_rows.len() == k,
            forall|j: int| 0 <= j < np ==> file_view(#[trigger] files@[j]) == page_file(pages@[po@[j] as int]),
            forall|j: int|
                0 <= j < nc ==> file_view(#[trigger] files@[np + j]) == claim_file(claims@[co@[j] as int]),
            forall|j: int|
                0 <= j < k ==> file_view(#[trigger] files@[np + nc + j]) == source_file(sources@[so@[j] as int]),
            forall|j: int| 0 <= j < k ==> #[trigger] source_rows@[j]@ == source_row(sources@[so@[j] as int]),
        decreases so.len() - k,
    {
        let s = &sources[so[k]];
        let short = short_id(&s.id);
        let mut name = short.clone();
        extend_str(&mut name, ".md");
        let preview = preview_text(s.body.as_str(), 2000);
        let mut md = chars_of("# Source ");
        extend_chars(&mut md, &short);
        extend_str(&mut md, "\n\n- id: `");
        extend_str(&mut md, s.id.as_str());
        extend_str(&mut md, "`\n- uri: `");
        extend_str(&mut md, s.uri.as_str());
        extend_str(&mut md, "`\n- ingested_at: `");
        extend_str(&mut md, s.ingested_at.as_str());
        extend_str(&mut md, "`\n\n## Preview\n\n");
        extend_str(&mut md, preview.as_str());
        extend_str(&mut md, "\n");
        let ghost before = files@;
        files.push(ProjectionFile { dir: String::from_str("sources"), name: string_of(&name), content: string_of(&md) });
        assert(forall|j: int| 0 <= j < files.len() - 1 ==> files@[j] == before[j]);
        let mut row = chars_of("- [source:");
        extend_chars(&mut row, &short);
        extend_str(&mut row, "](sources/");
        extend_chars(&mut row, &short);
        extend_str(&mut row, ".md) | ");
        extend_str(&mut row, s.uri.as_str());
        source_rows.push(string_of(&row));
        k = k + 1;
    }
    let index = render_index(&page_rows, &claim_rows, &source_rows);
    let r = Projection {
        files,
        index,
        stats: ProjectionStats { pages_written: pages.len(), claims_written: claims.len(), sources_written: sources.len() },
    };
    proof {
        assert(string_views(page_rows@) =~= Seq::new(pages@.len(), |k: int| page_row(pages@[po@[k] as int])));
        assert(string_views(claim_rows@) =~= Seq::new(claims@.len(), |k: int| claim_row(claims@[co@[k] as int])));
        assert(string_views(source_rows@) =~= Seq::new(sources@.len(), |k: int| source_row(sources@[so@[k] as int])));
        assert(projects(r, pages@, claims@, sources@, po@, co@, so@));
    }
    r
}

// ───────────────────────── audit log ─────────────────────────

/// An audit record to list in the log.
#[derive(Debug, Clone)]
pub struct AuditEntry {
    pub id: String,
    pub op: AuditOperation,
    pub actor: String,
    pub summary: String,
    /// Time as shown.
    pub at: String,
    /// Time (orders the log).
    pub at_key: i128,
}

/// Name an operation is shown by.
pub open spec fn op_name(op: AuditOperation) -> Seq<char> {
    match op {
        AuditOperation::IngestSource => "IngestSource"@,
        AuditOperation::WriteClaim => "WriteClaim"@,
        AuditOperation::SupersedeClaim => "SupersedeClaim"@,
        AuditOperation::WritePage => "WritePage"@,
        AuditOperation::RunLint => "RunLint"@,
        AuditOperation::RunQuery => "RunQuery"@,
        AuditOperation::CrystallizeSession => "CrystallizeSession"@,
        AuditOperation::RedactSensitive => "RedactSensitive"@,
    }
}

fn op_name_exec(op: AuditOperation) -> (r: &'static str)
    ensures
        r@ == op_name(op),
{
    match op {
        AuditOperation::IngestSource => "IngestSource",
        AuditOperation::WriteClaim => "WriteClaim",
        AuditOperation::SupersedeClaim => "SupersedeClaim",
        AuditOperation::WritePage => "WritePage",
        AuditOperation::RunLint => "RunLint",
        AuditOperation::RunQuery => "RunQuery",
        AuditOperation::CrystallizeSession => "CrystallizeSession",
        AuditOperation::RedactSensitive => "RedactSensitive",
    }
}

/// Entry of one record in the log.
pub open spec fn log_entry(a: AuditEntry) -> Seq<char> {
    "## ["@ + a.at@ + "] "@ + op_name(a.op) + " | "@ + a.id@ + "\n- actor: `"@ + a.actor@
        + "`\n- summary: "@ + a.summary@ + "\n\n"@
}

/// Entries of the records taken in an order, concatenated.
pub open spec fn log_entries(audits: Seq<AuditEntry>, order: Seq<usize>) -> Seq<char>
    decreases order.len(),
{
    if order.len() == 0 {
        seq![]
    } else {
        log_entries(audits, order.drop_last()) + log_entry(audits[order.last() as int])
    }
}

fn log_entry_exec(a: &AuditEntry) -> (r: Vec<char>)
    ensures
        r@ == log_entry(*a),
{
    let mut v = chars_of("## [");
    extend_str(&mut v, a.at.as_str());
    extend_str(&mut v, "] ");
    extend_str(&mut v, op_name_exec(a.op));
    extend_str(&mut v, " | ");
    extend_str(&mut v, a.id.as_str());
    extend_str(&mut v, "\n- actor: `");
    extend_str(&mut v, a.actor.as_str());
    extend_str(&mut v, "`\n- summary: ");
    extend_str(&mut v, a.summary.as_str());
    extend_str(&mut v, "\n\n");
    v
}

/// Times of the records.
pub open spec fn audit_times(audits: Seq<AuditEntry>) -> Seq<i128> {
    audits.map_values(|a: AuditEntry| a.at_key)
}

/// The audit log: a heading, then one entry per record by time (equal
/// times in the given order).
pub fn render_log(audits: &[AuditEntry]) -> (r: String)
    ensures
        exists|order: Seq<usize>|
            is_permutation(order, audits.len() as nat) && stably_sorted(order, audit_times(audits@))
                && r@ == "# log\n\n"@ + log_entries(audits@, order),
{
    let mut keys: Vec<i128> = Vec::new();
    let mut i: usize = 0;
    while i < audits.len()
        invariant
            i <= audits.len(),
            keys@ == audit_times(audits@).take(i as int),
        decreases audits.len() - i,
    {
        keys.push(audits[i].at_key);
        assert(keys@ =~= audit_times(audits@).take(i + 1));
        i = i + 1;
    }
    assert(audit_times(audits@).take(audits.len() as int) =~= audit_times(audits@));
    let order = stable_order(&keys);
    let mut v = chars_of("# log\n\n");
    let ghost head = v@;
    let mut k: usize = 0;
    while k < order.len()
        invariant
            k <= order.len(),
            is_permutation(order@, audits.len() as nat),
            v@ == head + log_entries(audits@, order@.take(k as int)),
        decreases order.len() - k,
    {
        let a = &audits[order[k]];
        assert(order@.take(k + 1).drop_last() =~= order@.take(k as int));
        let e = log_entry_exec(a);
        extend_chars(&mut v, &e);
        k = k + 1;
    }
    assert(order@.take(order.len() as int) =~= order@);
    string_of(&v)
}

} // verus!
