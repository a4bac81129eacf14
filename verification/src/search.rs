//! Document ids of the hybrid search and the in-memory retrieval paths over
//! the kernel's stores: keyword overlap ranks live claims and pages (two
//! paths that break ties in opposite id order) and entity labels.
use crate::engine::{ClaimRecord, EntityRecord, LlmWikiEngine, PageRecord};
use crate::kernel::{query_token_list, query_tokens, score_text_lc, token_hits, SearchPorts, WikiHook};
use crate::projection::{chars_lt, is_permutation, lemma_seq_lt_total, lemma_seq_lt_trans, seq_lt};
use crate::text::{
    ascii_lower, ascii_lower_chars, chars_eq, chars_of, extend_str, string_of, string_views, uuid_string,
    uuid_text,
};
use vstd::prelude::*;
use vstd::string::StringExecFns;

verus! {

broadcast use vstd::string::group_string_axioms;

// ───────────────────────── document ids ─────────────────────────

/// `claim:<id>`.
pub fn format_claim_doc_id(id: u128) -> (r: String)
    ensures
        r@ == "claim:"@ + uuid_text(id),
{
    let mut v = chars_of("claim:");
    extend_str(&mut v, uuid_string(id).as_str());
    string_of(&v)
}

/// `page:<id>`.
pub fn format_page_doc_id(id: u128) -> (r: String)
    ensures
        r@ == "page:"@ + uuid_text(id),
{
    let mut v = chars_of("page:");
    extend_str(&mut v, uuid_string(id).as_str());
    string_of(&v)
}

/// `entity:<id>`.
pub fn format_entity_doc_id(id: u128) -> (r: String)
    ensures
        r@ == "entity:"@ + uuid_text(id),
{
    let mut v = chars_of("entity:");
    extend_str(&mut v, uuid_string(id).as_str());
    string_of(&v)
}

/// What `uuid::Uuid::parse_str` reads from a text, as a 128-bit integer
/// (`Uuid::as_u128`); `None` when the text is not a UUID in one of the
/// forms the crate accepts.
pub uninterp spec fn uuid_parse(s: Seq<char>) -> Option<u128>;

/// Calls `uuid::Uuid::parse_str`. The contract names the result as a
/// function of the text, and states what the crate documents of the
/// hyphenated form: it reads back the identifier it was formatted from.
#[verifier::external_body]
fn parse_uuid(s: &str) -> (r: Option<u128>)
    ensures
        r == uuid_parse(s@),
        forall|x: u128| s@ == uuid_text(x) ==> r == Some(x),
{
    uuid::Uuid::parse_str(s).ok().map(|u| u.as_u128())
}

/// The claim id of a `claim:` document id.
pub fn parse_claim_doc_id(s: &str) -> (r: Option<u128>)
    ensures
        r == if crate::text::starts_with(s@, "claim:"@) {
            uuid_parse(s@.skip(6))
        } else {
            None
        },
        forall|x: u128| s@ == "claim:"@ + uuid_text(x) ==> r == Some(x),
{
    let c = chars_of(s);
    proof {
        reveal_strlit("claim:");
    }
    if !crate::text::starts_with_str(&c, "claim:") {
        proof {
            assert forall|x: u128| s@ != "claim:"@ + uuid_text(x) by {
                let t = "claim:"@ + uuid_text(x);
                assert(t.subrange(0, 6) =~= "claim:"@);
            }
        }
        return None;
    }
    let rest = string_of(&crate::text::slice_chars(&c, 6, c.len()));
    assert(rest@ =~= s@.skip(6));
    proof {
        assert forall|x: u128| s@ == "claim:"@ + uuid_text(x) implies rest@ == uuid_text(x) by {
            assert(("claim:"@ + uuid_text(x)).skip(6) =~= uuid_text(x));
        }
    }
    parse_uuid(rest.as_str())
}

// ───────────────────────── scoring ─────────────────────────

/// Scored documents as plain values.
pub open spec fn scored_view(v: Seq<(String, usize)>) -> Seq<(Seq<char>, usize)> {
    v.map_values(|p: (String, usize)| (p.0@, p.1))
}

/// Live claims whose lowercased text shares tokens with the query, with
/// how many tokens it holds.
pub open spec fn claim_doc_scores(cs: Seq<ClaimRecord>, toks: Seq<Seq<char>>) -> Seq<(Seq<char>, usize)>
    decreases cs.len(),
{
    if cs.len() == 0 {
        seq![]
    } else {
        let prev = claim_doc_scores(cs.drop_last(), toks);
        let c = cs.last();
        let s = token_hits(ascii_lower(c.text@), toks);
        if !c.stale && s > 0 {
            prev.push(("claim:"@ + uuid_text(c.id), s as usize))
        } else {
            prev
        }
    }
}

/// Pages whose lowercased title and markdown share tokens with the query.
pub open spec fn page_doc_scores(ps: Seq<PageRecord>, toks: Seq<Seq<char>>) -> Seq<(Seq<char>, usize)>
    decreases ps.len(),
{
    if ps.len() == 0 {
        seq![]
    } else {
        let prev = page_doc_scores(ps.drop_last(), toks);
        let p = ps.last();
        let s = token_hits(ascii_lower(p.title@ + " "@ + p.markdown@), toks);
        if s > 0 {
            prev.push(("page:"@ + uuid_text(p.id), s as usize))
        } else {
            prev
        }
    }
}

/// Entities whose lowercased label shares tokens with the query.
pub open spec fn entity_doc_scores(es: Seq<EntityRecord>, toks: Seq<Seq<char>>) -> Seq<(Seq<char>, usize)>
    decreases es.len(),
{
    if es.len() == 0 {
        seq![]
    } else {
        let prev = entity_doc_scores(es.drop_last(), toks);
        let e = es.last();
        let s = token_hits(ascii_lower(e.label@), toks);
        if s > 0 {
            prev.push(("entity:"@ + uuid_text(e.id), s as usize))
        } else {
            prev
        }
    }
}

/// Keyword retrieval never returns a superseded claim: every scored claim
/// document is a live claim of the store.
pub proof fn lemma_scored_claims_are_live(cs: Seq<ClaimRecord>, toks: Seq<Seq<char>>, k: int)
    requires
        0 <= k < claim_doc_scores(cs, toks).len(),
    ensures
        exists|i: int|
            0 <= i < cs.len() && claim_doc_scores(cs, toks)[k].0 == "claim:"@ + uuid_text(#[trigger] cs[i].id)
                && !cs[i].stale,
    decreases cs.len(),
{
    let prev = claim_doc_scores(cs.drop_last(), toks);
    let full = claim_doc_scores(cs, toks);
    let c = cs.last();
    let sc = token_hits(ascii_lower(c.text@), toks);
    if k < prev.len() {
        lemma_scored_claims_are_live(cs.drop_last(), toks, k);
        assert(full[k] == prev[k]);
        let i = choose|i: int|
            0 <= i < cs.drop_last().len() && prev[k].0 == "claim:"@ + uuid_text(#[trigger] cs.drop_last()[i].id)
                && !cs.drop_last()[i].stale;
        assert(cs[i] == cs.drop_last()[i]);
        assert(full[k].0 == "claim:"@ + uuid_text(cs[i].id));
    } else {
        assert(!c.stale && sc > 0);
        assert(full == prev.push(("claim:"@ + uuid_text(c.id), sc as usize)));
        let i = cs.len() - 1;
        assert(cs[i] == c);
        assert(full[k].0 == "claim:"@ + uuid_text(cs[i].id));
    }
}

fn collect_claim_scores(cs: &Vec<ClaimRecord>, tokens: &[String], out: &mut Vec<(String, usize)>)
    ensures
        scored_view(final(out)@) == scored_view(old(out)@) + claim_doc_scores(cs@, string_views(tokens@)),
{
    let ghost start = scored_view(out@);
    let ghost toks = string_views(tokens@);
    let mut i: usize = 0;
    while i < cs.len()
        invariant
            i <= cs.len(),
            toks == string_views(tokens@),
            scored_view(out@) == start + claim_doc_scores(cs@.take(i as int), toks),
        decreases cs.len() - i,
    {
        let c = &cs[i];
        assert(cs@.take(i + 1).drop_last() =~= cs@.take(i as int));
        let t = string_of(&ascii_lower_chars(&chars_of(c.text.as_str())));
        let s = score_text_lc(t.as_str(), tokens);
        if !c.stale && s > 0 {
            let ghost before = scored_view(out@);
            out.push((format_claim_doc_id(c.id), s));
            assert(scored_view(out@) =~= before.push(("claim:"@ + uuid_text(c.id), s)));
        }
        i = i + 1;
    }
    assert(cs@.take(cs.len() as int) =~= cs@);
}

fn collect_page_scores(ps: &Vec<PageRecord>, tokens: &[String], out: &mut Vec<(String, usize)>)
    ensures
        scored_view(final(out)@) == scored_view(old(out)@) + page_doc_scores(ps@, string_views(tokens@)),
{
    let ghost start = scored_view(out@);
    let ghost toks = string_views(tokens@);
    let mut i: usize = 0;
    while i < ps.len()
        invariant
            i <= ps.len(),
            toks == string_views(tokens@),
            scored_view(out@) == start + page_doc_scores(ps@.take(i as int), toks),
        decreases ps.len() - i,
    {
        let p = &ps[i];
        assert(ps@.take(i + 1).drop_last() =~= ps@.take(i as int));
        let mut blob = chars_of(p.title.as_str());
        extend_str(&mut blob, " ");
        extend_str(&mut blob, p.markdown.as_str());
        proof {
            reveal_strlit(" ");
        }
        let t = string_of(&ascii_lower_chars(&blob));
        let s = score_text_lc(t.as_str(), tokens);
        if s > 0 {
            let ghost before = scored_view(out@);
            out.push((format_page_doc_id(p.id), s));
            assert(scored_view(out@) =~= before.push(("page:"@ + uuid_text(p.id), s)));
        }
        i = i + 1;
    }
    assert(ps@.take(ps.len() as int) =~= ps@);
}

fn collect_entity_scores(es: &Vec<EntityRecord>, tokens: &[String]) -> (r: Vec<(String, usize)>)
    ensures
        scored_view(r@) == entity_doc_scores(es@, string_views(tokens@)),
{
    let ghost toks = string_views(tokens@);
    let mut out: Vec<(String, usize)> = Vec::new();
    let mut i: usize = 0;
    while i < es.len()
        invariant
            i <= es.len(),
            toks == string_views(tokens@),
            scored_view(out@) == entity_doc_scores(es@.take(i as int), toks),
        decreases es.len() - i,
    {
        let e = &es[i];
        assert(es@.take(i + 1).drop_last() =~= es@.take(i as int));
        let t = string_of(&ascii_lower_chars(&chars_of(e.label.as_str())));
        let s = score_text_lc(t.as_str(), tokens);
        if s > 0 {
            let ghost before = scored_view(out@);
            out.push((format_entity_doc_id(e.id), s));
            assert(scored_view(out@) =~= before.push(("entity:"@ + uuid_text(e.id), s)));
        }
        i = i + 1;
    }
    assert(es@.take(es.len() as int) =~= es@);
    out
}

// ───────────────────────── ranking ─────────────────────────

/// Whether a scored document comes before another: higher score first,
/// then by id, ascending when `asc` holds and descending otherwise.
pub open spec fn doc_before(sa: usize, ia: Seq<char>, sb: usize, ib: Seq<char>, asc: bool) -> bool {
    sa > sb || (sa == sb && if asc {
        seq_lt(ia, ib)
    } else {
        seq_lt(ib, ia)
    })
}

/// Whether `order` sorts the documents by `doc_before`, equal ones in their
/// given order.
pub open spec fn docs_sorted(order: Seq<usize>, docs: Seq<(Seq<char>, usize)>, asc: bool) -> bool {
    forall|a: int, b: int|
        0 <= a < b < order.len() ==> doc_before(
            docs[order[a] as int].1,
            docs[order[a] as int].0,
            docs[order[b] as int].1,
            docs[order[b] as int].0,
            asc,
        ) || (docs[order[a] as int] == docs[order[b] as int] && order[a] < order[b])
}

proof fn lemma_doc_before_facts(x: (Seq<char>, usize), y: (Seq<char>, usize), z: (Seq<char>, usize), asc: bool)
    ensures
        doc_before(x.1, x.0, y.1, y.0, asc) || x == y || doc_before(y.1, y.0, x.1, x.0, asc),
        !(doc_before(x.1, x.0, y.1, y.0, asc) && doc_before(y.1, y.0, x.1, x.0, asc)),
        doc_before(x.1, x.0, y.1, y.0, asc) && doc_before(y.1, y.0, z.1, z.0, asc) ==> doc_before(
            x.1,
            x.0,
            z.1,
            z.0,
            asc,
        ),
{
    lemma_seq_lt_total(x.0, y.0);
    lemma_seq_lt_total(y.0, z.0);
    lemma_seq_lt_total(x.0, z.0);
    if seq_lt(x.0, y.0) && seq_lt(y.0, z.0) {
        lemma_seq_lt_trans(x.0, y.0, z.0);
    }
    if seq_lt(z.0, y.0) && seq_lt(y.0, x.0) {
        lemma_seq_lt_trans(z.0, y.0, x.0);
    }
}

fn doc_precedes(docs: &Vec<(String, usize)>, x: usize, y: usize, asc: bool) -> (r: bool)
    requires
        x < docs.len(),
        y < docs.len(),
    ensures
        r == doc_before(
            scored_view(docs@)[x as int].1,
            scored_view(docs@)[x as int].0,
            scored_view(docs@)[y as int].1,
            scored_view(docs@)[y as int].0,
            asc,
        ),
{
    let sx = docs[x].1;
    let sy = docs[y].1;
    if sx > sy {
        true
    } else if sx < sy {
        false
    } else {
        let tx = chars_of(docs[x].0.as_str());
        let ty = chars_of(docs[y].0.as_str());
        if asc {
            chars_lt(&tx, &ty)
        } else {
            chars_lt(&ty, &tx)
        }
    }
}

/// Order of indexes that sorts scored documents by `doc_before`, stably.
pub fn doc_order(docs: &Vec<(String, usize)>, asc: bool) -> (r: Vec<usize>)
    ensures
        is_permutation(r@, docs.len() as nat),
        docs_sorted(r@, scored_view(docs@), asc),
{
    let ghost dv = scored_view(docs@);
    let mut order: Vec<usize> = Vec::new();
    let mut i: usize = 0;
    while i < docs.len()
        invariant
            i <= docs.len(),
            dv == scored_view(docs@),
            is_permutation(order@, i as nat),
            docs_sorted(order@, dv, asc),
        decreases docs.len() - i,
    {
        let mut p: usize = 0;
        while p < order.len() && !doc_precedes(docs, i, order[p], asc)
            invariant
                p <= order.len(),
                dv == scored_view(docs@),
                is_permutation(order@, i as nat),
                i < docs.len(),
                forall|q: int|
                    0 <= q < p ==> !doc_before(
                        dv[i as int].1,
                        dv[i as int].0,
                        dv[order@[q] as int].1,
                        dv[order@[q] as int].0,
                        asc,
                    ),
            decreases order.len() - p,
        {
            p = p + 1;
        }
        let ghost old_order = order@;
        order.insert(p, i);
        proof {
            assert(order@ =~= old_order.take(p as int).push(i) + old_order.skip(p as int));
            assert forall|q: int| 0 <= q < order.len() implies order@[q] < i + 1 by {
                if q < p {
                    assert(order@[q] == old_order[q]);
                } else if q > p {
                    assert(order@[q] == old_order[q - 1]);
                }
            }
            assert forall|a: int, b: int| 0 <= a < b < order.len() implies order@[a] != order@[b] by {
                if a < p && b > p {
                    assert(order@[a] == old_order[a]);
                    assert(order@[b] == old_order[b - 1]);
                } else if a < p && b < p {
                    assert(order@[a] == old_order[a]);
                    assert(order@[b] == old_order[b]);
                } else if a > p {
                    assert(order@[a] == old_order[a - 1]);
                    assert(order@[b] == old_order[b - 1]);
                } else if a == p {
                    assert(order@[b] == old_order[b - 1]);
                } else {
                    assert(order@[a] == old_order[a]);
                }
            }
            assert forall|a: int, b: int| 0 <= a < b < order.len() implies doc_before(
                dv[order@[a] as int].1,
                dv[order@[a] as int].0,
                dv[order@[b] as int].1,
                dv[order@[b] as int].0,
                asc,
            ) || (dv[order@[a] as int] == dv[order@[b] as int] && order@[a] < order@[b]) by {
                let xa = order@[a] as int;
                let xb = order@[b] as int;
                lemma_doc_before_facts(dv[xa], dv[xb], dv[i as int], asc);
                if b < p {
                    assert(order@[a] == old_order[a]);
                    assert(order@[b] == old_order[b]);
                } else if b == p {
                    assert(order@[a] == old_order[a]);
                } else if a > p {
                    assert(order@[a] == old_order[a - 1]);
                    assert(order@[b] == old_order[b - 1]);
                } else if a == p {
                    assert(order@[b] == old_order[b - 1]);
                    let x0 = old_order[p as int] as int;
                    assert(doc_before(dv[i as int].1, dv[i as int].0, dv[x0].1, dv[x0].0, asc));
                    if b - 1 > p {
                        lemma_doc_before_facts(dv[i as int], dv[x0], dv[xb], asc);
                        lemma_doc_before_facts(dv[x0], dv[xb], dv[i as int], asc);
                    }
                } else {
                    assert(order@[a] == old_order[a]);
                    assert(order@[b] == old_order[b - 1]);
                    let x0 = old_order[p as int] as int;
                    assert(doc_before(dv[i as int].1, dv[i as int].0, dv[x0].1, dv[x0].0, asc));
                    lemma_doc_before_facts(dv[xa], dv[i as int], dv[x0], asc);
                    if b - 1 > p {
                        lemma_doc_before_facts(dv[i as int], dv[x0], dv[xb], asc);
                        lemma_doc_before_facts(dv[x0], dv[xb], dv[i as int], asc);
                    }
                }
            }
        }
        i = i + 1;
    }
    order
}

/// Whether `ids` are the first `limit` documents in the order `doc_before`
/// sorts them (equal documents in their given order).
pub open spec fn ranks(ids: Seq<Seq<char>>, docs: Seq<(Seq<char>, usize)>, limit: nat, asc: bool) -> bool {
    exists|order: Seq<usize>|
        {
            &&& is_permutation(order, docs.len())
            &&& docs_sorted(order, docs, asc)
            &&& ids == order.map_values(|k: usize| docs[k as int].0).take(
                if limit < docs.len() {
                    limit as int
                } else {
                    docs.len() as int
                },
            )
        }
}

/// The ids of the first `limit` documents by score, ties by id.
pub fn ranked_ids(docs: &Vec<(String, usize)>, limit: usize, asc: bool) -> (r: Vec<String>)
    ensures
        ranks(string_views(r@), scored_view(docs@), limit as nat, asc),
{
    let ghost dv = scored_view(docs@);
    let order = doc_order(docs, asc);
    let n: usize = if limit < order.len() {
        limit
    } else {
        order.len()
    };
    let ghost want = order@.map_values(|k: usize| dv[k as int].0).take(n as int);
    let mut out: Vec<String> = Vec::new();
    let mut i: usize = 0;
    while i < n
        invariant
            i <= n,
            n <= order.len(),
            order.len() == docs.len(),
            dv == scored_view(docs@),
            forall|k: int| 0 <= k < order@.len() ==> order@[k] < docs.len(),
            want == order@.map_values(|k: usize| dv[k as int].0).take(n as int),
            string_views(out@) == want.take(i as int),
        decreases n - i,
    {
        let k = order[i];
        let ghost before = string_views(out@);
        let id = docs[k].0.clone();
        assert(dv[k as int].0 == docs@[k as int].0@);
        assert(want[i as int] == dv[k as int].0);
        out.push(id);
        assert(string_views(out@) =~= before.push(id@));
        assert(string_views(out@) =~= want.take(i + 1));
        i = i + 1;
    }
    assert(want.take(n as int) =~= want);
    out
}

/// The keyword-overlap retrieval paths over the kernel's stores.
pub struct InMemorySearchPorts<'a, H: WikiHook> {
    pub store: &'a LlmWikiEngine<H>,
}

impl<'a, H: WikiHook> InMemorySearchPorts<'a, H> {
    /// Live claims, then pages, that share tokens with the query, with their scores.
    pub fn collect_doc_scores(&self, tokens: &[String]) -> (r: Vec<(String, usize)>)
        ensures
            scored_view(r@) == claim_doc_scores(self.store.claims@, string_views(tokens@)) + page_doc_scores(
                self.store.pages@,
                string_views(tokens@),
            ),
    {
        let mut out: Vec<(String, usize)> = Vec::new();
        collect_claim_scores(&self.store.claims, tokens, &mut out);
        collect_page_scores(&self.store.pages, tokens, &mut out);
        assert(scored_view(Seq::<(String, usize)>::empty()) =~= Seq::<(Seq<char>, usize)>::empty());
        out
    }
}

impl<'a, H: WikiHook> SearchPorts for InMemorySearchPorts<'a, H> {
    /// Claims and pages by score, ties by ascending id.
    fn bm25_ranked_ids(&self, query: &str, limit: usize) -> (r: Vec<String>)
        ensures
            ranks(
                string_views(r@),
                claim_doc_scores(self.store.claims@, query_token_list(query@)) + page_doc_scores(
                    self.store.pages@,
                    query_token_list(query@),
                ),
                limit as nat,
                true,
            ),
    {
        let tokens = query_tokens(query);
        let scored = self.collect_doc_scores(&tokens);
        ranked_ids(&scored, limit, true)
    }

    /// Claims and pages by score, ties by descending id.
    fn vector_ranked_ids(&self, query: &str, limit: usize) -> (r: Vec<String>)
        ensures
            ranks(
                string_views(r@),
                claim_doc_scores(self.store.claims@, query_token_list(query@)) + page_doc_scores(
                    self.store.pages@,
                    query_token_list(query@),
                ),
                limit as nat,
                false,
            ),
    {
        let tokens = query_tokens(query);
        let scored = self.collect_doc_scores(&tokens);
        ranked_ids(&scored, limit, false)
    }

    /// Entities by how many query tokens their label holds, ties by ascending id.
    fn graph_ranked_ids(&self, query: &str, limit: usize) -> (r: Vec<String>)
        ensures
            ranks(
                string_views(r@),
                entity_doc_scores(self.store.entities@, query_token_list(query@)),
                limit as nat,
                true,
            ),
    {
        let tokens = query_tokens(query);
        let scored = collect_entity_scores(&self.store.entities, &tokens);
        ranked_ids(&scored, limit, true)
    }
}

} // verus!
