//! The wiki's basic lint: weak or stale claims, pages with empty titles,
//! broken wikilinks, orphan pages, and claims no page mentions.
use crate::kernel::{claim_has_page_reference, has_page_reference};
use crate::text::{
    ascii_lower, ascii_lower_chars, chars_eq, chars_of, extend_chars, extend_str, string_of,
    string_views, trim, trim_str, views,
};
use crate::wiki_core::{extract_wikilinks, wikilinks, LintFinding, LintSeverity};
use vstd::prelude::*;
use vstd::string::StringExecFns;

verus! {

broadcast use vstd::string::group_string_axioms;

/// A claim as the lint reads it.
#[derive(Debug, Clone)]
pub struct LintClaim {
    pub id: String,
    pub text: String,
    /// Whether the claim's quality score is below the lint threshold (0.35).
    pub low_quality: bool,
    pub stale: bool,
}

/// A wiki page as the lint reads it.
#[derive(Debug, Clone)]
pub struct LintPage {
    pub id: String,
    pub title: String,
    pub markdown: String,
}

/// A finding as plain values: code, message, severity, subject.
pub open spec fn finding_view(f: LintFinding) -> (Seq<char>, Seq<char>, LintSeverity, Option<Seq<char>>) {
    (
        f.code@,
        f.message@,
        f.severity,
        match f.subject {
            Some(s) => Some(s@),
            None => None,
        },
    )
}

/// Findings as plain values.
pub open spec fn findings_view(fs: Seq<LintFinding>) -> Seq<(Seq<char>, Seq<char>, LintSeverity, Option<Seq<char>>)> {
    fs.map_values(|f: LintFinding| finding_view(f))
}

/// A finding about `subject`.
pub open spec fn fv(code: Seq<char>, message: Seq<char>, sev: LintSeverity, subject: Seq<char>) -> (
    Seq<char>,
    Seq<char>,
    LintSeverity,
    Option<Seq<char>>,
) {
    (code, message, sev, Some(subject))
}

/// Findings on one claim's quality and lifecycle.
pub open spec fn claim_quality_findings(c: LintClaim) -> Seq<(Seq<char>, Seq<char>, LintSeverity, Option<Seq<char>>)> {
    (if c.low_quality {
        seq![fv("quality.low"@, "claim quality below threshold"@, LintSeverity::Warn, c.id@)]
    } else {
        seq![]
    }) + (if c.stale {
        seq![fv("lifecycle.stale"@, "stale claim retained for audit"@, LintSeverity::Info, c.id@)]
    } else {
        seq![]
    })
}

/// Quality and lifecycle findings of the claims, in order.
pub open spec fn quality_findings(cs: Seq<LintClaim>) -> Seq<(Seq<char>, Seq<char>, LintSeverity, Option<Seq<char>>)>
    decreases cs.len(),
{
    if cs.len() == 0 {
        seq![]
    } else {
        quality_findings(cs.drop_last()) + claim_quality_findings(cs.last())
    }
}

/// Whether some page has `t` as its (trimmed, non-empty) title.
pub open spec fn is_title(pages: Seq<LintPage>, t: Seq<char>) -> bool {
    t.len() > 0 && exists|i: int| 0 <= i < pages.len() && trim(#[trigger] pages[i].title@) == t
}

/// Broken-link findings of a page's links.
pub open spec fn broken_links(links: Seq<Seq<char>>, pages: Seq<LintPage>, id: Seq<char>) -> Seq<(Seq<char>, Seq<char>, LintSeverity, Option<Seq<char>>)>
    decreases links.len(),
{
    if links.len() == 0 {
        seq![]
    } else {
        broken_links(links.drop_last(), pages, id) + if is_title(pages, links.last()) {
            seq![]
        } else {
            seq![fv("page.broken_wikilink"@, "broken wikilink: "@ + links.last(), LintSeverity::Warn, id)]
        }
    }
}

/// Findings on one page's title and links.
pub open spec fn page_link_findings(p: LintPage, pages: Seq<LintPage>) -> Seq<(Seq<char>, Seq<char>, LintSeverity, Option<Seq<char>>)> {
    (if trim(p.title@).len() == 0 {
        seq![fv("page.empty_title"@, "wiki page has empty title"@, LintSeverity::Error, p.id@)]
    } else {
        seq![]
    }) + broken_links(wikilinks(p.markdown@), pages, p.id@)
}

/// Title and link findings of the pages `ps`, links resolved against `pages`.
pub open spec fn link_findings(ps: Seq<LintPage>, pages: Seq<LintPage>) -> Seq<(Seq<char>, Seq<char>, LintSeverity, Option<Seq<char>>)>
    decreases ps.len(),
{
    if ps.len() == 0 {
        seq![]
    } else {
        link_findings(ps.drop_last(), pages) + page_link_findings(ps.last(), pages)
    }
}

/// Whether some page links to `t`.
pub open spec fn linked(pages: Seq<LintPage>, t: Seq<char>) -> bool {
    exists|i: int, j: int|
        0 <= i < pages.len() && 0 <= j < wikilinks(pages[i].markdown@).len() && #[trigger] wikilinks(
            pages[i].markdown@,
        )[j] == t
}

/// Orphan findings of the pages `ps`: those no page of `pages` links to.
pub open spec fn orphan_findings(ps: Seq<LintPage>, pages: Seq<LintPage>) -> Seq<(Seq<char>, Seq<char>, LintSeverity, Option<Seq<char>>)>
    decreases ps.len(),
{
    if ps.len() == 0 {
        seq![]
    } else {
        orphan_findings(ps.drop_last(), pages) + if linked(pages, ps.last().title@) {
            seq![]
        } else {
            seq![fv("page.orphan"@, "page has no inbound wikilinks"@, LintSeverity::Info, ps.last().id@)]
        }
    }
}

/// All pages' markdown, ASCII-lowercased, each followed by a line break.
pub open spec fn pages_text(ps: Seq<LintPage>) -> Seq<char>
    decreases ps.len(),
{
    if ps.len() == 0 {
        seq![]
    } else {
        pages_text(ps.drop_last()) + ascii_lower(ps.last().markdown@) + "\n"@
    }
}

/// Cross-reference findings of the claims against the pages' text.
pub open spec fn xref_findings(cs: Seq<LintClaim>, text: Seq<char>) -> Seq<(Seq<char>, Seq<char>, LintSeverity, Option<Seq<char>>)>
    decreases cs.len(),
{
    if cs.len() == 0 {
        seq![]
    } else {
        let c = cs.last();
        xref_findings(cs.drop_last(), text) + if c.stale {
            seq![fv("claim.stale"@, "stale claim should be reconciled in wiki pages"@, LintSeverity::Warn, c.id@)]
        } else if !has_page_reference(c.text@, text) {
            seq![fv("xref.missing"@, "claim keywords are not referenced in current pages"@, LintSeverity::Info, c.id@)]
        } else {
            seq![]
        }
    }
}

/// Everything the basic lint reports, in the order it reports it.
pub open spec fn basic_lint_findings(cs: Seq<LintClaim>, ps: Seq<LintPage>) -> Seq<(Seq<char>, Seq<char>, LintSeverity, Option<Seq<char>>)> {
    quality_findings(cs) + link_findings(ps, ps) + orphan_findings(ps, ps) + xref_findings(cs, pages_text(ps))
}

fn push_finding(out: &mut Vec<LintFinding>, code: &str, message: String, severity: LintSeverity, subject: &str)
    ensures
        findings_view(final(out)@) == findings_view(old(out)@).push(
            fv(code@, message@, severity, subject@),
        ),
{
    let ghost before = findings_view(out@);
    out.push(
        LintFinding {
            code: String::from_str(code),
            message,
            severity,
            subject: Some(String::from_str(subject)),
        },
    );
    assert(findings_view(out@) =~= before.push(fv(code@, message@, severity, subject@)));
}

fn quality_pass(claims: &[LintClaim], out: &mut Vec<LintFinding>)
    ensures
        findings_view(final(out)@) == findings_view(old(out)@) + quality_findings(claims@),
{
    let mut i: usize = 0;
    while i < claims.len()
        invariant
            i <= claims.len(),
            findings_view(out@) == findings_view(old(out)@) + quality_findings(claims@.take(i as int)),
        decreases claims.len() - i,
    {
        let c = &claims[i];
        let ghost pre = findings_view(out@);
        assert(claims@.take(i + 1).drop_last() =~= claims@.take(i as int));
        if c.low_quality {
            push_finding(
                out,
                "quality.low",
                String::from_str("claim quality below threshold"),
                LintSeverity::Warn,
                c.id.as_str(),
            );
        }
        if c.stale {
            push_finding(
                out,
                "lifecycle.stale",
                String::from_str("stale claim retained for audit"),
                LintSeverity::Info,
                c.id.as_str(),
            );
        }
        assert(findings_view(out@) =~= pre + claim_quality_findings(claims@[i as int]));
        i = i + 1;
    }
    assert(claims@.take(claims.len() as int) =~= claims@);
}

fn is_title_exec(trimmed: &Vec<Vec<char>>, t: &[char], Ghost(pages): Ghost<Seq<LintPage>>) -> (r: bool)
    requires
        trimmed.len() == pages.len(),
        forall|i: int| 0 <= i < pages.len() ==> #[trigger] trimmed@[i]@ == trim(pages[i].title@),
    ensures
        r == is_title(pages, t@),
{
    if t.len() == 0 {
        return false;
    }
    let mut i: usize = 0;
    while i < trimmed.len()
        invariant
            i <= trimmed.len(),
            trimmed.len() == pages.len(),
            forall|k: int| 0 <= k < pages.len() ==> #[trigger] trimmed@[k]@ == trim(pages[k].title@),
            forall|k: int| 0 <= k < i ==> trim(#[trigger] pages[k].title@) != t@,
            t@.len() > 0,
        decreases trimmed.len() - i,
    {
        if chars_eq(&trimmed[i], t) {
            assert(trim(pages[i as int].title@) == t@);
            return true;
        }
        i = i + 1;
    }
    false
}

fn link_pass(
    pages: &[LintPage],
    trimmed: &Vec<Vec<char>>,
    links: &Vec<Vec<String>>,
    out: &mut Vec<LintFinding>,
)
    requires
        trimmed.len() == pages.len(),
        links.len() == pages.len(),
        forall|i: int| 0 <= i < pages.len() ==> #[trigger] trimmed@[i]@ == trim(pages@[i].title@),
        forall|i: int|
            0 <= i < pages.len() ==> string_views(#[trigger] links@[i]@) == wikilinks(
                pages@[i].markdown@,
            ),
    ensures
        findings_view(final(out)@) == findings_view(old(out)@) + link_findings(pages@, pages@),
{
    let mut i: usize = 0;
    while i < pages.len()
        invariant
            i <= pages.len(),
            trimmed.len() == pages.len(),
            links.len() == pages.len(),
            forall|k: int| 0 <= k < pages.len() ==> #[trigger] trimmed@[k]@ == trim(pages@[k].title@),
            forall|k: int|
                0 <= k < pages.len() ==> string_views(#[trigger] links@[k]@) == wikilinks(
                    pages@[k].markdown@,
                ),
            findings_view(out@) == findings_view(old(out)@) + link_findings(
                pages@.take(i as int),
                pages@,
            ),
        decreases pages.len() - i,
    {
        let p = &pages[i];
        let ghost pre = findings_view(out@);
        assert(pages@.take(i + 1).drop_last() =~= pages@.take(i as int));
        if trimmed[i].len() == 0 {
            push_finding(
                out,
                "page.empty_title",
                String::from_str("wiki page has empty title"),
                LintSeverity::Error,
                p.id.as_str(),
            );
        }
        let ghost mid = findings_view(out@);
        let pl = &links[i];
        let ghost lv = string_views(pl@);
        let mut j: usize = 0;
        while j < pl.len()
            invariant
                j <= pl.len(),
                lv == string_views(pl@),
                trimmed.len() == pages.len(),
                forall|k: int|
                    0 <= k < pages.len() ==> #[trigger] trimmed@[k]@ == trim(pages@[k].title@),
                findings_view(out@) == mid + broken_links(lv.take(j as int), pages@, p.id@),
            decreases pl.len() - j,
        {
            let l = chars_of(pl[j].as_str());
            assert(lv.take(j + 1).drop_last() =~= lv.take(j as int));
            assert(lv.take(j + 1).last() == l@);
            if !is_title_exec(trimmed, &l, Ghost(pages@)) {
                let mut m = chars_of("broken wikilink: ");
                extend_chars(&mut m, &l);
                push_finding(out, "page.broken_wikilink", string_of(&m), LintSeverity::Warn, p.id.as_str());
            }
            j = j + 1;
        }
        assert(lv.take(pl.len() as int) =~= lv);
        assert(findings_view(out@) =~= pre + page_link_findings(pages@[i as int], pages@));
        i = i + 1;
    }
    assert(pages@.take(pages.len() as int) =~= pages@);
}

fn linked_exec(links: &Vec<Vec<String>>, t: &[char], Ghost(pages): Ghost<Seq<LintPage>>) -> (r: bool)
    requires
        links.len() == pages.len(),
        forall|i: int|
            0 <= i < pages.len() ==> string_views(#[trigger] links@[i]@) == wikilinks(
                pages[i].markdown@,
            ),
    ensures
        r == linked(pages, t@),
{
    let mut i: usize = 0;
    while i < links.len()
        invariant
            i <= links.len(),
            links.len() == pages.len(),
            forall|k: int|
                0 <= k < pages.len() ==> string_views(#[trigger] links@[k]@) == wikilinks(
                    pages[k].markdown@,
                ),
            forall|a: int, b: int|
                0 <= a < i && 0 <= b < wikilinks(pages[a].markdown@).len() ==> #[trigger] wikilinks(
                    pages[a].markdown@,
                )[b] != t@,
        decreases links.len() - i,
    {
        let pl = &links[i];
        assert(string_views(pl@) == wikilinks(pages[i as int].markdown@));
        let mut j: usize = 0;
        while j < pl.len()
            invariant
                j <= pl.len(),
                i < links.len(),
                links.len() == pages.len(),
                pl == links@[i as int],
                string_views(pl@) == wikilinks(pages[i as int].markdown@),
                forall|b: int| 0 <= b < j ==> wikilinks(pages[i as int].markdown@)[b] != t@,
            decreases pl.len() - j,
        {
            let l = chars_of(pl[j].as_str());
            assert(wikilinks(pages[i as int].markdown@)[j as int] == l@);
            if chars_eq(&l, t) {
                return true;
            }
            j = j + 1;
        }
        i = i + 1;
    }
    false
}

fn orphan_pass(pages: &[LintPage], links: &Vec<Vec<String>>, out: &mut Vec<LintFinding>)
    requires
        links.len() == pages.len(),
        forall|i: int|
            0 <= i < pages.len() ==> string_views(#[trigger] links@[i]@) == wikilinks(
                pages@[i].markdown@,
            ),
    ensures
        findings_view(final(out)@) == findings_view(old(out)@) + orphan_findings(pages@, pages@),
{
    let mut i: usize = 0;
    while i < pages.len()
        invariant
            i <= pages.len(),
            links.len() == pages.len(),
            forall|k: int|
                0 <= k < pages.len() ==> string_views(#[trigger] links@[k]@) == wikilinks(
                    pages@[k].markdown@,
                ),
            findings_view(out@) == findings_view(old(out)@) + orphan_findings(
                pages@.take(i as int),
                pages@,
            ),
        decreases pages.len() - i,
    {
        let p = &pages[i];
        let ghost pre = findings_view(out@);
        assert(pages@.take(i + 1).drop_last() =~= pages@.take(i as int));
        let t = chars_of(p.title.as_str());
        if !linked_exec(links, &t, Ghost(pages@)) {
            push_finding(
                out,
                "page.orphan",
                String::from_str("page has no inbound wikilinks"),
                LintSeverity::Info,
                p.id.as_str(),
            );
        }
        i = i + 1;
    }
    assert(pages@.take(pages.len() as int) =~= pages@);
}

fn pages_text_exec(pages: &[LintPage]) -> (r: String)
    ensures
        r@ == pages_text(pages@),
{
    let mut v: Vec<char> = Vec::new();
    let mut i: usize = 0;
    while i < pages.len()
        invariant
            i <= pages.len(),
            v@ == pages_text(pages@.take(i as int)),
        decreases pages.len() - i,
    {
        assert(pages@.take(i + 1).drop_last() =~= pages@.take(i as int));
        let m = ascii_lower_chars(&chars_of(pages[i].markdown.as_str()));
        extend_chars(&mut v, &m);
        extend_str(&mut v, "\n");
        i = i + 1;
    }
    assert(pages@.take(pages.len() as int) =~= pages@);
    string_of(&v)
}

fn xref_pass(claims: &[LintClaim], text: &str, out: &mut Vec<LintFinding>)
    ensures
        findings_view(final(out)@) == findings_view(old(out)@) + xref_findings(claims@, text@),
{
    let mut i: usize = 0;
    while i < claims.len()
        invariant
            i <= claims.len(),
            findings_view(out@) == findings_view(old(out)@) + xref_findings(
                claims@.take(i as int),
                text@,
            ),
        decreases claims.len() - i,
    {
        let c = &claims[i];
        assert(claims@.take(i + 1).drop_last() =~= claims@.take(i as int));
        if c.stale {
            push_finding(
                out,
                "claim.stale",
                String::from_str("stale claim should be reconciled in wiki pages"),
                LintSeverity::Warn,
                c.id.as_str(),
            );
        } else if !claim_has_page_reference(c.text.as_str(), text) {
            push_finding(
                out,
                "xref.missing",
                String::from_str("claim keywords are not referenced in current pages"),
                LintSeverity::Info,
                c.id.as_str(),
            );
        }
        i = i + 1;
    }
    assert(claims@.take(claims.len() as int) =~= claims@);
}

/// Runs the basic lint over the wiki's claims and pages. Pages' links are
/// read afresh from their markdown; findings come claims first, then titles
/// and links page by page, then orphans, then cross-references.
pub fn basic_lint(claims: &[LintClaim], pages: &[LintPage]) -> (r: Vec<LintFinding>)
    ensures
        findings_view(r@) == basic_lint_findings(claims@, pages@),
{
    let mut out: Vec<LintFinding> = Vec::new();
    quality_pass(claims, &mut out);
    let mut trimmed: Vec<Vec<char>> = Vec::new();
    let mut links: Vec<Vec<String>> = Vec::new();
    let mut i: usize = 0;
    while i < pages.len()
        invariant
            i <= pages.len(),
            trimmed.len() == i,
            links.len() == i,
            forall|k: int| 0 <= k < i ==> #[trigger] trimmed@[k]@ == trim(pages@[k].title@),
            forall|k: int|
                0 <= k < i ==> string_views(#[trigger] links@[k]@) == wikilinks(
                    pages@[k].markdown@,
                ),
        decreases pages.len() - i,
    {
        trimmed.push(trim_str(pages[i].title.as_str()));
        links.push(extract_wikilinks(pages[i].markdown.as_str()));
        i = i + 1;
    }
    link_pass(pages, &trimmed, &links, &mut out);
    orphan_pass(pages, &links, &mut out);
    let text = pages_text_exec(pages);
    xref_pass(claims, text.as_str(), &mut out);
    assert(findings_view(out@) =~= basic_lint_findings(claims@, pages@));
    out
}

/// Whether every finding names a subject.
pub open spec fn all_have_subjects(fs: Seq<(Seq<char>, Seq<char>, LintSeverity, Option<Seq<char>>)>) -> bool {
    forall|i: int| 0 <= i < fs.len() ==> (#[trigger] fs[i]).3 is Some
}

proof fn lemma_concat_subjects(
    a: Seq<(Seq<char>, Seq<char>, LintSeverity, Option<Seq<char>>)>,
    b: Seq<(Seq<char>, Seq<char>, LintSeverity, Option<Seq<char>>)>,
)
    requires
        all_have_subjects(a),
        all_have_subjects(b),
    ensures
        all_have_subjects(a + b),
{
    assert forall|i: int| 0 <= i < (a + b).len() implies (#[trigger] (a + b)[i]).3 is Some by {
        if i < a.len() {
            assert((a + b)[i] == a[i]);
        } else {
            assert((a + b)[i] == b[i - a.len()]);
        }
    }
}

proof fn lemma_quality_subjects(cs: Seq<LintClaim>)
    ensures
        all_have_subjects(quality_findings(cs)),
    decreases cs.len(),
{
    if cs.len() > 0 {
        lemma_quality_subjects(cs.drop_last());
        let c = cs.last();
        let a = if c.low_quality {
            seq![fv("quality.low"@, "claim quality below threshold"@, LintSeverity::Warn, c.id@)]
        } else {
            seq![]
        };
        let b = if c.stale {
            seq![fv("lifecycle.stale"@, "stale claim retained for audit"@, LintSeverity::Info, c.id@)]
        } else {
            seq![]
        };
        lemma_concat_subjects(a, b);
        lemma_concat_subjects(quality_findings(cs.drop_last()), claim_quality_findings(c));
    }
}

proof fn lemma_broken_subjects(links: Seq<Seq<char>>, pages: Seq<LintPage>, id: Seq<char>)
    ensures
        all_have_subjects(broken_links(links, pages, id)),
    decreases links.len(),
{
    if links.len() > 0 {
        lemma_broken_subjects(links.drop_last(), pages, id);
        let tail = if is_title(pages, links.last()) {
            seq![]
        } else {
            seq![fv("page.broken_wikilink"@, "broken wikilink: "@ + links.last(), LintSeverity::Warn, id)]
        };
        lemma_concat_subjects(broken_links(links.drop_last(), pages, id), tail);
    }
}

proof fn lemma_link_subjects(ps: Seq<LintPage>, pages: Seq<LintPage>)
    ensures
        all_have_subjects(link_findings(ps, pages)),
    decreases ps.len(),
{
    if ps.len() > 0 {
        lemma_link_subjects(ps.drop_last(), pages);
        let p = ps.last();
        let head = if trim(p.title@).len() == 0 {
            seq![fv("page.empty_title"@, "wiki page has empty title"@, LintSeverity::Error, p.id@)]
        } else {
            seq![]
        };
        lemma_broken_subjects(wikilinks(p.markdown@), pages, p.id@);
        lemma_concat_subjects(head, broken_links(wikilinks(p.markdown@), pages, p.id@));
        lemma_concat_subjects(link_findings(ps.drop_last(), pages), page_link_findings(p, pages));
    }
}

proof fn lemma_orphan_subjects(ps: Seq<LintPage>, pages: Seq<LintPage>)
    ensures
        all_have_subjects(orphan_findings(ps, pages)),
    decreases ps.len(),
{
    if ps.len() > 0 {
        lemma_orphan_subjects(ps.drop_last(), pages);
        let tail = if linked(pages, ps.last().title@) {
            seq![]
        } else {
            seq![fv("page.orphan"@, "page has no inbound wikilinks"@, LintSeverity::Info, ps.last().id@)]
        };
        lemma_concat_subjects(orphan_findings(ps.drop_last(), pages), tail);
    }
}

proof fn lemma_xref_subjects(cs: Seq<LintClaim>, text: Seq<char>)
    ensures
        all_have_subjects(xref_findings(cs, text)),
    decreases cs.len(),
{
    if cs.len() > 0 {
        lemma_xref_subjects(cs.drop_last(), text);
        let c = cs.last();
        let tail = if c.stale {
            seq![fv("claim.stale"@, "stale claim should be reconciled in wiki pages"@, LintSeverity::Warn, c.id@)]
        } else if !has_page_reference(c.text@, text) {
            seq![fv("xref.missing"@, "claim keywords are not referenced in current pages"@, LintSeverity::Info, c.id@)]
        } else {
            seq![]
        };
        lemma_concat_subjects(xref_findings(cs.drop_last(), text), tail);
    }
}

/// Every finding of the basic lint names the claim or page it is about.
pub proof fn lemma_lint_findings_have_subjects(cs: Seq<LintClaim>, ps: Seq<LintPage>)
    ensures
        all_have_subjects(basic_lint_findings(cs, ps)),
{
    lemma_quality_subjects(cs);
    lemma_link_subjects(ps, ps);
    lemma_orphan_subjects(ps, ps);
    lemma_xref_subjects(cs, pages_text(ps));
    lemma_concat_subjects(quality_findings(cs), link_findings(ps, ps));
    lemma_concat_subjects(quality_findings(cs) + link_findings(ps, ps), orphan_findings(ps, ps));
    lemma_concat_subjects(
        quality_findings(cs) + link_findings(ps, ps) + orphan_findings(ps, ps),
        xref_findings(cs, pages_text(ps)),
    );
}

proof fn lemma_xref_reports_stale(cs: Seq<LintClaim>, text: Seq<char>, k: int)
    requires
        0 <= k < cs.len(),
        cs[k].stale,
    ensures
        xref_findings(cs, text).contains(
            fv("claim.stale"@, "stale claim should be reconciled in wiki pages"@, LintSeverity::Warn, cs[k].id@),
        ),
    decreases cs.len(),
{
    let f = fv("claim.stale"@, "stale claim should be reconciled in wiki pages"@, LintSeverity::Warn, cs[k].id@);
    let pre = xref_findings(cs.drop_last(), text);
    let whole = xref_findings(cs, text);
    if k == cs.len() - 1 {
        assert(whole[pre.len() as int] == f);
    } else {
        lemma_xref_reports_stale(cs.drop_last(), text, k);
        let j = choose|j: int| 0 <= j < pre.len() && pre[j] == f;
        assert(whole[j] == f);
    }
}

/// A stale claim is always reported as one to reconcile in the wiki pages.
pub proof fn lemma_lint_reports_stale_claims(cs: Seq<LintClaim>, ps: Seq<LintPage>, k: int)
    requires
        0 <= k < cs.len(),
        cs[k].stale,
    ensures
        basic_lint_findings(cs, ps).contains(
            fv("claim.stale"@, "stale claim should be reconciled in wiki pages"@, LintSeverity::Warn, cs[k].id@),
        ),
{
    let f = fv("claim.stale"@, "stale claim should be reconciled in wiki pages"@, LintSeverity::Warn, cs[k].id@);
    lemma_xref_reports_stale(cs, pages_text(ps), k);
    let head = quality_findings(cs) + link_findings(ps, ps) + orphan_findings(ps, ps);
    let tail = xref_findings(cs, pages_text(ps));
    let j = choose|j: int| 0 <= j < tail.len() && tail[j] == f;
    assert((head + tail)[head.len() + j] == f);
}

proof fn lemma_quality_reports(cs: Seq<LintClaim>, k: int, f: (Seq<char>, Seq<char>, LintSeverity, Option<Seq<char>>))
    requires
        0 <= k < cs.len(),
        claim_quality_findings(cs[k]).contains(f),
    ensures
        quality_findings(cs).contains(f),
    decreases cs.len(),
{
    let pre = quality_findings(cs.drop_last());
    let whole = quality_findings(cs);
    if k == cs.len() - 1 {
        let j = choose|j: int| 0 <= j < claim_quality_findings(cs[k]).len() && claim_quality_findings(cs[k])[j] == f;
        assert(whole[pre.len() + j] == f);
    } else {
        assert(cs.drop_last()[k] == cs[k]);
        lemma_quality_reports(cs.drop_last(), k, f);
        let j = choose|j: int| 0 <= j < pre.len() && pre[j] == f;
        assert(whole[j] == f);
    }
}

proof fn lemma_xref_reports_missing(cs: Seq<LintClaim>, text: Seq<char>, k: int)
    requires
        0 <= k < cs.len(),
        !cs[k].stale,
        !has_page_reference(cs[k].text@, text),
    ensures
        xref_findings(cs, text).contains(
            fv("xref.missing"@, "claim keywords are not referenced in current pages"@, LintSeverity::Info, cs[k].id@),
        ),
    decreases cs.len(),
{
    let f = fv("xref.missing"@, "claim keywords are not referenced in current pages"@, LintSeverity::Info, cs[k].id@);
    let pre = xref_findings(cs.drop_last(), text);
    let whole = xref_findings(cs, text);
    if k == cs.len() - 1 {
        assert(whole[pre.len() as int] == f);
    } else {
        assert(cs.drop_last()[k] == cs[k]);
        lemma_xref_reports_missing(cs.drop_last(), text, k);
        let j = choose|j: int| 0 <= j < pre.len() && pre[j] == f;
        assert(whole[j] == f);
    }
}

/// What the lint reports of every claim: a claim the application found of
/// low quality is reported `quality.low`; a stale claim both
/// `lifecycle.stale` and `claim.stale`; a live claim none of whose
/// keywords occurs in the pages' text `xref.missing`.
pub proof fn lemma_lint_covers_claims(cs: Seq<LintClaim>, ps: Seq<LintPage>)
    ensures
        forall|k: int| 0 <= k < cs.len() && #[trigger] cs[k].low_quality ==> basic_lint_findings(cs, ps).contains(
            fv("quality.low"@, "claim quality below threshold"@, LintSeverity::Warn, cs[k].id@),
        ),
        forall|k: int| 0 <= k < cs.len() && #[trigger] cs[k].stale ==> basic_lint_findings(cs, ps).contains(
            fv("lifecycle.stale"@, "stale claim retained for audit"@, LintSeverity::Info, cs[k].id@),
        ) && basic_lint_findings(cs, ps).contains(
            fv("claim.stale"@, "stale claim should be reconciled in wiki pages"@, LintSeverity::Warn, cs[k].id@),
        ),
        forall|k: int|
            0 <= k < cs.len() && !#[trigger] cs[k].stale && !has_page_reference(cs[k].text@, pages_text(ps))
                ==> basic_lint_findings(cs, ps).contains(
                fv("xref.missing"@, "claim keywords are not referenced in current pages"@, LintSeverity::Info, cs[k].id@),
            ),
{
    let head = quality_findings(cs) + link_findings(ps, ps) + orphan_findings(ps, ps);
    let tail = xref_findings(cs, pages_text(ps));
    let whole = basic_lint_findings(cs, ps);
    assert(whole == head + tail);
    assert forall|k: int| 0 <= k < cs.len() && #[trigger] cs[k].low_quality implies whole.contains(
        fv("quality.low"@, "claim quality below threshold"@, LintSeverity::Warn, cs[k].id@),
    ) by {
        let f = fv("quality.low"@, "claim quality below threshold"@, LintSeverity::Warn, cs[k].id@);
        assert(claim_quality_findings(cs[k])[0] == f);
        lemma_quality_reports(cs, k, f);
        let j = choose|j: int| 0 <= j < quality_findings(cs).len() && quality_findings(cs)[j] == f;
        assert(whole[j] == f);
    }
    assert forall|k: int| 0 <= k < cs.len() && #[trigger] cs[k].stale implies whole.contains(
        fv("lifecycle.stale"@, "stale claim retained for audit"@, LintSeverity::Info, cs[k].id@),
    ) && whole.contains(
        fv("claim.stale"@, "stale claim should be reconciled in wiki pages"@, LintSeverity::Warn, cs[k].id@),
    ) by {
        let f = fv("lifecycle.stale"@, "stale claim retained for audit"@, LintSeverity::Info, cs[k].id@);
        let q = claim_quality_findings(cs[k]);
        assert(q[q.len() - 1] == f);
        lemma_quality_reports(cs, k, f);
        let j = choose|j: int| 0 <= j < quality_findings(cs).len() && quality_findings(cs)[j] == f;
        assert(whole[j] == f);
        lemma_lint_reports_stale_claims(cs, ps, k);
    }
    assert forall|k: int|
        0 <= k < cs.len() && !#[trigger] cs[k].stale && !has_page_reference(cs[k].text@, pages_text(ps))
            implies whole.contains(
        fv("xref.missing"@, "claim keywords are not referenced in current pages"@, LintSeverity::Info, cs[k].id@),
    ) by {
        let f = fv("xref.missing"@, "claim keywords are not referenced in current pages"@, LintSeverity::Info, cs[k].id@);
        lemma_xref_reports_missing(cs, pages_text(ps), k);
        let j = choose|j: int| 0 <= j < tail.len() && tail[j] == f;
        assert(whole[head.len() + j] == f);
    }
}

proof fn lemma_lower_char_idem(c: char)
    ensures
        crate::text::ascii_lower_char(crate::text::ascii_lower_char(c)) == crate::text::ascii_lower_char(c),
{
    if crate::text::is_ascii_upper(c) {
        let d = crate::text::ascii_lower_char(c);
        assert(d as u32 == (c as u32) + 32);
        assert(!crate::text::is_ascii_upper(d));
    }
}

proof fn lemma_lower_idem(s: Seq<char>)
    ensures
        ascii_lower(ascii_lower(s)) == ascii_lower(s),
{
    assert forall|k: int| 0 <= k < s.len() implies ascii_lower(ascii_lower(s))[k] == ascii_lower(s)[k] by {
        lemma_lower_char_idem(s[k]);
    }
    assert(ascii_lower(ascii_lower(s)) =~= ascii_lower(s));
}

proof fn lemma_contains_in_concat(a: Seq<char>, m: Seq<char>, b: Seq<char>, w: Seq<char>)
    requires
        crate::text::contains(m, w),
    ensures
        crate::text::contains(a + m + b, w),
{
    let i = choose|i: int| crate::text::occurs_at(m, w, i);
    assert((a + m + b).subrange(a.len() + i, a.len() + i + w.len()) =~= m.subrange(i, i + w.len()));
    assert(crate::text::occurs_at(a + m + b, w, a.len() + i));
}

proof fn lemma_contains_in_prefix(a: Seq<char>, b: Seq<char>, w: Seq<char>)
    requires
        crate::text::contains(a, w),
    ensures
        crate::text::contains(a + b, w),
{
    let i = choose|i: int| crate::text::occurs_at(a, w, i);
    assert((a + b).subrange(i, i + w.len()) =~= a.subrange(i, i + w.len()));
    assert(crate::text::occurs_at(a + b, w, i));
}

/// The text claims are matched against is case-insensitive: it is already
/// ASCII-lowercase, and anything that occurs in a page's markdown in any
/// ASCII case (that is, in its lowercased markdown) occurs in it.
pub proof fn lemma_pages_text_case_insensitive(ps: Seq<LintPage>)
    ensures
        ascii_lower(pages_text(ps)) == pages_text(ps),
        forall|k: int, w: Seq<char>|
            0 <= k < ps.len() && #[trigger] crate::text::contains(ascii_lower(ps[k].markdown@), w) ==> crate::text::contains(pages_text(ps), w),
    decreases ps.len(),
{
    if ps.len() > 0 {
        let pre = ps.drop_last();
        lemma_pages_text_case_insensitive(pre);
        let m = ascii_lower(ps.last().markdown@);
        let whole = pages_text(pre) + m + "\n"@;
        assert(pages_text(ps) == whole);
        lemma_lower_idem(ps.last().markdown@);
        reveal_strlit("\n");
        assert(ascii_lower("\n"@) =~= "\n"@);
        assert(ascii_lower(whole) =~= ascii_lower(pages_text(pre)) + ascii_lower(m) + ascii_lower("\n"@));
        assert forall|k: int, w: Seq<char>|
            0 <= k < ps.len() && #[trigger] crate::text::contains(ascii_lower(ps[k].markdown@), w) implies crate::text::contains(
            pages_text(ps),
            w,
        ) by {
            if k == ps.len() - 1 {
                lemma_contains_in_concat(pages_text(pre), m, "\n"@, w);
            } else {
                assert(pre[k] == ps[k]);
                assert(crate::text::contains(pages_text(pre), w));
                lemma_contains_in_prefix(pages_text(pre), m + "\n"@, w);
                assert(pages_text(pre) + (m + "\n"@) =~= whole);
            }
        }
    } else {
        assert(ascii_lower(pages_text(ps)) =~= pages_text(ps));
    }
}

/// A claim one of whose keywords occurs, in any ASCII case, in some page's
/// markdown counts as referenced by the pages.
pub proof fn lemma_keyword_in_any_case_is_referenced(cs: Seq<LintClaim>, ps: Seq<LintPage>, c: int, k: int, i: int)
    requires
        0 <= c < cs.len(),
        0 <= k < ps.len(),
        0 <= i < crate::kernel::claim_keys(cs[c].text@).len(),
        crate::text::contains(ascii_lower(ps[k].markdown@), crate::kernel::claim_keys(cs[c].text@)[i]),
    ensures
        has_page_reference(cs[c].text@, pages_text(ps)),
{
    lemma_pages_text_case_insensitive(ps);
    let key = crate::kernel::claim_keys(cs[c].text@)[i];
    assert(crate::text::contains(pages_text(ps), key));
}

} // verus!
