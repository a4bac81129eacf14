//! Research reports: the markdown rendered as a standalone HTML page with
//! a table of contents of its second- and third-level headings.
use crate::agent_policy::{strip_all, strip_all_exec};
use crate::kernel::{trim_dashes, trim_dashes_exec};
use crate::text::{
    chars_of, extend_chars, extend_str, starts_with,
    starts_with_str, string_of, trim, trim_chars, views,
};
use crate::unicode::{char_alphanumeric, is_alphanumeric, str_lowercase, to_lowercase};
use crate::wiki_core::{lines, lines_exec};
use vstd::prelude::*;
use vstd::string::StringExecFns;

verus! {

broadcast use vstd::string::group_string_axioms;

/// What `pulldown_cmark` renders as HTML for a markdown text, with tables,
/// strikethrough and footnotes enabled.
pub uninterp spec fn markdown_html(md: Seq<char>) -> Seq<char>;

/// Renders markdown with `pulldown_cmark::Parser::new_ext` and
/// `pulldown_cmark::html::push_html` (tables, strikethrough and footnotes
/// enabled); the HTML is named by `markdown_html`.
#[verifier::external_body]
fn markdown_to_html(md: &str) -> (r: String)
    ensures
        r@ == markdown_html(md@),
{
    let mut opts = pulldown_cmark::Options::empty();
    opts.insert(pulldown_cmark::Options::ENABLE_TABLES);
    opts.insert(pulldown_cmark::Options::ENABLE_STRIKETHROUGH);
    opts.insert(pulldown_cmark::Options::ENABLE_FOOTNOTES);
    let mut out = String::new();
    pulldown_cmark::html::push_html(&mut out, pulldown_cmark::Parser::new_ext(md, opts));
    out
}

/// Anchor of a heading, characters before case mapping: alphanumeric ones
/// and `-` kept, any other as `-`.
pub open spec fn anchor_chars(s: Seq<char>) -> Seq<char>
    decreases s.len(),
{
    if s.len() == 0 {
        seq![]
    } else {
        anchor_chars(s.drop_last()).push(
            if char_alphanumeric(s.last()) || s.last() == '-' {
                s.last()
            } else {
                '-'
            },
        )
    }
}

/// Anchor of a heading: its anchor characters lowercased (Unicode lowercase
/// mapping), without leading or trailing `-`.
pub open spec fn anchor_of(text: Seq<char>) -> Seq<char> {
    trim_dashes(str_lowercase(anchor_chars(text)))
}

/// URL anchor of a heading: letters lowercased, every character that is
/// neither alphanumeric nor `-` turned into `-`, outer `-` trimmed.
pub fn heading_to_anchor(text: &str) -> (r: String)
    ensures
        r@ == anchor_of(text@),
{
    let t = chars_of(text);
    let mut out: Vec<char> = Vec::new();
    let mut i: usize = 0;
    while i < t.len()
        invariant
            i <= t.len(),
            t@ == text@,
            out@ == anchor_chars(t@.take(i as int)),
        decreases t.len() - i,
    {
        let c = t[i];
        assert(t@.take(i + 1).drop_last() =~= t@.take(i as int));
        assert(t@.take(i + 1).last() == c);
        if is_alphanumeric(c) || c == '-' {
            out.push(c);
        } else {
            out.push('-');
        }
        i = i + 1;
    }
    assert(t@.take(t.len() as int) =~= t@);
    let mapped = string_of(&out);
    let lower = to_lowercase(mapped.as_str());
    string_of(&trim_dashes_exec(&chars_of(lower.as_str())))
}

/// Table-of-contents entry of a markdown line, if it is a second- or
/// third-level heading.
pub open spec fn toc_item(line: Seq<char>) -> Seq<char> {
    if starts_with(line, "## "@) {
        let text = trim(line.skip(3));
        "<li><a href=\"#"@ + anchor_of(text) + "\">"@ + text + "</a></li>"@
    } else if starts_with(line, "### "@) {
        let text = trim(line.skip(4));
        "<li class=\"toc-h3\"><a href=\"#"@ + anchor_of(text) + "\">"@ + text + "</a></li>"@
    } else {
        seq![]
    }
}

/// Entries of the lines, concatenated.
pub open spec fn toc_items(ls: Seq<Seq<char>>) -> Seq<char>
    decreases ls.len(),
{
    if ls.len() == 0 {
        seq![]
    } else {
        toc_items(ls.drop_last()) + toc_item(ls.last())
    }
}

/// Table of contents of a report: a list of its headings, or a note that
/// there is none.
pub open spec fn toc_html(md: Seq<char>) -> Seq<char> {
    let items = toc_items(lines(md));
    if items.len() == 0 {
        "<ul><li><em>无目录</em></li></ul>"@
    } else {
        "<ul>"@ + items + "</ul>"@
    }
}

/// Table of contents of a report.
pub fn build_html_toc(md: &str) -> (r: String)
    ensures
        r@ == toc_html(md@),
{
    let ls = lines_exec(&chars_of(md));
    let ghost lv = views(ls@);
    let mut items: Vec<char> = Vec::new();
    let mut i: usize = 0;
    while i < ls.len()
        invariant
            i <= ls.len(),
            lv == views(ls@),
            lv == lines(md@),
            items@ == toc_items(lv.take(i as int)),
        decreases ls.len() - i,
    {
        let l = &ls[i];
        assert(lv.take(i + 1).drop_last() =~= lv.take(i as int));
        assert(lv.take(i + 1).last() == l@);
        let ghost before = items@;
        if starts_with_str(l, "## ") {
            proof {
                reveal_strlit("## ");
            }
            let rest = crate::text::slice_chars(l, 3, l.len());
            assert(rest@ =~= l@.skip(3));
            let text = trim_chars(&rest);
            let anchor = heading_to_anchor(string_of(&text).as_str());
            extend_str(&mut items, "<li><a href=\"#");
            extend_str(&mut items, anchor.as_str());
            extend_str(&mut items, "\">");
            extend_chars(&mut items, &text);
            extend_str(&mut items, "</a></li>");
        } else if starts_with_str(l, "### ") {
            proof {
                reveal_strlit("### ");
            }
            let rest = crate::text::slice_chars(l, 4, l.len());
            assert(rest@ =~= l@.skip(4));
            let text = trim_chars(&rest);
            let anchor = heading_to_anchor(string_of(&text).as_str());
            extend_str(&mut items, "<li class=\"toc-h3\"><a href=\"#");
            extend_str(&mut items, anchor.as_str());
            extend_str(&mut items, "\">");
            extend_chars(&mut items, &text);
            extend_str(&mut items, "</a></li>");
        }
        assert(items@ =~= before + toc_item(l@));
        i = i + 1;
    }
    assert(lv.take(ls.len() as int) =~= lv);
    if items.len() == 0 {
        String::from_str("<ul><li><em>无目录</em></li></ul>")
    } else {
        let mut v = chars_of("<ul>");
        extend_chars(&mut v, &items);
        extend_str(&mut v, "</ul>");
        string_of(&v)
    }
}

/// The first line that starts with `# `.
pub open spec fn first_h1(ls: Seq<Seq<char>>) -> Option<Seq<char>>
    decreases ls.len(),
{
    if ls.len() == 0 {
        None
    } else if starts_with(ls[0], "# "@) {
        Some(ls[0])
    } else {
        first_h1(ls.drop_first())
    }
}

/// Title of a report: its first top-level heading without the `# `
/// markers, trimmed; a default title when there is none.
pub open spec fn report_title_of(md: Seq<char>) -> Seq<char> {
    match first_h1(lines(md)) {
        Some(l) => trim(strip_all(l, "# "@)),
        None => "研究报告"@,
    }
}

/// Title of a report.
pub fn report_title(md: &str) -> (r: String)
    ensures
        r@ == report_title_of(md@),
{
    let ls = lines_exec(&chars_of(md));
    let ghost lv = views(ls@);
    assert(lv.skip(0) =~= lv);
    let mut i: usize = 0;
    while i < ls.len()
        invariant
            i <= ls.len(),
            lv == views(ls@),
            lv == lines(md@),
            first_h1(lv) == first_h1(lv.skip(i as int)),
        decreases ls.len() - i,
    {
        assert(lv.skip(i as int)[0] == ls@[i as int]@);
        if starts_with_str(&ls[i], "# ") {
            let s = strip_all_exec(&ls[i], "# ");
            return string_of(&trim_chars(&s));
        }
        assert(lv.skip(i as int).drop_first() =~= lv.skip(i + 1));
        i = i + 1;
    }
    assert(lv.skip(ls.len() as int) =~= Seq::<Seq<char>>::empty());
    String::from_str("研究报告")
}

/// Page text before the title.
pub const PAGE_HEAD: &'static str = "<!DOCTYPE html>\n<html lang=\"zh-CN\">\n<head>\n<meta charset=\"UTF-8\">\n<meta name=\"viewport\" content=\"width=device-width, initial-scale=1.0\">\n<title>";

/// Page text between the title and the table of contents (the style sheet).
pub const PAGE_STYLE: &'static str = "</title>\n<style>\n  :root {\n    --accent: #7c3aed;\n    --text: #1e1b2e;\n    --text-muted: #6b7280;\n    --border: #e5e7eb;\n    --bg: #fafafa;\n    --code-bg: #f3f4f6;\n  }\n  * { box-sizing: border-box; margin: 0; padding: 0; }\n  body {\n    font-family: \"Noto Serif SC\", Georgia, \"Times New Roman\", serif;\n    font-size: 16px;\n    line-height: 1.8;\n    color: var(--text);\n    background: var(--bg);\n    display: flex;\n    min-height: 100vh;\n  }\n  #toc {\n    width: 220px;\n    flex-shrink: 0;\n    position: sticky;\n    top: 0;\n    height: 100vh;\n    overflow-y: auto;\n    padding: 28px 16px;\n    border-right: 1px solid var(--border);\n    font-size: 13px;\n    font-family: system-ui, sans-serif;\n    background: #fff;\n  }\n  #toc h3 {\n    font-size: 11px;\n    font-weight: 700;\n    text-transform: uppercase;\n    letter-spacing: 0.08em;\n    color: var(--text-muted);\n    margin-bottom: 12px;\n  }\n  #toc ul { list-style: none; padding: 0; }\n  #toc li { margin: 4px 0; }\n  #toc a {\n    color: var(--text-muted);\n    text-decoration: none;\n    display: block;\n    padding: 2px 6px;\n    border-radius: 4px;\n    transition: background 0.12s, color 0.12s;\n  }\n  #toc a:hover { background: #ede9fe; color: var(--accent); }\n  #toc .toc-h3 { padding-left: 14px; font-size: 12px; }\n  main {\n    flex: 1;\n    max-width: 820px;\n    margin: 0 auto;\n    padding: 48px 40px;\n  }\n  h1 { font-size: 2em; font-weight: 700; margin-bottom: 8px; color: var(--text); line-height: 1.3; }\n  h2 {\n    font-size: 1.4em; font-weight: 700;\n    margin-top: 2.5em; margin-bottom: 0.8em;\n    padding-bottom: 8px;\n    border-bottom: 2px solid var(--accent);\n    color: var(--text);\n  }\n  h3 { font-size: 1.15em; font-weight: 600; margin-top: 1.8em; margin-bottom: 0.5em; color: #374151; }\n  p { margin: 0.9em 0; }\n  ul, ol { padding-left: 1.6em; margin: 0.8em 0; }\n  li { margin: 0.3em 0; }\n  blockquote {\n    border-left: 4px solid var(--accent);\n    padding: 8px 16px;\n    margin: 1em 0;\n    background: #ede9fe20;\n    color: #4b5563;\n    border-radius: 0 6px 6px 0;\n  }\n  code {\n    background: var(--code-bg);\n    padding: 1px 5px;\n    border-radius: 4px;\n    font-family: \"Cascadia Code\", \"Fira Code\", monospace;\n    font-size: 0.88em;\n  }\n  pre {\n    background: #1e1b2e;\n    color: #e2e8f0;\n    padding: 16px 20px;\n    border-radius: 8px;\n    overflow-x: auto;\n    margin: 1.2em 0;\n    font-size: 0.9em;\n    line-height: 1.5;\n  }\n  pre code { background: none; padding: 0; color: inherit; }\n  table {\n    width: 100%;\n    border-collapse: collapse;\n    margin: 1.2em 0;\n    font-size: 14px;\n  }\n  th, td {\n    text-align: left;\n    padding: 8px 12px;\n    border: 1px solid var(--border);\n  }\n  th { background: #f9fafb; font-weight: 600; }\n  tr:nth-child(even) td { background: #fafafa; }\n  a { color: var(--accent); text-decoration: underline dotted; }\n  a:hover { text-decoration: underline; }\n  hr { border: none; border-top: 1px solid var(--border); margin: 2em 0; }\n  sup { font-size: 0.75em; vertical-align: super; }\n  @media (max-width: 768px) {\n    #toc { display: none; }\n    main { padding: 24px 20px; }\n  }\n</style>\n</head>\n<body>\n<nav id=\"toc\">\n  <h3>目录</h3>\n  ";

/// Page text between the table of contents and the body.
pub const PAGE_NAV_END: &'static str = "\n</nav>\n<main>\n";

/// Page text after the body.
pub const PAGE_END: &'static str = "\n</main>\n</body>\n</html>";

/// A report as an HTML page: title, table of contents and rendered body in
/// the page template.
pub open spec fn report_page(title: Seq<char>, toc: Seq<char>, body: Seq<char>) -> Seq<char> {
    PAGE_HEAD@ + title + PAGE_STYLE@ + toc + PAGE_NAV_END@ + body + PAGE_END@
}

/// A research report (markdown) as a standalone HTML page.
pub fn research_report_html(md: &str) -> (r: String)
    ensures
        r@ == report_page(report_title_of(md@), toc_html(md@), markdown_html(md@)),
{
    let body = markdown_to_html(md);
    let toc = build_html_toc(md);
    let title = report_title(md);
    let mut v = chars_of(PAGE_HEAD);
    extend_str(&mut v, title.as_str());
    extend_str(&mut v, PAGE_STYLE);
    extend_str(&mut v, toc.as_str());
    extend_str(&mut v, PAGE_NAV_END);
    extend_str(&mut v, body.as_str());
    extend_str(&mut v, PAGE_END);
    string_of(&v)
}

} // verus!
