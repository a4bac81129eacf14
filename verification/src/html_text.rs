//! Readable text of an HTML page: the text of its main content area (the
//! first `main`, `article`, `[role=main]` or `body` element with more than
//! a hundred bytes of text), leaving out scripts, styles and page chrome.
use crate::agent_tools::opt_view;
use crate::text::{
    chars_of, collapse_ws, collapse_ws_chars, extend_chars, join, join_strings, string_of, string_views,
    trim, trim_str, utf8_len, utf8_len_exec,
};
use vstd::prelude::*;
use vstd::string::StringExecFns;

verus! {

broadcast use vstd::string::group_string_axioms;

/// A node under an element chosen by a selector, as plain values: its text
/// when it is a text node, and the tag names of its ancestors (`None` for
/// an ancestor that is not an element), nearest first.
pub type DomTextNode = (Option<String>, Vec<Option<String>>);

/// Nodes as plain values.
pub open spec fn dom_nodes_view(v: Seq<DomTextNode>) -> Seq<(Option<Seq<char>>, Seq<Option<Seq<char>>>)> {
    v.map_values(|n: DomTextNode| (opt_view(n.0), n.1@.map_values(|a: Option<String>| opt_view(a))))
}

/// The nodes (in document order, the element itself first) under the first
/// element, in the parser's node order, that a CSS selector matches in an
/// HTML document parsed by `scraper`; `None` when nothing matches.
pub uninterp spec fn html_selected_nodes(html: Seq<char>, selector: Seq<char>) -> Option<
    Seq<(Option<Seq<char>>, Seq<Option<Seq<char>>>)>,
>;

/// The text pieces of the root element of an HTML document parsed by
/// `scraper`, in document order.
pub uninterp spec fn html_root_texts(html: Seq<char>) -> Seq<Seq<char>>;

/// Calls `scraper::Html::parse_document`, `scraper::Selector::parse` and
/// `Html::select`, and lists the descendants of the first match with
/// their text and their ancestors' tag names. The contract names the result
/// as a function of the page and the selector; it says nothing of how the
/// HTML parser builds the tree.
#[verifier::external_body]
fn selected_nodes(html: &str, selector: &str) -> (r: Option<Vec<DomTextNode>>)
    ensures
        match r {
            Some(v) => html_selected_nodes(html@, selector@) == Some(dom_nodes_view(v@)),
            None => html_selected_nodes(html@, selector@) is None,
        },
{
    let doc = scraper::Html::parse_document(html);
    let sel = scraper::Selector::parse(selector).ok()?;
    let el = doc.select(&sel).next()?;
    Some(el.descendants().map(|n| (
        n.value().as_text().map(|t| t.to_string()),
        n.ancestors().map(|a| a.value().as_element().map(|e| e.name().to_string())).collect(),
    )).collect())
}

/// Calls `scraper::Html::parse_document` and `ElementRef::text` on the root
/// element. The contract names the pieces as a function of the page.
#[verifier::external_body]
fn root_texts(html: &str) -> (r: Vec<String>)
    ensures
        string_views(r@) == html_root_texts(html@),
{
    let doc = scraper::Html::parse_document(html);
    doc.root_element().text().map(|t| t.to_string()).collect()
}

/// Tags whose text is left out.
pub open spec fn chrome_tag(name: Seq<char>) -> bool {
    name == "script"@ || name == "style"@ || name == "nav"@ || name == "footer"@ || name == "header"@
        || name == "aside"@
}

/// Whether an ancestor is a left-out tag.
pub open spec fn chrome_ancestor(a: Option<Seq<char>>) -> bool {
    match a {
        Some(n) => chrome_tag(n),
        None => false,
    }
}

/// Whether a node lies under a left-out tag.
pub open spec fn under_chrome(ancestors: Seq<Option<Seq<char>>>) -> bool {
    exists|k: int| 0 <= k < ancestors.len() && #[trigger] chrome_ancestor(ancestors[k])
}

/// Trimmed texts of the kept text nodes, each followed by a space.
pub open spec fn kept_text(nodes: Seq<(Option<Seq<char>>, Seq<Option<Seq<char>>>)>) -> Seq<char>
    decreases nodes.len(),
{
    if nodes.len() == 0 {
        seq![]
    } else {
        let prev = kept_text(nodes.drop_last());
        let n = nodes.last();
        match n.0 {
            Some(t) => if under_chrome(n.1) {
                prev
            } else {
                prev + trim(t) + seq![' ']
            },
            None => prev,
        }
    }
}

/// The text of the area a selector picks, when it has more than a hundred bytes.
pub open spec fn area_text(html: Seq<char>, selector: Seq<char>) -> Option<Seq<char>> {
    match html_selected_nodes(html, selector) {
        Some(nodes) => {
            let t = collapse_ws(kept_text(nodes));
            if utf8_len(t) > 100 {
                Some(t)
            } else {
                None
            }
        },
        None => None,
    }
}

/// Readable text of a page: the first content area with enough text, else
/// all its text pieces joined by spaces.
pub open spec fn page_text(html: Seq<char>) -> Seq<char> {
    if area_text(html, "main"@) is Some {
        area_text(html, "main"@)->Some_0
    } else if area_text(html, "article"@) is Some {
        area_text(html, "article"@)->Some_0
    } else if area_text(html, "[role=main]"@) is Some {
        area_text(html, "[role=main]"@)->Some_0
    } else if area_text(html, "body"@) is Some {
        area_text(html, "body"@)->Some_0
    } else {
        join(html_root_texts(html), seq![' '])
    }
}

fn is_chrome_tag(name: &String) -> (r: bool)
    ensures
        r == chrome_tag(name@),
{
    let n = chars_of(name.as_str());
    crate::text::str_eq_chars("script", &n) || crate::text::str_eq_chars("style", &n)
        || crate::text::str_eq_chars("nav", &n) || crate::text::str_eq_chars("footer", &n)
        || crate::text::str_eq_chars("header", &n) || crate::text::str_eq_chars("aside", &n)
}

fn is_under_chrome(ancestors: &Vec<Option<String>>) -> (r: bool)
    ensures
        r == under_chrome(ancestors@.map_values(|a: Option<String>| opt_view(a))),
{
    let ghost av = ancestors@.map_values(|a: Option<String>| opt_view(a));
    let mut k: usize = 0;
    while k < ancestors.len()
        invariant
            k <= ancestors.len(),
            av == ancestors@.map_values(|a: Option<String>| opt_view(a)),
            forall|j: int| 0 <= j < k ==> !#[trigger] chrome_ancestor(av[j]),
        decreases ancestors.len() - k,
    {
        match &ancestors[k] {
            Some(n) => {
                if is_chrome_tag(n) {
                    assert(av[k as int] == Some(n@));
                    assert(chrome_ancestor(av[k as int]));
                    return true;
                }
            },
            None => {},
        }
        k = k + 1;
    }
    false
}

fn area_text_exec(html: &str, selector: &str) -> (r: Option<Vec<char>>)
    ensures
        match r {
            Some(t) => area_text(html@, selector@) == Some(t@),
            None => area_text(html@, selector@) is None,
        },
{
    let nodes = match selected_nodes(html, selector) {
        Some(v) => v,
        None => {
            return None;
        },
    };
    let ghost nv = dom_nodes_view(nodes@);
    let mut text: Vec<char> = Vec::new();
    let mut i: usize = 0;
    while i < nodes.len()
        invariant
            i <= nodes.len(),
            nv == dom_nodes_view(nodes@),
            text@ == kept_text(nv.take(i as int)),
        decreases nodes.len() - i,
    {
        assert(nv.take(i + 1).drop_last() =~= nv.take(i as int));
        let n = &nodes[i];
        match &n.0 {
            Some(t) => {
                if !is_under_chrome(&n.1) {
                    let tt = trim_str(t.as_str());
                    extend_chars(&mut text, &tt);
                    text.push(' ');
                }
            },
            None => {},
        }
        i = i + 1;
    }
    assert(nv.take(nodes.len() as int) =~= nv);
    let result = collapse_ws_chars(&text);
    match utf8_len_exec(&result) {
        Some(len) => if len > 100 {
            Some(result)
        } else {
            None
        },
        None => Some(result),
    }
}

/// Readable text of an HTML page.
pub fn extract_html_text(html: &str) -> (r: String)
    ensures
        r@ == page_text(html@),
{
    if let Some(t) = area_text_exec(html, "main") {
        return string_of(&t);
    }
    if let Some(t) = area_text_exec(html, "article") {
        return string_of(&t);
    }
    if let Some(t) = area_text_exec(html, "[role=main]") {
        return string_of(&t);
    }
    if let Some(t) = area_text_exec(html, "body") {
        return string_of(&t);
    }
    let pieces = root_texts(html);
    proof {
        reveal_strlit(" ");
        assert(" "@ =~= seq![' ']);
    }
    string_of(&join_strings(&pieces, " "))
}

} // verus!
