//! URL fetching: the page record a fetch yields and what is read off a URL.
use crate::agent_policy::{strip_all, strip_all_exec};
use crate::pattern::{regex_capture1, regex_replace_all, regex_valid, Pattern};
use crate::text::{replace_str, replace_str_exec, trim, trim_chars};
use crate::text::{
    chars_of, dec, extend_dec, extend_str, split_char, split_char_exec, string_of, utf8_len,
    utf8_len_exec,
};
use vstd::prelude::*;
use vstd::string::StringExecFns;

verus! {

broadcast use vstd::string::group_string_axioms;

/// A fetched page as plain text.
#[derive(Debug, Clone)]
pub struct FetchResult {
    pub title: String,
    pub text: String,
    pub url: String,
    pub domain: String,
    /// Length of `text` in bytes.
    pub char_count: usize,
    /// How it was fetched: `cdp_chrome`, `cdp_edge` or `static_http`.
    pub fetch_method: String,
}

/// Limits of a headless-browser fetch.
#[derive(Debug, Clone)]
pub struct FetchOptions {
    pub timeout_secs: u64,
    pub virtual_time_budget_ms: u32,
}

impl Default for FetchOptions {
    fn default() -> (r: Self)
        ensures
            r.timeout_secs == 30,
            r.virtual_time_budget_ms == 5000,
    {
        FetchOptions { timeout_secs: 30, virtual_time_budget_ms: 5000 }
    }
}

/// Domain of a URL: its third `/`-separated piece, without leading `www.`.
pub open spec fn domain_of(url: Seq<char>) -> Seq<char> {
    let parts = split_char(url, '/');
    let host = if parts.len() > 2 {
        parts[2]
    } else {
        seq![]
    };
    strip_all(host, "www."@)
}

/// Domain of a URL (`https://www.example.com/a` gives `example.com`).
pub fn extract_domain(url: &str) -> (r: String)
    ensures
        r@ == domain_of(url@),
{
    let c = chars_of(url);
    let parts = split_char_exec(&c, '/');
    let host: Vec<char> = if parts.len() > 2 {
        crate::text::slice_chars(&parts[2], 0, parts[2].len())
    } else {
        Vec::new()
    };
    assert(parts.len() > 2 ==> host@ =~= parts@[2]@);
    let d = strip_all_exec(&host, "www.");
    string_of(&d)
}

/// The page record of a fetch, from the page's text and title.
pub open spec fn page_record(
    r: FetchResult,
    text: Seq<char>,
    title: Seq<char>,
    url: Seq<char>,
    method: Seq<char>,
) -> bool {
    &&& r.text@ == text
    &&& r.title@ == title
    &&& r.url@ == url
    &&& r.domain@ == domain_of(url)
    &&& r.char_count == utf8_len(text)
    &&& r.fetch_method@ == method
}

/// The page record of a static HTTP fetch.
pub fn static_fetch_result(text: String, title: String, url: &str) -> (r: FetchResult)
    requires
        utf8_len(text@) <= usize::MAX,
    ensures
        page_record(r, text@, title@, url@, "static_http"@),
{
    let tc = chars_of(text.as_str());
    let n = match utf8_len_exec(&tc) {
        Some(n) => n,
        None => 0,
    };
    FetchResult {
        title,
        text,
        url: String::from_str(url),
        domain: extract_domain(url),
        char_count: n,
        fetch_method: String::from_str("static_http"),
    }
}

/// Fewest bytes of text a browser-rendered page must have.
pub const CDP_MIN_TEXT_BYTES: usize = 100;

/// The page record of a headless-browser fetch, or the error when the
/// rendered text is shorter than `CDP_MIN_TEXT_BYTES` bytes.
pub fn browser_fetch_result(text: String, title: String, url: &str, browser_name: &str) -> (r: Result<
    FetchResult,
    String,
>)
    requires
        utf8_len(text@) <= usize::MAX,
    ensures
        utf8_len(text@) < CDP_MIN_TEXT_BYTES ==> (r matches Err(e) && e@ == "CDP 渲染内容过少（"@ + dec(
            utf8_len(text@),
        ) + " 字符），视为失败"@),
        utf8_len(text@) >= CDP_MIN_TEXT_BYTES ==> (r matches Ok(p) && page_record(
            p,
            text@,
            title@,
            url@,
            "cdp_"@ + browser_name@,
        )),
{
    let tc = chars_of(text.as_str());
    let n = match utf8_len_exec(&tc) {
        Some(n) => n,
        None => 0,
    };
    if n < CDP_MIN_TEXT_BYTES {
        let mut v = chars_of("CDP 渲染内容过少（");
        extend_dec(&mut v, n as u64);
        extend_str(&mut v, " 字符），视为失败");
        return Err(string_of(&v));
    }
    let mut m = chars_of("cdp_");
    extend_str(&mut m, browser_name);
    Ok(
        FetchResult {
            title,
            text,
            url: String::from_str(url),
            domain: extract_domain(url),
            char_count: n,
            fetch_method: string_of(&m),
        },
    )
}

// ───────────────────────── HTML to text ─────────────────────────

/// Script blocks.
pub const SCRIPT_BLOCK: &'static str = r"(?si)<script[^>]*>.*?</script\s*>";
/// Style blocks.
pub const STYLE_BLOCK: &'static str = r"(?si)<style[^>]*>.*?</style\s*>";
/// The head.
pub const HEAD_BLOCK: &'static str = r"(?si)<head[^>]*>.*?</head\s*>";
/// Noscript blocks.
pub const NOSCRIPT_BLOCK: &'static str = r"(?si)<noscript[^>]*>.*?</noscript\s*>";
/// Template blocks.
pub const TEMPLATE_BLOCK: &'static str = r"(?si)<template[^>]*>.*?</template\s*>";
/// Any tag.
pub const ANY_TAG: &'static str = r"<[^>]+>";
/// Runs of two or more spaces or tabs.
pub const SPACE_RUN: &'static str = r"[ \t]{2,}";
/// Runs of three or more line breaks.
pub const NEWLINE_RUN: &'static str = r"\n{3,}";
/// The title element, its text captured.
pub const TITLE_ELEMENT: &'static str = r"(?si)<title[^>]*>(.*?)</title\s*>";

/// The six HTML entities the text keeps as characters, decoded in turn.
pub open spec fn decode_entities(s: Seq<char>) -> Seq<char> {
    replace_str(
        replace_str(
            replace_str(
                replace_str(replace_str(replace_str(s, "&amp;"@, "&"@), "&lt;"@, "<"@), "&gt;"@, ">"@),
                "&quot;"@,
                "\""@,
            ),
            "&#39;"@,
            "'"@,
        ),
        "&nbsp;"@,
        " "@,
    )
}

/// Whether a text holds no `&`.
pub open spec fn no_amp(s: Seq<char>) -> bool {
    forall|i: int| 0 <= i < s.len() ==> s[i] != '&'
}

/// Replacing a pattern that starts with `&` leaves a text without `&` as it is.
proof fn lemma_replace_no_amp(s: Seq<char>, from: Seq<char>, to: Seq<char>)
    requires
        no_amp(s),
        from.len() > 0,
        from[0] == '&',
    ensures
        crate::text::replace_str(s, from, to) == s,
    decreases s.len(),
{
    if s.len() > 0 {
        assert(!crate::text::starts_with(s, from)) by {
            if crate::text::starts_with(s, from) {
                assert(s.take(from.len() as int)[0] == s[0]);
            }
        }
        lemma_replace_no_amp(s.drop_first(), from, to);
        assert(seq![s[0]] + s.drop_first() =~= s);
    }
}

/// A prefix without `&` passes through a replacement of a pattern that
/// starts with `&`.
proof fn lemma_replace_after_plain(a: Seq<char>, x: Seq<char>, from: Seq<char>, to: Seq<char>)
    requires
        no_amp(a),
        from.len() > 0,
        from[0] == '&',
    ensures
        crate::text::replace_str(a + x, from, to) == a + crate::text::replace_str(x, from, to),
    decreases a.len(),
{
    if a.len() > 0 {
        assert(!crate::text::starts_with(a + x, from)) by {
            if crate::text::starts_with(a + x, from) {
                assert((a + x).take(from.len() as int)[0] == (a + x)[0]);
            }
        }
        assert((a + x).drop_first() =~= a.drop_first() + x);
        lemma_replace_after_plain(a.drop_first(), x, from, to);
        assert(seq![a[0]] + (a.drop_first() + crate::text::replace_str(x, from, to)) =~= a + crate::text::replace_str(
            x,
            from,
            to,
        ));
    }
}

/// One replacement pass over `a + e + b`, where `e` is an entity (a `&`,
/// then no other `&`) and `a`, `b` hold no `&`: a pass for another entity
/// (one whose second character differs) leaves the text as it is; the pass
/// for `e` itself turns it into `a + to + b`.
proof fn lemma_entity_pass(a: Seq<char>, e: Seq<char>, b: Seq<char>, from: Seq<char>, to: Seq<char>)
    requires
        no_amp(a),
        no_amp(b),
        e.len() >= 2,
        e[0] == '&',
        no_amp(e.drop_first()),
        from.len() >= 2,
        from[0] == '&',
        from == e || from[1] != e[1],
    ensures
        crate::text::replace_str(a + e + b, from, to) == if from == e {
            a + to + b
        } else {
            a + e + b
        },
{
    let x = e + b;
    assert(a + e + b =~= a + x);
    lemma_replace_after_plain(a, x, from, to);
    if from == e {
        assert(crate::text::starts_with(x, from)) by {
            assert(x.take(from.len() as int) =~= e);
        }
        assert(x.skip(from.len() as int) =~= b);
        lemma_replace_no_amp(b, from, to);
        assert(a + (to + b) =~= a + to + b);
    } else {
        assert(!crate::text::starts_with(x, from)) by {
            if crate::text::starts_with(x, from) {
                assert(x.take(from.len() as int)[1] == x[1]);
            }
        }
        assert(no_amp(x.drop_first())) by {
            assert forall|i: int| 0 <= i < x.drop_first().len() implies x.drop_first()[i] != '&' by {
                if i < e.len() - 1 {
                    assert(x.drop_first()[i] == e.drop_first()[i]);
                } else {
                    assert(x.drop_first()[i] == b[i - (e.len() - 1)]);
                }
            }
        }
        lemma_replace_no_amp(x.drop_first(), from, to);
        assert(seq![x[0]] + x.drop_first() =~= x);
    }
}

proof fn lemma_plain_joined(a: Seq<char>, c: Seq<char>, b: Seq<char>)
    requires
        no_amp(a),
        no_amp(b),
        no_amp(c),
    ensures
        no_amp(a + c + b),
{
    assert forall|i: int| 0 <= i < (a + c + b).len() implies (a + c + b)[i] != '&' by {
        if i < a.len() {
            assert((a + c + b)[i] == a[i]);
        } else if i < a.len() + c.len() {
            assert((a + c + b)[i] == c[i - a.len()]);
        } else {
            assert((a + c + b)[i] == b[i - a.len() - c.len()]);
        }
    }
}

/// Every pass of the decoding, applied to `a + e + b` for an entity `e`
/// and texts `a`, `b` without `&`.
proof fn lemma_decode_one(a: Seq<char>, e: Seq<char>, b: Seq<char>, ch: Seq<char>)
    requires
        no_amp(a),
        no_amp(b),
        no_amp(ch),
        e == "&lt;"@ && ch == "<"@ || e == "&gt;"@ && ch == ">"@ || e == "&quot;"@ && ch == "\""@ || e
            == "&#39;"@ && ch == "'"@ || e == "&nbsp;"@ && ch == " "@,
    ensures
        decode_entities(a + e + b) == a + ch + b,
{
    reveal_strlit("&amp;");
    reveal_strlit("&lt;");
    reveal_strlit("&gt;");
    reveal_strlit("&quot;");
    reveal_strlit("&#39;");
    reveal_strlit("&nbsp;");
    reveal_strlit("&");
    reveal_strlit("<");
    reveal_strlit(">");
    reveal_strlit("\"");
    reveal_strlit("'");
    reveal_strlit(" ");
    assert(no_amp(e.drop_first()));
    let ents = seq!["&amp;"@, "&lt;"@, "&gt;"@, "&quot;"@, "&#39;"@, "&nbsp;"@];
    let tos = seq!["&"@, "<"@, ">"@, "\""@, "'"@, " "@];
    let s0 = a + e + b;
    let s1 = crate::text::replace_str(s0, ents[0], tos[0]);
    lemma_entity_pass(a, e, b, ents[0], tos[0]);
    let s2 = crate::text::replace_str(s1, ents[1], tos[1]);
    lemma_entity_pass(a, e, b, ents[1], tos[1]);
    if e == ents[1] {
        lemma_plain_joined(a, ch, b);
    }
    assert(s2 == if e == ents[1] { a + ch + b } else { s0 });
    let s3 = crate::text::replace_str(s2, ents[2], tos[2]);
    if e == ents[1] {
        lemma_replace_no_amp(s2, ents[2], tos[2]);
    } else {
        lemma_entity_pass(a, e, b, ents[2], tos[2]);
        if e == ents[2] {
            lemma_plain_joined(a, ch, b);
        }
    }
    assert(s3 == if e == ents[1] || e == ents[2] { a + ch + b } else { s0 });
    let s4 = crate::text::replace_str(s3, ents[3], tos[3]);
    if e == ents[1] || e == ents[2] {
        lemma_replace_no_amp(s3, ents[3], tos[3]);
    } else {
        lemma_entity_pass(a, e, b, ents[3], tos[3]);
        if e == ents[3] {
            lemma_plain_joined(a, ch, b);
        }
    }
    assert(s4 == if e == ents[1] || e == ents[2] || e == ents[3] { a + ch + b } else { s0 });
    let s5 = crate::text::replace_str(s4, ents[4], tos[4]);
    if e == ents[1] || e == ents[2] || e == ents[3] {
        lemma_replace_no_amp(s4, ents[4], tos[4]);
    } else {
        lemma_entity_pass(a, e, b, ents[4], tos[4]);
        if e == ents[4] {
            lemma_plain_joined(a, ch, b);
        }
    }
    assert(s5 == if e == ents[5] { s0 } else { a + ch + b });
    if e == ents[5] {
        lemma_entity_pass(a, e, b, ents[5], tos[5]);
    } else {
        lemma_replace_no_amp(s5, ents[5], tos[5]);
    }
}

/// Decoding turns each entity into its character: for any texts `a` and
/// `b` without `&`, `a + e + b` decodes to `a + c + b` where `e` is
/// `&lt;`, `&gt;`, `&quot;`, `&#39;` or `&nbsp;` and `c` is `<`, `>`, `"`,
/// `'` or a space; in particular no `&quot;` of the page is kept.
pub proof fn lemma_entities_decode(a: Seq<char>, b: Seq<char>)
    requires
        no_amp(a),
        no_amp(b),
    ensures
        decode_entities(a + "&lt;"@ + b) == a + "<"@ + b,
        decode_entities(a + "&gt;"@ + b) == a + ">"@ + b,
        decode_entities(a + "&quot;"@ + b) == a + "\""@ + b,
        decode_entities(a + "&#39;"@ + b) == a + "'"@ + b,
        decode_entities(a + "&nbsp;"@ + b) == a + " "@ + b,
{
    reveal_strlit("<");
    reveal_strlit(">");
    reveal_strlit("\"");
    reveal_strlit("'");
    reveal_strlit(" ");
    lemma_decode_one(a, "&lt;"@, b, "<"@);
    lemma_decode_one(a, "&gt;"@, b, ">"@);
    lemma_decode_one(a, "&quot;"@, b, "\""@);
    lemma_decode_one(a, "&#39;"@, b, "'"@);
    lemma_decode_one(a, "&nbsp;"@, b, " "@);
}

fn decode_entities_exec(s: &[char]) -> (r: Vec<char>)
    ensures
        r@ == decode_entities(s@),
{
    let a = replace_str_exec(s, "&amp;", "&");
    let b = replace_str_exec(&a, "&lt;", "<");
    let c = replace_str_exec(&b, "&gt;", ">");
    let d = replace_str_exec(&c, "&quot;", "\"");
    let e = replace_str_exec(&d, "&#39;", "'");
    replace_str_exec(&e, "&nbsp;", " ")
}

/// Whether every pattern of the text extraction compiles.
pub open spec fn html_patterns_valid() -> bool {
    &&& regex_valid(SCRIPT_BLOCK@)
    &&& regex_valid(STYLE_BLOCK@)
    &&& regex_valid(HEAD_BLOCK@)
    &&& regex_valid(NOSCRIPT_BLOCK@)
    &&& regex_valid(TEMPLATE_BLOCK@)
    &&& regex_valid(ANY_TAG@)
    &&& regex_valid(SPACE_RUN@)
    &&& regex_valid(NEWLINE_RUN@)
}

/// Plain text of an HTML page: script, style, head, noscript and template
/// blocks and then all tags replaced by a space, entities decoded, runs of
/// spaces shortened to one and of line breaks to two, trimmed.
pub open spec fn html_text(html: Seq<char>) -> Seq<char> {
    let t1 = regex_replace_all(SCRIPT_BLOCK@, html, " "@);
    let t2 = regex_replace_all(STYLE_BLOCK@, t1, " "@);
    let t3 = regex_replace_all(HEAD_BLOCK@, t2, " "@);
    let t4 = regex_replace_all(NOSCRIPT_BLOCK@, t3, " "@);
    let t5 = regex_replace_all(TEMPLATE_BLOCK@, t4, " "@);
    let t6 = regex_replace_all(ANY_TAG@, t5, " "@);
    let t7 = decode_entities(t6);
    let t8 = regex_replace_all(SPACE_RUN@, t7, " "@);
    let t9 = regex_replace_all(NEWLINE_RUN@, t8, "\n\n"@);
    trim(t9)
}

fn compiled(src: &str) -> (r: Option<Pattern>)
    ensures
        r is Some <==> regex_valid(src@),
        r matches Some(p) ==> p.source() == src@,
{
    Pattern::new(src)
}

/// Plain text of an HTML page (the page itself should a pattern not compile).
pub fn html_to_text(html: &str) -> (r: String)
    ensures
        html_patterns_valid() ==> r@ == html_text(html@),
        !html_patterns_valid() ==> r@ == html@,
{
    let (script, style, head, noscript, template, tag, ws, nl) = match (
        compiled(SCRIPT_BLOCK),
        compiled(STYLE_BLOCK),
        compiled(HEAD_BLOCK),
        compiled(NOSCRIPT_BLOCK),
        compiled(TEMPLATE_BLOCK),
        compiled(ANY_TAG),
        compiled(SPACE_RUN),
        compiled(NEWLINE_RUN),
    ) {
        (Some(a), Some(b), Some(c), Some(d), Some(e), Some(f), Some(g), Some(h)) => (a, b, c, d, e, f, g, h),
        _ => return String::from_str(html),
    };
    let t1 = script.replace_all(html, " ");
    let t2 = style.replace_all(t1.as_str(), " ");
    let t3 = head.replace_all(t2.as_str(), " ");
    let t4 = noscript.replace_all(t3.as_str(), " ");
    let t5 = template.replace_all(t4.as_str(), " ");
    let t6 = tag.replace_all(t5.as_str(), " ");
    let t7 = string_of(&decode_entities_exec(&chars_of(t6.as_str())));
    let t8 = ws.replace_all(t7.as_str(), " ");
    let t9 = nl.replace_all(t8.as_str(), "\n\n");
    string_of(&trim_chars(&chars_of(t9.as_str())))
}

/// Title of an HTML page: its title element's text with entities decoded,
/// trimmed; empty when it has none (or the pattern does not compile).
pub open spec fn html_title(html: Seq<char>) -> Seq<char> {
    match regex_capture1(TITLE_ELEMENT@, html) {
        Some(raw) => trim(decode_entities(raw)),
        None => seq![],
    }
}

/// Title of an HTML page.
pub fn extract_title(html: &str) -> (r: String)
    ensures
        regex_valid(TITLE_ELEMENT@) ==> r@ == html_title(html@),
        !regex_valid(TITLE_ELEMENT@) ==> r@ == Seq::<char>::empty(),
{
    match compiled(TITLE_ELEMENT) {
        Some(p) => match p.capture1(html) {
            Some(raw) => string_of(&trim_chars(&decode_entities_exec(&chars_of(raw.as_str())))),
            None => String::new(),
        },
        None => String::new(),
    }
}

/// The page record of a static HTTP fetch of an HTML page (a text whose
/// length in bytes does not fit in `usize` cannot occur, and is dropped).
pub fn static_fetch_from_html(html: &str, url: &str) -> (r: FetchResult)
    ensures
        html_patterns_valid() && regex_valid(TITLE_ELEMENT@) && utf8_len(html_text(html@))
            <= usize::MAX ==> page_record(
            r,
            html_text(html@),
            html_title(html@),
            url@,
            "static_http"@,
        ),
{
    let text = html_to_text(html);
    let title = extract_title(html);
    let n = chars_of(text.as_str());
    if utf8_len_exec(&n).is_none() {
        return static_fetch_result(String::new(), title, url);
    }
    static_fetch_result(text, title, url)
}

/// The page record of a headless-browser fetch of a rendered HTML page, or
/// the error when its text is too short.
pub fn browser_fetch_from_html(html: &str, url: &str, browser_name: &str) -> (r: Result<FetchResult, String>)
    ensures
        html_patterns_valid() && regex_valid(TITLE_ELEMENT@) && utf8_len(html_text(html@))
            <= usize::MAX ==> {
            let t = html_text(html@);
            &&& utf8_len(t) < CDP_MIN_TEXT_BYTES ==> (r matches Err(e) && e@ == "CDP 渲染内容过少（"@ + dec(
                utf8_len(t),
            ) + " 字符），视为失败"@)
            &&& utf8_len(t) >= CDP_MIN_TEXT_BYTES ==> (r matches Ok(p) && page_record(
                p,
                t,
                html_title(html@),
                url@,
                "cdp_"@ + browser_name@,
            ))
        },
{
    let text = html_to_text(html);
    let n = chars_of(text.as_str());
    if utf8_len_exec(&n).is_none() {
        return Err(String::new());
    }
    let title = extract_title(html);
    browser_fetch_result(text, title, url, browser_name)
}

/// The card shown when a URL is pasted into a conversation.
#[derive(Debug, Clone)]
pub struct UrlContextCard {
    pub title: String,
    pub summary: String,
    pub url: String,
    pub domain: String,
    pub char_count: usize,
    pub fetch_method: String,
}

/// How many characters of a page's text a context card shows.
pub const URL_CONTEXT_SUMMARY_CHARS: usize = 3000;

/// A pasted URL must not be blank.
pub fn check_context_url(url: &str) -> (r: Result<(), String>)
    ensures
        r is Ok <==> trim(url@).len() > 0,
        r matches Err(m) ==> m@ == "URL 不能为空"@,
{
    let t = trim_chars(&chars_of(url));
    if t.len() == 0 {
        Err(String::from_str("URL 不能为空"))
    } else {
        Ok(())
    }
}

/// The context card of a fetched page: its record, with the text cut to its
/// first `URL_CONTEXT_SUMMARY_CHARS` characters.
pub fn url_context_card(page: FetchResult) -> (r: UrlContextCard)
    ensures
        r.title@ == page.title@,
        r.summary@ == crate::text::take_chars(page.text@, URL_CONTEXT_SUMMARY_CHARS as nat),
        r.url@ == page.url@,
        r.domain@ == page.domain@,
        r.char_count == page.char_count,
        r.fetch_method@ == page.fetch_method@,
{
    let summary = string_of(&crate::text::take_chars_exec(&chars_of(page.text.as_str()), URL_CONTEXT_SUMMARY_CHARS));
    UrlContextCard {
        title: page.title,
        summary,
        url: page.url,
        domain: page.domain,
        char_count: page.char_count,
        fetch_method: page.fetch_method,
    }
}

/// Only web addresses may be opened outside the application.
pub fn check_external_url(url: &str) -> (r: Result<(), String>)
    ensures
        r is Ok <==> crate::text::starts_with(url@, "http://"@) || crate::text::starts_with(url@, "https://"@),
        r matches Err(m) ==> m@ == "只允许 http/https URL"@,
{
    let c = chars_of(url);
    if crate::text::starts_with_str(&c, "http://") || crate::text::starts_with_str(&c, "https://") {
        Ok(())
    } else {
        Err(String::from_str("只允许 http/https URL"))
    }
}

} // verus!
