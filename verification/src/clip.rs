//! The local clip server: which request is which, what each answers, and
//! how a clipped page becomes a markdown file of the vault.
use crate::json::{get_str, parse_json_text, str_member, JsonValue};
use crate::kernel::{trim_dashes, trim_dashes_exec};
use crate::text::{
    ascii_lower_char, chars_of, char_ascii_lower, extend_chars, extend_dec, extend_str, dec,
    split_char, split_char_exec, string_of, take_chars, take_chars_exec,
};
use crate::unicode::{char_alphanumeric, is_alphanumeric};
use vstd::prelude::*;
use vstd::string::StringExecFns;

verus! {

broadcast use vstd::string::group_string_axioms;

/// Port the clip server listens on, on the loopback address.
pub const CLIP_SERVER_PORT: u16 = 19827;

/// Answer of `GET /status`.
pub const STATUS_BODY: &'static str = "{\"ok\":true,\"version\":\"0.1.0\"}";

/// Answer of an unknown route.
pub const NOT_FOUND_BODY: &'static str = "{\"ok\":false,\"error\":\"Not found\"}";

// ───────────────────────── routing ─────────────────────────

/// What a request to the clip server asks for.
#[derive(Debug, Clone, Copy, PartialEq, Eq, Structural)]
pub enum ClipRoute {
    /// A CORS preflight (`OPTIONS`, any path).
    Preflight,
    Status,
    Project,
    Projects,
    Clip,
    NotFound,
}

/// The route of a request, from its method and URL.
pub open spec fn route_of(method: Seq<char>, url: Seq<char>) -> ClipRoute {
    if method == "OPTIONS"@ {
        ClipRoute::Preflight
    } else if method == "GET"@ && url == "/status"@ {
        ClipRoute::Status
    } else if method == "GET"@ && url == "/project"@ {
        ClipRoute::Project
    } else if method == "GET"@ && url == "/projects"@ {
        ClipRoute::Projects
    } else if method == "POST"@ && url == "/clip"@ {
        ClipRoute::Clip
    } else {
        ClipRoute::NotFound
    }
}

/// The route of a request.
pub fn route_clip(method: &str, url: &str) -> (r: ClipRoute)
    ensures
        r == route_of(method@, url@),
{
    let m = chars_of(method);
    let u = chars_of(url);
    if crate::text::str_eq_chars("OPTIONS", &m) {
        ClipRoute::Preflight
    } else if crate::text::str_eq_chars("GET", &m) && crate::text::str_eq_chars("/status", &u) {
        ClipRoute::Status
    } else if crate::text::str_eq_chars("GET", &m) && crate::text::str_eq_chars("/project", &u) {
        ClipRoute::Project
    } else if crate::text::str_eq_chars("GET", &m) && crate::text::str_eq_chars("/projects", &u) {
        ClipRoute::Projects
    } else if crate::text::str_eq_chars("POST", &m) && crate::text::str_eq_chars("/clip", &u) {
        ClipRoute::Clip
    } else {
        ClipRoute::NotFound
    }
}

/// HTTP status of a route's answer (a clip's own answer is decided when it
/// has been handled).
pub open spec fn route_status(r: ClipRoute) -> u16 {
    match r {
        ClipRoute::Preflight => 204,
        ClipRoute::NotFound => 404,
        _ => 200,
    }
}

/// HTTP status of a route's answer.
pub fn status_of(r: ClipRoute) -> (s: u16)
    ensures
        s == route_status(r),
{
    match r {
        ClipRoute::Preflight => 204,
        ClipRoute::NotFound => 404,
        _ => 200,
    }
}

// ───────────────────────── text helpers ─────────────────────────

/// Every `c` replaced by `rep`.
pub open spec fn replace_char(s: Seq<char>, c: char, rep: Seq<char>) -> Seq<char>
    decreases s.len(),
{
    if s.len() == 0 {
        seq![]
    } else {
        replace_char(s.drop_last(), c, rep) + if s.last() == c {
            rep
        } else {
            seq![s.last()]
        }
    }
}

/// Every `c` of a text replaced by `rep`.
pub fn replace_char_exec(s: &[char], c: char, rep: &str) -> (r: Vec<char>)
    ensures
        r@ == replace_char(s@, c, rep@),
{
    let mut out: Vec<char> = Vec::new();
    let mut i: usize = 0;
    while i < s.len()
        invariant
            i <= s.len(),
            out@ == replace_char(s@.take(i as int), c, rep@),
        decreases s.len() - i,
    {
        assert(s@.take(i + 1).drop_last() =~= s@.take(i as int));
        if s[i] == c {
            extend_str(&mut out, rep);
        } else {
            out.push(s[i]);
        }
        assert(out@ =~= replace_char(s@.take(i + 1), c, rep@));
        i = i + 1;
    }
    assert(s@.take(s.len() as int) =~= s@);
    out
}

/// Every trailing `c` removed (`str::trim_end_matches(c)`).
pub open spec fn trim_end_char(s: Seq<char>, c: char) -> Seq<char>
    decreases s.len(),
{
    if s.len() > 0 && s.last() == c {
        trim_end_char(s.drop_last(), c)
    } else {
        s
    }
}

/// Every trailing `c` removed.
pub fn trim_end_char_exec(s: &[char], c: char) -> (r: Vec<char>)
    ensures
        r@ == trim_end_char(s@, c),
{
    let mut n: usize = s.len();
    assert(s@.take(n as int) =~= s@);
    while n > 0 && s[n - 1] == c
        invariant
            n <= s.len(),
            trim_end_char(s@.take(n as int), c) == trim_end_char(s@, c),
        decreases n,
    {
        assert(s@.take(n as int).drop_last() =~= s@.take(n - 1));
        n = n - 1;
    }
    let r = crate::text::slice_chars(s, 0, n);
    assert(r@ =~= s@.take(n as int));
    r
}

/// A path with `/` separators and no trailing `/`.
pub open spec fn norm_path(p: Seq<char>) -> Seq<char> {
    trim_end_char(replace_char(p, '\\', "/"@), '/')
}

fn norm_path_exec(p: &str) -> (r: Vec<char>)
    ensures
        r@ == norm_path(p@),
{
    let a = replace_char_exec(&chars_of(p), '\\', "/");
    trim_end_char_exec(&a, '/')
}

// ───────────────────────── answers ─────────────────────────

/// Answer of `GET /project`: the vault path with `/` separators.
pub fn project_body(vault_path: &str) -> (r: String)
    ensures
        r@ == "{\"ok\":true,\"path\":\""@ + replace_char(vault_path@, '\\', "/"@) + "\"}"@,
{
    let p = replace_char_exec(&chars_of(vault_path), '\\', "/");
    let mut v = chars_of("{\"ok\":true,\"path\":\"");
    extend_chars(&mut v, &p);
    extend_str(&mut v, "\"}");
    string_of(&v)
}

/// Last `/`-separated piece of a path.
pub open spec fn last_piece(p: Seq<char>) -> Seq<char> {
    split_char(p, '/').last()
}

/// Answer of `GET /projects`: the open vault as the one current project,
/// named by its last path piece.
pub fn projects_body(vault_path: &str) -> (r: String)
    ensures
        ({
            let p = replace_char(vault_path@, '\\', "/"@);
            r@ == "{\"ok\":true,\"projects\":[{\"name\":\""@ + last_piece(p) + "\",\"path\":\""@ + p
                + "\",\"current\":true}]}"@
        }),
{
    let p = replace_char_exec(&chars_of(vault_path), '\\', "/");
    let parts = split_char_exec(&p, '/');
    let last = &parts[parts.len() - 1];
    let mut v = chars_of("{\"ok\":true,\"projects\":[{\"name\":\"");
    extend_chars(&mut v, last);
    extend_str(&mut v, "\",\"path\":\"");
    extend_chars(&mut v, &p);
    extend_str(&mut v, "\",\"current\":true}]}");
    string_of(&v)
}

/// Answer of a handled clip: the file's path on success (status 200), the
/// error otherwise (status 500).
pub fn clip_result_body(result: &Result<String, String>) -> (r: (u16, String))
    ensures
        match result {
            Ok(path) => r.0 == 200 && r.1@ == "{\"ok\":true,\"path\":\""@ + path@ + "\"}"@,
            Err(e) => r.0 == 500 && r.1@ == "{\"ok\":false,\"error\":\""@ + e@ + "\"}"@,
        },
{
    match result {
        Ok(path) => {
            let mut v = chars_of("{\"ok\":true,\"path\":\"");
            extend_str(&mut v, path.as_str());
            extend_str(&mut v, "\"}");
            (200, string_of(&v))
        },
        Err(e) => {
            let mut v = chars_of("{\"ok\":false,\"error\":\"");
            extend_str(&mut v, e.as_str());
            extend_str(&mut v, "\"}");
            (500, string_of(&v))
        },
    }
}

/// Answer when the request body cannot be read (status 400).
pub fn read_failure_body(error: &str) -> (r: String)
    ensures
        r@ == "{\"ok\":false,\"error\":\"Read failed: "@ + error@ + "\"}"@,
{
    let mut v = chars_of("{\"ok\":false,\"error\":\"Read failed: ");
    extend_str(&mut v, error);
    extend_str(&mut v, "\"}");
    string_of(&v)
}

// ───────────────────────── clips ─────────────────────────

/// A clip sent by the browser extension.
#[derive(Debug, Clone)]
pub struct ClipRequest {
    pub title: String,
    pub url: String,
    pub content: String,
    pub project_path: Option<String>,
}

/// A string member, or a default when missing or not a string.
pub open spec fn member_or(v: JsonValue, key: Seq<char>, default: Seq<char>) -> Seq<char> {
    match str_member(v, key) {
        Some(s) => s,
        None => default,
    }
}

/// A string member, or a default.
pub fn member_or_exec(v: &JsonValue, key: &str, default: &str) -> (r: String)
    ensures
        r@ == member_or(*v, key@, default@),
{
    match get_str(v, key) {
        Some(s) => String::from_str(s.as_str()),
        None => String::from_str(default),
    }
}

/// The clip a parsed body describes: title (default `Untitled`), URL and
/// content (default empty), and the project path if given as a string.
pub open spec fn clip_of(v: JsonValue, c: ClipRequest) -> bool {
    &&& c.title@ == member_or(v, "title"@, "Untitled"@)
    &&& c.url@ == member_or(v, "url"@, ""@)
    &&& c.content@ == member_or(v, "content"@, ""@)
    &&& match c.project_path {
        Some(p) => str_member(v, "projectPath"@) == Some(p@),
        None => str_member(v, "projectPath"@) is None,
    }
}

/// Reads a clip from the request body; the error is the JSON parser's
/// message when the body is not JSON.
pub fn parse_clip_request(body: &str) -> (r: Result<ClipRequest, String>)
    ensures
        match r {
            Ok(c) => exists|v: JsonValue| crate::json::spec_parse_json(body@) == Some(v) && clip_of(v, c),
            Err(_) => crate::json::spec_parse_json(body@) is None,
        },
{
    match parse_json_text(body) {
        Err(e) => Err(e),
        Ok(v) => {
            let project_path = match get_str(&v, "projectPath") {
                Some(p) => Some(String::from_str(p.as_str())),
                None => None,
            };
            let c = ClipRequest {
                title: member_or_exec(&v, "title", "Untitled"),
                url: member_or_exec(&v, "url", ""),
                content: member_or_exec(&v, "content", ""),
                project_path,
            };
            assert(clip_of(v, c));
            Ok(c)
        },
    }
}

/// Why a clip is refused before anything is written, if it is: empty
/// content, no open vault, or a requested project that is not the open
/// vault (compared as normalised paths).
pub open spec fn clip_refusal(c: ClipRequest, vault: Seq<char>) -> Option<Seq<char>> {
    if c.content@.len() == 0 {
        Some("Content is empty"@)
    } else if vault.len() == 0 {
        Some("No vault is currently open"@)
    } else {
        match c.project_path {
            Some(p) => if p@.len() > 0 && norm_path(p@) != norm_path(vault) {
                Some("Requested project '"@ + norm_path(p@) + "' does not match active vault '"@
                    + norm_path(vault) + "'"@)
            } else {
                None
            },
            None => None,
        }
    }
}

/// Checks a clip against the open vault.
pub fn check_clip_request(c: &ClipRequest, vault_path: &str) -> (r: Result<(), String>)
    ensures
        match clip_refusal(*c, vault_path@) {
            Some(m) => r matches Err(e) && e@ == m,
            None => r is Ok,
        },
{
    if c.content.as_str().unicode_len() == 0 {
        return Err(String::from_str("Content is empty"));
    }
    if vault_path.unicode_len() == 0 {
        return Err(String::from_str("No vault is currently open"));
    }
    match &c.project_path {
        Some(p) => {
            if p.as_str().unicode_len() > 0 {
                let a = norm_path_exec(p.as_str());
                let b = norm_path_exec(vault_path);
                if !crate::text::chars_eq(&a, &b) {
                    let mut v = chars_of("Requested project '");
                    extend_chars(&mut v, &a);
                    extend_str(&mut v, "' does not match active vault '");
                    extend_chars(&mut v, &b);
                    extend_str(&mut v, "'");
                    return Err(string_of(&v));
                }
            }
            Ok(())
        },
        None => Ok(()),
    }
}

/// Slug of a title before trimming: alphanumeric characters (ASCII ones
/// lowercased), any other run of characters as one `-` (none at the start).
pub open spec fn clip_slug_raw(s: Seq<char>) -> Seq<char>
    decreases s.len(),
{
    if s.len() == 0 {
        seq![]
    } else {
        let p = clip_slug_raw(s.drop_last());
        let c = s.last();
        if char_alphanumeric(c) {
            p.push(ascii_lower_char(c))
        } else if p.len() > 0 && p.last() != '-' {
            p.push('-')
        } else {
            p
        }
    }
}

/// Slug of a clip's title: dashes trimmed, at most 50 characters.
pub open spec fn clip_slug_of(title: Seq<char>) -> Seq<char> {
    take_chars(trim_dashes(clip_slug_raw(title)), 50)
}

/// Slug of a clip's title.
pub fn clip_slug(title: &str) -> (r: String)
    ensures
        r@ == clip_slug_of(title@),
{
    let t = chars_of(title);
    let mut out: Vec<char> = Vec::new();
    let mut i: usize = 0;
    while i < t.len()
        invariant
            i <= t.len(),
            t@ == title@,
            out@ == clip_slug_raw(t@.take(i as int)),
        decreases t.len() - i,
    {
        let c = t[i];
        assert(t@.take(i + 1).drop_last() =~= t@.take(i as int));
        assert(t@.take(i + 1).last() == c);
        if is_alphanumeric(c) {
            out.push(char_ascii_lower(c));
        } else if out.len() > 0 && out[out.len() - 1] != '-' {
            out.push('-');
        }
        i = i + 1;
    }
    assert(t@.take(t.len() as int) =~= t@);
    let s = trim_dashes_exec(&out);
    string_of(&take_chars_exec(&s, 50))
}

/// Base file name of a clip: its slug and the date (`YYYYMMDD`), or
/// `clip-` and the date when the slug is empty.
pub open spec fn clip_base(slug: Seq<char>, date_compact: Seq<char>) -> Seq<char> {
    if slug.len() == 0 {
        "clip-"@ + date_compact
    } else {
        slug + "-"@ + date_compact
    }
}

/// Base file name of a clip.
pub fn clip_base_name(slug: &str, date_compact: &str) -> (r: String)
    ensures
        r@ == clip_base(slug@, date_compact@),
{
    let mut v: Vec<char> = Vec::new();
    if slug.unicode_len() == 0 {
        extend_str(&mut v, "clip-");
    } else {
        extend_str(&mut v, slug);
        extend_str(&mut v, "-");
    }
    extend_str(&mut v, date_compact);
    string_of(&v)
}

/// File name of the `n`-th try for a clip: `<base>.md`, then
/// `<base>-2.md`, `<base>-3.md`, ...
pub fn clip_file_name(base: &str, attempt: u32) -> (r: String)
    ensures
        attempt <= 1 ==> r@ == base@ + ".md"@,
        attempt > 1 ==> r@ == base@ + "-"@ + dec(attempt as nat) + ".md"@,
{
    let mut v = chars_of(base);
    if attempt > 1 {
        extend_str(&mut v, "-");
        extend_dec(&mut v, attempt as u64);
    }
    extend_str(&mut v, ".md");
    string_of(&v)
}

/// Markdown file of a clip: front matter (title and URL with `"` escaped),
/// heading, source line and content.
pub open spec fn clip_markdown_text(c: ClipRequest, date: Seq<char>) -> Seq<char> {
    "---\ntype: clip\ntitle: \""@ + replace_char(c.title@, '"', "\\\""@) + "\"\nurl: \""@
        + replace_char(c.url@, '"', "\\\""@) + "\"\nclipped: "@ + date
        + "\norigin: clipper\ntags: [clip]\n---\n\n# "@ + c.title@ + "\n\nSource: "@ + c.url@
        + "\n\n"@ + c.content@ + "\n"@
}

/// Markdown file of a clip.
pub fn clip_markdown(c: &ClipRequest, date: &str) -> (r: String)
    ensures
        r@ == clip_markdown_text(*c, date@),
{
    let mut v = chars_of("---\ntype: clip\ntitle: \"");
    extend_chars(&mut v, &replace_char_exec(&chars_of(c.title.as_str()), '"', "\\\""));
    extend_str(&mut v, "\"\nurl: \"");
    extend_chars(&mut v, &replace_char_exec(&chars_of(c.url.as_str()), '"', "\\\""));
    extend_str(&mut v, "\"\nclipped: ");
    extend_str(&mut v, date);
    extend_str(&mut v, "\norigin: clipper\ntags: [clip]\n---\n\n# ");
    extend_str(&mut v, c.title.as_str());
    extend_str(&mut v, "\n\nSource: ");
    extend_str(&mut v, c.url.as_str());
    extend_str(&mut v, "\n\n");
    extend_str(&mut v, c.content.as_str());
    extend_str(&mut v, "\n");
    string_of(&v)
}

} // verus!
