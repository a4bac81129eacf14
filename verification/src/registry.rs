//! The MCP server registry: request URLs (percent-encoded) and what is read
//! from its JSON answers: server lists, install commands, secret keys.
use crate::clip::{member_or, member_or_exec};
use crate::json::{
    bool_member, get, get_bool, get_str, get_u64, json_as_str, json_get, str_member, u64_member,
    JsonValue,
};
use crate::models::{SmitheryServer, SmitheryServerDetail};
use crate::text::{
    char_from_ascii_code, chars_of, contains, contains_str, dec, extend_chars, extend_dec,
    extend_str, string_of, string_views,
};
use crate::unicode::{str_uppercase, to_uppercase};
use vstd::prelude::*;
use vstd::string::StringExecFns;

verus! {

broadcast use vstd::string::group_string_axioms;

/// Base URL of the registry.
pub const REGISTRY_BASE: &'static str = "https://registry.smithery.ai";

// ───────────────────────── percent encoding ─────────────────────────

/// UTF-8 bytes of a character.
pub open spec fn utf8_bytes(c: char) -> Seq<u8> {
    let u = c as u32;
    if u < 0x80 {
        seq![u as u8]
    } else if u < 0x800 {
        seq![(0xC0 + u / 64) as u8, (0x80 + u % 64) as u8]
    } else if u < 0x10000 {
        seq![(0xE0 + u / 4096) as u8, (0x80 + (u / 64) % 64) as u8, (0x80 + u % 64) as u8]
    } else {
        seq![
            (0xF0 + u / 262144) as u8,
            (0x80 + (u / 4096) % 64) as u8,
            (0x80 + (u / 64) % 64) as u8,
            (0x80 + u % 64) as u8,
        ]
    }
}

/// Whether a byte stays as it is in a URL (RFC 3986 unreserved).
pub open spec fn unreserved(b: u8) -> bool {
    (65 <= b <= 90) || (97 <= b <= 122) || (48 <= b <= 57) || b == 45 || b == 95 || b == 46
        || b == 126
}

/// Uppercase hexadecimal digit.
pub open spec fn hex_digit(d: u8) -> char {
    if d < 10 {
        ((48 + d) as u32) as char
    } else {
        ((55 + d) as u32) as char
    }
}

/// A byte as it appears in an encoded URL: itself when unreserved, `+` for
/// a space in a query value, `%XX` otherwise.
pub open spec fn encode_byte(b: u8, plus_for_space: bool) -> Seq<char> {
    if unreserved(b) {
        seq![(b as u32) as char]
    } else if plus_for_space && b == 32 {
        seq!['+']
    } else {
        seq!['%', hex_digit(b / 16), hex_digit(b % 16)]
    }
}

/// Bytes encoded one after the other.
pub open spec fn encode_bytes(bs: Seq<u8>, plus_for_space: bool) -> Seq<char>
    decreases bs.len(),
{
    if bs.len() == 0 {
        seq![]
    } else {
        encode_bytes(bs.drop_last(), plus_for_space) + encode_byte(bs.last(), plus_for_space)
    }
}

/// A text percent-encoded byte by byte (of its UTF-8 form).
pub open spec fn percent_encoded(s: Seq<char>, plus_for_space: bool) -> Seq<char>
    decreases s.len(),
{
    if s.len() == 0 {
        seq![]
    } else {
        percent_encoded(s.drop_last(), plus_for_space) + encode_bytes(utf8_bytes(s.last()), plus_for_space)
    }
}

fn char_bytes(c: char) -> (r: Vec<u8>)
    ensures
        r@ == utf8_bytes(c),
{
    let u = c as u32;
    if u < 0x80 {
        vec![u as u8]
    } else if u < 0x800 {
        vec![(0xC0 + u / 64) as u8, (0x80 + u % 64) as u8]
    } else if u < 0x10000 {
        vec![(0xE0 + u / 4096) as u8, (0x80 + (u / 64) % 64) as u8, (0x80 + u % 64) as u8]
    } else {
        vec![
            (0xF0 + u / 262144) as u8,
            (0x80 + (u / 4096) % 64) as u8,
            (0x80 + (u / 64) % 64) as u8,
            (0x80 + u % 64) as u8,
        ]
    }
}

fn hex_digit_exec(d: u8) -> (r: char)
    requires
        d < 16,
    ensures
        r == hex_digit(d),
{
    if d < 10 {
        char_from_ascii_code(48 + d as u32)
    } else {
        char_from_ascii_code(55 + d as u32)
    }
}

fn push_encoded_byte(out: &mut Vec<char>, b: u8, plus_for_space: bool)
    ensures
        final(out)@ == old(out)@ + encode_byte(b, plus_for_space),
{
    let ghost before = out@;
    if (65 <= b && b <= 90) || (97 <= b && b <= 122) || (48 <= b && b <= 57) || b == 45 || b == 95
        || b == 46 || b == 126 {
        out.push(char_from_ascii_code(b as u32));
    } else if plus_for_space && b == 32 {
        out.push('+');
    } else {
        out.push('%');
        out.push(hex_digit_exec(b / 16));
        out.push(hex_digit_exec(b % 16));
    }
    assert(out@ =~= before + encode_byte(b, plus_for_space));
}

fn percent_encode(s: &str, plus_for_space: bool) -> (r: String)
    ensures
        r@ == percent_encoded(s@, plus_for_space),
{
    let c = chars_of(s);
    let mut out: Vec<char> = Vec::new();
    let mut i: usize = 0;
    while i < c.len()
        invariant
            i <= c.len(),
            c@ == s@,
            out@ == percent_encoded(c@.take(i as int), plus_for_space),
        decreases c.len() - i,
    {
        let bs = char_bytes(c[i]);
        let ghost base = out@;
        let mut j: usize = 0;
        while j < bs.len()
            invariant
                j <= bs.len(),
                out@ == base + encode_bytes(bs@.take(j as int), plus_for_space),
            decreases bs.len() - j,
        {
            assert(bs@.take(j + 1).drop_last() =~= bs@.take(j as int));
            push_encoded_byte(&mut out, bs[j], plus_for_space);
            assert(out@ =~= base + encode_bytes(bs@.take(j + 1), plus_for_space));
            j = j + 1;
        }
        assert(bs@.take(bs.len() as int) =~= bs@);
        assert(c@.take(i + 1).drop_last() =~= c@.take(i as int));
        i = i + 1;
    }
    assert(c@.take(c.len() as int) =~= c@);
    string_of(&out)
}

/// A query-string value percent-encoded (a space becomes `+`).
pub fn percent_encode_query(s: &str) -> (r: String)
    ensures
        r@ == percent_encoded(s@, true),
{
    percent_encode(s, true)
}

/// A path segment percent-encoded (`@` and `/` included).
pub fn percent_encode_path(s: &str) -> (r: String)
    ensures
        r@ == percent_encoded(s@, false),
{
    percent_encode(s, false)
}

/// URL of a registry search.
pub fn smithery_search_url(query: &str, page_size: u32) -> (r: String)
    ensures
        r@ == REGISTRY_BASE@ + "/servers?q="@ + percent_encoded(query@, true) + "&pageSize="@ + dec(
            page_size as nat,
        ),
{
    let mut v = chars_of(REGISTRY_BASE);
    extend_str(&mut v, "/servers?q=");
    let q = percent_encode_query(query);
    extend_str(&mut v, q.as_str());
    extend_str(&mut v, "&pageSize=");
    extend_dec(&mut v, page_size as u64);
    string_of(&v)
}

/// URL of a server's details.
pub fn smithery_detail_url(qualified_name: &str) -> (r: String)
    ensures
        r@ == REGISTRY_BASE@ + "/servers/"@ + percent_encoded(qualified_name@, false),
{
    let mut v = chars_of(REGISTRY_BASE);
    extend_str(&mut v, "/servers/");
    let q = percent_encode_path(qualified_name);
    extend_str(&mut v, q.as_str());
    string_of(&v)
}

// ───────────────────────── server lists ─────────────────────────

/// The items of an array member, or none.
pub open spec fn array_member(v: JsonValue, key: Seq<char>) -> Seq<JsonValue> {
    match json_get(v, key) {
        Some(JsonValue::Array(items)) => items@,
        _ => seq![],
    }
}

fn array_member_exec<'a>(v: &'a JsonValue, key: &str) -> (r: &'a [JsonValue])
    ensures
        r@ == array_member(*v, key@),
{
    match get(v, key) {
        Some(JsonValue::Array(items)) => items.as_slice(),
        _ => &[],
    }
}

/// A server of a search answer: names (the display name defaulting to the
/// qualified one), description, verified flag, use count, and icon when
/// not empty.
pub open spec fn server_of(item: JsonValue, s: SmitheryServer) -> bool {
    let qn = member_or(item, "qualifiedName"@, ""@);
    &&& s.qualified_name@ == qn
    &&& s.display_name@ == member_or(item, "displayName"@, qn)
    &&& s.description@ == member_or(item, "description"@, ""@)
    &&& s.verified == (match bool_member(item, "verified"@) {
        Some(b) => b,
        None => false,
    })
    &&& s.use_count == (match u64_member(item, "useCount"@) {
        Some(n) => n,
        None => 0,
    })
    &&& match s.icon_url {
        Some(u) => str_member(item, "iconUrl"@) == Some(u@) && u@.len() > 0,
        None => !(str_member(item, "iconUrl"@) matches Some(x) && x.len() > 0),
    }
}

fn server_from(item: &JsonValue) -> (r: SmitheryServer)
    ensures
        server_of(*item, r),
{
    let qualified_name = member_or_exec(item, "qualifiedName", "");
    let display_name = match get_str(item, "displayName") {
        Some(s) => String::from_str(s.as_str()),
        None => String::from_str(qualified_name.as_str()),
    };
    let icon_url = match get_str(item, "iconUrl") {
        Some(s) => if s.as_str().unicode_len() > 0 {
            Some(String::from_str(s.as_str()))
        } else {
            None
        },
        None => None,
    };
    SmitheryServer {
        qualified_name,
        display_name,
        description: member_or_exec(item, "description", ""),
        verified: match get_bool(item, "verified") {
            Some(b) => b,
            None => false,
        },
        use_count: match get_u64(item, "useCount") {
            Some(n) => n,
            None => 0,
        },
        icon_url,
    }
}

/// The servers of a search answer: at most `page_size`, in order.
pub fn parse_smithery_servers(body: &JsonValue, page_size: u32) -> (r: Vec<SmitheryServer>)
    ensures
        r.len() == if array_member(*body, "servers"@).len() < page_size {
            array_member(*body, "servers"@).len() as int
        } else {
            page_size as int
        },
        forall|i: int| 0 <= i < r.len() ==> server_of(array_member(*body, "servers"@)[i], #[trigger] r@[i]),
{
    let items = array_member_exec(body, "servers");
    let n: usize = if (items.len() as u64) < (page_size as u64) {
        items.len()
    } else {
        page_size as usize
    };
    let mut out: Vec<SmitheryServer> = Vec::new();
    let mut i: usize = 0;
    while i < n
        invariant
            i <= n,
            n <= items.len(),
            out.len() == i,
            forall|k: int| 0 <= k < i ==> server_of(items@[k], #[trigger] out@[k]),
        decreases n - i,
    {
        out.push(server_from(&items[i]));
        i = i + 1;
    }
    out
}

// ───────────────────────── install commands ─────────────────────────

/// Whether a key name (uppercased) looks like a secret.
pub open spec fn secret_like(upper: Seq<char>) -> bool {
    contains(upper, "KEY"@) || contains(upper, "TOKEN"@) || contains(upper, "SECRET"@) || contains(
        upper,
        "API"@,
    )
}

/// Names of an object's members, in order.
pub open spec fn member_names(v: JsonValue) -> Seq<Seq<char>> {
    match v {
        JsonValue::Object(fields) => fields@.map_values(|f: (String, JsonValue)| f.0@),
        _ => seq![],
    }
}

/// The strings among an array's items.
pub open spec fn strings_of(items: Seq<JsonValue>) -> Seq<Seq<char>>
    decreases items.len(),
{
    if items.len() == 0 {
        seq![]
    } else {
        strings_of(items.drop_last()) + match json_as_str(items.last()) {
            Some(s) => seq![s],
            None => Seq::<Seq<char>>::empty(),
        }
    }
}

/// `keys` appended to `acc`, each at most once, those that pass `keep`.
pub open spec fn add_keys(acc: Seq<Seq<char>>, keys: Seq<Seq<char>>, required: Seq<Seq<char>>, any_required: bool) -> Seq<Seq<char>>
    decreases keys.len(),
{
    if keys.len() == 0 {
        acc
    } else {
        let pre = add_keys(acc, keys.drop_last(), required, any_required);
        let k = keys.last();
        if (secret_like(str_uppercase(k)) || (any_required && required.contains(k))) && !pre.contains(k) {
            pre.push(k)
        } else {
            pre
        }
    }
}

/// Environment keys a server needs: its schema's properties that look
/// like secrets or are required, then secret-looking names of its `env`
/// object, each once.
pub open spec fn env_keys(schema: JsonValue) -> Seq<Seq<char>> {
    let required = strings_of(array_member(schema, "required"@));
    let props = match json_get(schema, "properties"@) {
        Some(p) => member_names(p),
        None => seq![],
    };
    let env = match json_get(schema, "env"@) {
        Some(e) => member_names(e),
        None => seq![],
    };
    add_keys(add_keys(seq![], props, required, true), env, seq![], false)
}

fn strings_of_exec(items: &[JsonValue]) -> (r: Vec<String>)
    ensures
        string_views(r@) == strings_of(items@),
{
    let mut out: Vec<String> = Vec::new();
    let mut i: usize = 0;
    while i < items.len()
        invariant
            i <= items.len(),
            string_views(out@) == strings_of(items@.take(i as int)),
        decreases items.len() - i,
    {
        assert(items@.take(i + 1).drop_last() =~= items@.take(i as int));
        let ghost before = string_views(out@);
        match crate::json::as_str(&items[i]) {
            Some(s) => {
                out.push(String::from_str(s.as_str()));
                assert(string_views(out@) =~= before.push(s@));
            },
            None => {},
        }
        assert(string_views(out@) =~= strings_of(items@.take(i + 1)));
        i = i + 1;
    }
    assert(items@.take(items.len() as int) =~= items@);
    out
}

fn contains_string(v: &Vec<String>, k: &str) -> (r: bool)
    ensures
        r == string_views(v@).contains(k@),
{
    let kc = chars_of(k);
    let mut i: usize = 0;
    while i < v.len()
        invariant
            i <= v.len(),
            kc@ == k@,
            forall|j: int| 0 <= j < i ==> string_views(v@)[j] != k@,
        decreases v.len() - i,
    {
        if crate::text::str_eq_chars(v[i].as_str(), &kc) {
            assert(string_views(v@)[i as int] == k@);
            return true;
        }
        i = i + 1;
    }
    false
}

fn member_names_exec(v: Option<&JsonValue>) -> (r: Vec<String>)
    ensures
        string_views(r@) == match v {
            Some(x) => member_names(*x),
            None => seq![],
        },
{
    let mut out: Vec<String> = Vec::new();
    match v {
        Some(JsonValue::Object(fields)) => {
            let mut i: usize = 0;
            while i < fields.len()
                invariant
                    i <= fields.len(),
                    string_views(out@) == fields@.take(i as int).map_values(|f: (String, JsonValue)| f.0@),
                decreases fields.len() - i,
            {
                let ghost before = string_views(out@);
                let name = String::from_str(fields[i].0.as_str());
                assert(name@ == fields@[i as int].0@);
                out.push(name);
                assert(string_views(out@) =~= before.push(fields@[i as int].0@));
                assert(fields@.take(i + 1).map_values(|f: (String, JsonValue)| f.0@) =~= fields@.take(
                    i as int,
                ).map_values(|f: (String, JsonValue)| f.0@).push(fields@[i as int].0@));
                i = i + 1;
            }
            assert(fields@.take(fields.len() as int) =~= fields@);
        },
        _ => {},
    }
    out
}

fn add_keys_exec(acc: &mut Vec<String>, keys: &Vec<String>, required: &Vec<String>, any_required: bool)
    ensures
        string_views(final(acc)@) == add_keys(
            string_views(old(acc)@),
            string_views(keys@),
            string_views(required@),
            any_required,
        ),
{
    let ghost acc0 = string_views(acc@);
    let ghost kv = string_views(keys@);
    let mut i: usize = 0;
    while i < keys.len()
        invariant
            i <= keys.len(),
            kv == string_views(keys@),
            string_views(acc@) == add_keys(acc0, kv.take(i as int), string_views(required@), any_required),
        decreases keys.len() - i,
    {
        assert(kv.take(i + 1).drop_last() =~= kv.take(i as int));
        assert(kv.take(i + 1).last() == keys@[i as int]@);
        let k = keys[i].as_str();
        let upper = to_uppercase(k);
        let uc = chars_of(upper.as_str());
        let secret = contains_str(&uc, "KEY") || contains_str(&uc, "TOKEN") || contains_str(&uc, "SECRET")
            || contains_str(&uc, "API");
        let req = any_required && contains_string(required, k);
        if (secret || req) && !contains_string(acc, k) {
            let ghost before = string_views(acc@);
            acc.push(String::from_str(k));
            assert(string_views(acc@) =~= before.push(k@));
        }
        i = i + 1;
    }
    assert(kv.take(keys.len() as int) =~= kv);
}

/// Environment keys a server's configuration schema asks for.
pub fn extract_env_keys(schema: &JsonValue) -> (r: Vec<String>)
    ensures
        string_views(r@) == env_keys(*schema),
{
    let required = strings_of_exec(array_member_exec(schema, "required"));
    let props = member_names_exec(get(schema, "properties"));
    let env = member_names_exec(get(schema, "env"));
    let mut keys: Vec<String> = Vec::new();
    assert(string_views(keys@) =~= Seq::<Seq<char>>::empty());
    add_keys_exec(&mut keys, &props, &required, true);
    let none: Vec<String> = Vec::new();
    assert(string_views(none@) =~= Seq::<Seq<char>>::empty());
    add_keys_exec(&mut keys, &env, &none, false);
    keys
}

/// The connection to read: the first of type `stdio`, else the first.
pub open spec fn chosen_connection(cs: Seq<JsonValue>) -> Option<JsonValue> {
    if exists|i: int| 0 <= i < cs.len() && str_member(cs[i], "type"@) == Some("stdio"@) {
        let i = choose|i: int|
            0 <= i < cs.len() && str_member(cs[i], "type"@) == Some("stdio"@) && forall|j: int|
                0 <= j < i ==> str_member(cs[j], "type"@) != Some("stdio"@);
        Some(cs[i])
    } else if cs.len() > 0 {
        Some(cs[0])
    } else {
        None
    }
}

/// A `default` string of a schema member.
pub open spec fn default_str(schema: JsonValue, key: Seq<char>) -> Option<Seq<char>> {
    match json_get(schema, key) {
        Some(m) => match json_get(m, "default"@) {
            Some(d) => json_as_str(d),
            None => None,
        },
        None => None,
    }
}

/// The strings of a `default` array of a schema member, if it is an array.
pub open spec fn default_strs(schema: JsonValue, key: Seq<char>) -> Option<Seq<Seq<char>>> {
    match json_get(schema, key) {
        Some(m) => match json_get(m, "default"@) {
            Some(JsonValue::Array(items)) => Some(strings_of(items@)),
            _ => None,
        },
        None => None,
    }
}

/// How to launch a server, from a detail answer: the chosen connection's
/// `command` and `args` defaults with the environment keys; `npx -y <name>`
/// when there is no connection, no schema, or no command.
pub open spec fn launch_of(body: JsonValue, qn: Seq<char>) -> (Seq<char>, Seq<Seq<char>>, Seq<Seq<char>>) {
    let npx = ("npx"@, seq!["-y"@, qn], Seq::<Seq<char>>::empty());
    match chosen_connection(array_member(body, "connections"@)) {
        None => npx,
        Some(conn) => match json_get(conn, "configSchema"@) {
            None => npx,
            Some(schema) => match default_str(schema, "command"@) {
                None => ("npx"@, seq!["-y"@, qn], env_keys(schema)),
                Some(c) => (
                    c,
                    match default_strs(schema, "args"@) {
                        Some(a) => a,
                        None => seq![],
                    },
                    env_keys(schema),
                ),
            },
        },
    }
}

fn choose_connection(cs: &[JsonValue]) -> (r: Option<&JsonValue>)
    ensures
        match r {
            Some(c) => chosen_connection(cs@) == Some(*c),
            None => chosen_connection(cs@) is None,
        },
{
    let mut i: usize = 0;
    while i < cs.len()
        invariant
            i <= cs.len(),
            forall|j: int| 0 <= j < i ==> str_member(cs@[j], "type"@) != Some("stdio"@),
        decreases cs.len() - i,
    {
        let is_stdio = match get_str(&cs[i], "type") {
            Some(t) => crate::text::str_eq_chars("stdio", &chars_of(t.as_str())),
            None => false,
        };
        if is_stdio {
            proof {
                let k = choose|k: int|
                    0 <= k < cs@.len() && str_member(cs@[k], "type"@) == Some("stdio"@) && forall|j: int|
                        0 <= j < k ==> str_member(cs@[j], "type"@) != Some("stdio"@);
                if k < i {
                } else if k > i {
                    assert(str_member(cs@[i as int], "type"@) == Some("stdio"@));
                }
            }
            return Some(&cs[i]);
        }
        i = i + 1;
    }
    if cs.len() > 0 {
        Some(&cs[0])
    } else {
        None
    }
}

/// How to launch a server, from its detail answer.
pub fn parse_connection(body: &JsonValue, qualified_name: &str) -> (r: (String, Vec<String>, Vec<String>))
    ensures
        ({
            let l = launch_of(*body, qualified_name@);
            r.0@ == l.0 && string_views(r.1@) == l.1 && string_views(r.2@) == l.2
        }),
{
    let mut npx_args: Vec<String> = Vec::new();
    npx_args.push(String::from_str("-y"));
    npx_args.push(String::from_str(qualified_name));
    assert(string_views(npx_args@) =~= seq!["-y"@, qualified_name@]);
    let none: Vec<String> = Vec::new();
    assert(string_views(none@) =~= Seq::<Seq<char>>::empty());
    let conns = array_member_exec(body, "connections");
    let conn = match choose_connection(conns) {
        Some(c) => c,
        None => return (String::from_str("npx"), npx_args, none),
    };
    let schema = match get(conn, "configSchema") {
        Some(s) => s,
        None => return (String::from_str("npx"), npx_args, none),
    };
    let command: Option<String> = match get(schema, "command") {
        Some(m) => match get_str(m, "default") {
            Some(d) => Some(String::from_str(d.as_str())),
            None => None,
        },
        None => None,
    };
    let keys = extract_env_keys(schema);
    match command {
        None => (String::from_str("npx"), npx_args, keys),
        Some(c) => {
            let args: Vec<String> = match get(schema, "args") {
                Some(m) => match get(m, "default") {
                    Some(JsonValue::Array(items)) => strings_of_exec(items.as_slice()),
                    _ => none,
                },
                None => none,
            };
            (c, args, keys)
        },
    }
}

/// A server's details: names and description from the answer (the display
/// name defaulting to the qualified one), and how to launch it.
pub fn parse_smithery_detail(body: &JsonValue, qualified_name: &str) -> (r: SmitheryServerDetail)
    ensures
        r.qualified_name@ == qualified_name@,
        r.display_name@ == member_or(*body, "displayName"@, qualified_name@),
        r.description@ == member_or(*body, "description"@, ""@),
        ({
            let l = launch_of(*body, qualified_name@);
            r.command@ == l.0 && string_views(r.args@) == l.1 && string_views(r.required_env_keys@) == l.2
        }),
{
    let (command, args, required_env_keys) = parse_connection(body, qualified_name);
    SmitheryServerDetail {
        qualified_name: String::from_str(qualified_name),
        display_name: member_or_exec(body, "displayName", qualified_name),
        description: member_or_exec(body, "description", ""),
        command,
        args,
        required_env_keys,
    }
}

proof fn lemma_add_keys_unique(acc: Seq<Seq<char>>, keys: Seq<Seq<char>>, required: Seq<Seq<char>>, any_required: bool)
    requires
        acc.no_duplicates(),
    ensures
        add_keys(acc, keys, required, any_required).no_duplicates(),
    decreases keys.len(),
{
    if keys.len() > 0 {
        lemma_add_keys_unique(acc, keys.drop_last(), required, any_required);
        let pre = add_keys(acc, keys.drop_last(), required, any_required);
        let k = keys.last();
        if !pre.contains(k) {
            assert forall|i: int, j: int| 0 <= i < j < pre.push(k).len() implies pre.push(k)[i] != pre.push(k)[j] by {
                if j == pre.len() {
                    assert(pre.push(k)[i] == pre[i]);
                }
            }
        }
    }
}

/// A server's environment keys never repeat a name.
pub proof fn lemma_env_keys_unique(schema: JsonValue)
    ensures
        env_keys(schema).no_duplicates(),
{
    let required = strings_of(array_member(schema, "required"@));
    let props = match json_get(schema, "properties"@) {
        Some(p) => member_names(p),
        None => seq![],
    };
    let env = match json_get(schema, "env"@) {
        Some(e) => member_names(e),
        None => seq![],
    };
    lemma_add_keys_unique(seq![], props, required, true);
    lemma_add_keys_unique(add_keys(seq![], props, required, true), env, seq![], false);
}

} // verus!
