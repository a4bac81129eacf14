//! The command line's startup banner: a box of centred lines.
use crate::text::{chars_of, extend_chars, extend_str, string_of, take_chars, take_chars_exec, trim, trim_str};
use vstd::prelude::*;
use vstd::string::StringExecFns;

verus! {

broadcast use vstd::string::group_string_axioms;

/// Width inside the box's borders, in characters.
pub const INNER: usize = 56;

/// `n` copies of a character.
pub open spec fn repeat_char(c: char, n: nat) -> Seq<char> {
    Seq::new(n, |i: int| c)
}

fn push_repeat(v: &mut Vec<char>, c: char, n: usize)
    ensures
        final(v)@ == old(v)@ + repeat_char(c, n as nat),
{
    let ghost start = v@;
    let mut i: usize = 0;
    while i < n
        invariant
            i <= n,
            v@ == start + repeat_char(c, i as nat),
        decreases n - i,
    {
        v.push(c);
        assert(v@ =~= start + repeat_char(c, (i + 1) as nat));
        i = i + 1;
    }
}

/// The box's top border.
pub open spec fn top_rule_text() -> Seq<char> {
    "  ╭"@ + repeat_char('─', INNER as nat) + "╮"@
}

/// The box's bottom border.
pub open spec fn bottom_rule_text() -> Seq<char> {
    "  ╰"@ + repeat_char('─', INNER as nat) + "╯"@
}

/// A line of the box: the trimmed text, cut to the inner width and
/// centred (an odd leftover space goes to the right).
pub open spec fn row_text(text: Seq<char>) -> Seq<char> {
    let s = take_chars(trim(text), INNER as nat);
    let pad = (INNER - s.len()) as nat;
    let left = pad / 2;
    let right = (pad - left) as nat;
    "  │"@ + repeat_char(' ', left) + s + repeat_char(' ', right) + "│"@
}

/// The top border.
pub fn top_rule() -> (r: String)
    ensures
        r@ == top_rule_text(),
        r@.len() == INNER + 4,
{
    let mut v = chars_of("  ╭");
    push_repeat(&mut v, '─', INNER);
    extend_str(&mut v, "╮");
    proof {
        reveal_strlit("  ╭");
        reveal_strlit("╮");
    }
    string_of(&v)
}

/// The bottom border.
pub fn bottom_rule() -> (r: String)
    ensures
        r@ == bottom_rule_text(),
        r@.len() == INNER + 4,
{
    let mut v = chars_of("  ╰");
    push_repeat(&mut v, '─', INNER);
    extend_str(&mut v, "╯");
    proof {
        reveal_strlit("  ╰");
        reveal_strlit("╯");
    }
    string_of(&v)
}

/// A centred line of the box.
pub fn row(text: &str) -> (r: String)
    ensures
        r@ == row_text(text@),
        r@.len() == INNER + 4,
{
    let s = take_chars_exec(&trim_str(text), INNER);
    let pad = INNER - s.len();
    let left = pad / 2;
    let right = pad - left;
    let mut v = chars_of("  │");
    push_repeat(&mut v, ' ', left);
    extend_chars(&mut v, &s);
    push_repeat(&mut v, ' ', right);
    extend_str(&mut v, "│");
    proof {
        reveal_strlit("  │");
        reveal_strlit("│");
    }
    string_of(&v)
}

/// The banner's lines: a blank line, the box with the name and two lines
/// of description between blank rows, and a blank line.
pub fn banner_lines() -> (r: Vec<String>)
    ensures
        r@.len() == 9,
        r@[0]@ == Seq::<char>::empty(),
        r@[1]@ == top_rule_text(),
        r@[2]@ == row_text(""@),
        r@[3]@ == row_text("rust-llm-wiki"@),
        r@[4]@ == row_text("LLM Wiki v2 · persistent knowledge kernel"@),
        r@[5]@ == row_text("Rust · event outbox · RRF · MemPalace"@),
        r@[6]@ == row_text(""@),
        r@[7]@ == bottom_rule_text(),
        r@[8]@ == Seq::<char>::empty(),
{
    let mut v: Vec<String> = Vec::new();
    v.push(String::new());
    v.push(top_rule());
    v.push(row(""));
    v.push(row("rust-llm-wiki"));
    v.push(row("LLM Wiki v2 · persistent knowledge kernel"));
    v.push(row("Rust · event outbox · RRF · MemPalace"));
    v.push(row(""));
    v.push(bottom_rule());
    v.push(String::new());
    v
}

} // verus!
