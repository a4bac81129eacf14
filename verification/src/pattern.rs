//! Regular expressions, through the `regex` crate: a compiled pattern keeps
//! its source, and what matching yields is named by the source.
use vstd::prelude::*;

verus! {

#[verifier::external_type_specification]
#[verifier::external_body]
pub struct ExRegex(regex::Regex);

/// Whether `regex::Regex::new` accepts a pattern.
pub uninterp spec fn regex_valid(pattern: Seq<char>) -> bool;

/// What `Regex::replace_all` yields for a pattern, a text and a replacement.
pub uninterp spec fn regex_replace_all(pattern: Seq<char>, text: Seq<char>, rep: Seq<char>) -> Seq<char>;

/// What the first match of a pattern captures as group 1 (the empty text
/// when the group did not take part), or `None` when nothing matches.
pub uninterp spec fn regex_capture1(pattern: Seq<char>, text: Seq<char>) -> Option<Seq<char>>;

/// A compiled regular expression with the pattern it was compiled from.
pub struct Pattern {
    source: String,
    re: regex::Regex,
}

/// Compiles a pattern with `regex::Regex::new`; `None` when the crate
/// rejects it.
#[verifier::external_body]
fn compile_regex(source: &str) -> (r: Option<regex::Regex>)
    ensures
        r is Some <==> regex_valid(source@),
{
    regex::Regex::new(source).ok()
}

/// Every non-overlapping match replaced, with `Regex::replace_all` on the
/// pattern's compiled form (compiled from its source by `Pattern::new`).
#[verifier::external_body]
fn replace_all_regex(p: &Pattern, text: &str, rep: &str) -> (r: String)
    ensures
        r@ == regex_replace_all(p.source(), text@, rep@),
{
    p.re.replace_all(text, rep).into_owned()
}

/// Group 1 of the first match, with `Regex::captures` on the pattern's
/// compiled form (compiled from its source by `Pattern::new`).
#[verifier::external_body]
fn capture1_regex(p: &Pattern, text: &str) -> (r: Option<String>)
    ensures
        match r {
            Some(s) => regex_capture1(p.source(), text@) == Some(s@),
            None => regex_capture1(p.source(), text@) is None,
        },
{
    p.re.captures(text).map(|c| c.get(1).map(|m| m.as_str()).unwrap_or("").to_string())
}

impl Pattern {
    /// The pattern's source.
    pub closed spec fn source(&self) -> Seq<char> {
        self.source@
    }

    /// Compiles a pattern; `None` when it is not a valid regular expression.
    pub fn new(source: &str) -> (r: Option<Pattern>)
        ensures
            r is Some <==> regex_valid(source@),
            r matches Some(p) ==> p.source() == source@,
    {
        match compile_regex(source) {
            Some(re) => Some(Pattern { source: String::from_str(source), re }),
            None => None,
        }
    }

    /// Every non-overlapping match in `text` replaced by `rep`.
    pub fn replace_all(&self, text: &str, rep: &str) -> (r: String)
        ensures
            r@ == regex_replace_all(self.source(), text@, rep@),
    {
        replace_all_regex(self, text, rep)
    }

    /// Group 1 of the first match in `text`.
    pub fn capture1(&self, text: &str) -> (r: Option<String>)
        ensures
            match r {
                Some(s) => regex_capture1(self.source(), text@) == Some(s@),
                None => regex_capture1(self.source(), text@) is None,
            },
    {
        capture1_regex(self, text)
    }
}

} // verus!
