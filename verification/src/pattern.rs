//! Regular expressions compiled with the `regex` crate, kept with the
//! pattern they were compiled from.

use vstd::prelude::*;

verus! {

#[verifier::external_type_specification]
#[verifier::external_body]
pub struct ExRegex(regex::Regex);

/// Whether `regex::Regex::new` accepts the pattern: its syntax is valid and
/// the compiled program stays within the default size limit.
pub uninterp spec fn regex_compiles(pattern: Seq<char>) -> bool;

/// What `Regex::replace_all` of the compiled pattern gives on the haystack
/// with the replacement, `$n` in the replacement standing for group `n` of
/// each match.
pub uninterp spec fn regex_replaced(pattern: Seq<char>, haystack: Seq<char>, replacement: Seq<char>) -> Seq<char>;

/// A compiled regular expression, with the pattern it was compiled from.
pub struct Pattern {
    regex: regex::Regex,
    source: Ghost<Seq<char>>,
}

impl Pattern {
    /// The pattern this expression was compiled from.
    pub closed spec fn source(&self) -> Seq<char> {
        self.source@
    }
}

/// `Regex::replace_all` with a replacement string, as an owned `String`.
#[verifier::external_body]
pub(crate) fn replace_every(p: &Pattern, haystack: &str, replacement: &str) -> (r: String)
    ensures
        r@ == regex_replaced(p.source(), haystack@, replacement@),
{
    p.regex.replace_all(haystack, replacement).into_owned()
}

/// What `Captures::get(1)` gives on the last match that `Regex::captures_iter`
/// finds of the compiled pattern in the text, or `None` where there is no
/// match or its group 1 took no part.
pub uninterp spec fn regex_last_group(pattern: Seq<char>, text: Seq<char>) -> Option<Seq<char>>;

/// The text of the error that `regex::Regex::new` reports on a pattern that
/// it refuses (its `Display`).
pub uninterp spec fn regex_error_text(pattern: Seq<char>) -> Seq<char>;

/// `regex::Regex::new`: the compiled pattern, or the text of its error.
#[verifier::external_body]
pub(crate) fn compile_reporting(pattern: &str) -> (r: Result<Pattern, String>)
    ensures
        r is Ok <==> regex_compiles(pattern@),
        r matches Ok(p) ==> p.source() == pattern@,
        r matches Err(m) ==> m@ == regex_error_text(pattern@),
{
    match regex::Regex::new(pattern) {
        Ok(regex) => Ok(Pattern { regex, source: Ghost(pattern@) }),
        Err(e) => Err(e.to_string()),
    }
}

/// Group 1 of the last match in the text (`captures_iter(..).last()`, then `get(1)`).
#[verifier::external_body]
pub(crate) fn last_group(p: &Pattern, text: &str) -> (r: Option<String>)
    ensures
        match regex_last_group(p.source(), text@) {
            Some(g) => r matches Some(x) && x@ == g,
            None => r is None,
        },
{
    match p.regex.captures_iter(text).last() {
        Some(c) => match c.get(1) {
            Some(m) => Some(m.as_str().to_string()),
            None => None,
        },
        None => None,
    }
}


} // verus!
