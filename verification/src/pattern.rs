//! The one boundary to the `regex` crate: compiling a user-supplied filter
//! pattern and testing it against a candidate string.

use vstd::prelude::*;

verus! {

/// Whether `pattern` is accepted by the regex compiler (under its default
/// size limit). Compilation depends on the pattern text alone.
pub uninterp spec fn regex_compiles(pattern: Seq<char>) -> bool;

/// Whether the regular expression `pattern` matches anywhere in `text`.
/// Matching depends on the pattern and haystack texts alone.
pub uninterp spec fn regex_accepts(pattern: Seq<char>, text: Seq<char>) -> bool;

/// Relies on regex::Regex::new and regex::Regex::is_match: `new` fails
/// exactly on patterns the crate rejects, and `is_match` reports whether the
/// compiled pattern matches anywhere in the haystack; both results are
/// functions of the pattern and haystack texts alone. The compiled value
/// cannot carry its pattern through a contract, so the two calls are made
/// together here.
#[verifier::external_body]
pub(crate) fn regex_is_match(pattern: &str, text: &str) -> (r: Option<bool>)
    ensures
        r is Some <==> regex_compiles(pattern@),
        r is Some ==> r == Some(regex_accepts(pattern@, text@)),
{
    match regex::Regex::new(pattern) {
        Ok(re) => Some(re.is_match(text)),
        Err(_) => None,
    }
}

/// Whether `pattern` compiles, learned by attempting the compilation.
pub fn pattern_compiles(pattern: &str) -> (r: bool)
    ensures
        r == regex_compiles(pattern@),
{
    regex_is_match(pattern, "").is_some()
}

} // verus!
