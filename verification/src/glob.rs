//! Shell-style pattern matching, done by the `fnmatch_regex` crate.

use vstd::prelude::*;

verus! {

/// Whether the shell pattern `pattern` matches the whole of `text`; none
/// where the pattern is refused as malformed.
pub uninterp spec fn glob_match(pattern: Seq<char>, text: Seq<char>) -> Option<bool>;

/// `fnmatch_regex::glob_to_regex`, then `Regex::is_match` on the expression
/// it built: whether `pattern` matches `text`. A pattern that cannot be
/// turned into an expression gives none.
#[verifier::external_body]
pub(crate) fn glob_matches(pattern: &str, text: &str) -> (r: Option<bool>)
    ensures
        r == glob_match(pattern@, text@),
{
    match fnmatch_regex::glob_to_regex(pattern) {
        Ok(expression) => Some(expression.is_match(text)),
        Err(_) => None,
    }
}

/// Whether `pattern` is accepted and matches `text`.
pub open spec fn accepts(pattern: Seq<char>, text: Seq<char>) -> bool {
    glob_match(pattern, text) == Some(true)
}

/// Whether `pattern` is accepted and matches `text`.
pub fn matches_glob(pattern: &str, text: &str) -> (r: bool)
    ensures
        r == accepts(pattern@, text@),
{
    match glob_matches(pattern, text) {
        Some(hit) => hit,
        None => false,
    }
}

} // verus!
