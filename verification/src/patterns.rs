//! Regular-expression matching, through the `regex` crate.
//!
//! What a regular expression matches is not restated here: the results of
//! `Regex::is_match` and `Regex::captures` are named, and every caller's
//! contract speaks of those names.
use vstd::prelude::*;

verus! {

/// What `Regex::new(pattern)` then `is_match(text)` returns; `None` when the
/// pattern does not compile.
pub uninterp spec fn regex_match_result(pattern: Seq<char>, text: Seq<char>) -> Option<bool>;

/// What `Regex::new(pattern)` then `captures(text)` gives: `None` when the
/// pattern does not compile or does not match, else the text of each group
/// (group 0 first), `None` for a group that did not take part in the match.
pub uninterp spec fn regex_captures_result(pattern: Seq<char>, text: Seq<char>) -> Option<Seq<Option<Seq<char>>>>;

/// Whether `pattern` matches somewhere in `text` (false when it does not compile).
pub open spec fn regex_matches(pattern: Seq<char>, text: Seq<char>) -> bool {
    regex_match_result(pattern, text) == Some(true)
}

/// Calls `regex::Regex::new` and `Regex::is_match`; the result is the name
/// [`regex_match_result`] of the pattern and text, `None` when the pattern is
/// rejected by `Regex::new`.
#[verifier::external_body]
pub(crate) fn regex_is_match(pattern: &str, text: &str) -> (r: Option<bool>)
    ensures
        r == regex_match_result(pattern@, text@),
{
    match regex::Regex::new(pattern) {
        Ok(re) => Some(re.is_match(text)),
        Err(_) => None,
    }
}

/// Calls `regex::Regex::new` and `Regex::captures`, returning the text of
/// every group; the result is the name [`regex_captures_result`] of the
/// pattern and text.
#[verifier::external_body]
pub(crate) fn regex_captures(pattern: &str, text: &str) -> (r: Option<Vec<Option<String>>>)
    ensures
        match r {
            None => regex_captures_result(pattern@, text@) is None,
            Some(groups) => regex_captures_result(pattern@, text@) == Some(
                groups@.map_values(|g: Option<String>| match g {
                    Some(s) => Some(s@),
                    None => None,
                }),
            ),
        },
{
    let re = match regex::Regex::new(pattern) {
        Ok(re) => re,
        Err(_) => return None,
    };
    re.captures(text).map(|caps| caps.iter().map(|m| m.map(|m| m.as_str().to_string())).collect())
}

} // verus!
