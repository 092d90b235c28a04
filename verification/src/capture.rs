//! Matching text against a pattern, done by the `regex` crate.

use vstd::prelude::*;

verus! {

/// What the first capture group of `pattern` holds in each match of `pattern`
/// in `text`, the matches taken from left to right without overlap; `None`
/// where `pattern` is no pattern of the engine.
pub uninterp spec fn first_groups(pattern: Seq<char>, text: Seq<char>) -> Option<Seq<Seq<char>>>;

/// The characters of each string of an optional list.
pub open spec fn opt_lines(found: Option<Vec<String>>) -> Option<Seq<Seq<char>>> {
    match found {
        Some(lines) => Some(lines.deep_view()),
        None => None,
    }
}

/// Compiles `pattern` with `regex::Regex::new` and walks `text` with
/// `Regex::captures_iter`, keeping of each match what `Captures::get(1)`
/// matched (nothing, as the empty string, where the group took no part).
/// Claimed, not proved: the outcome is `first_groups` of the two texts, and
/// it is `None` exactly when compiling fails.
#[verifier::external_body]
pub(crate) fn capture_first_groups(pattern: &str, text: &str) -> (found: Option<Vec<String>>)
    ensures
        opt_lines(found) == first_groups(pattern@, text@),
{
    match regex::Regex::new(pattern) {
        Ok(re) => Some(
            re.captures_iter(text).map(
                |c| c.get(1).map_or(String::new(), |m| m.as_str().to_string()),
            ).collect(),
        ),
        Err(_) => None,
    }
}

} // verus!
