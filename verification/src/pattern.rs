//! Regular expressions, with which the repair heuristics cut header text
//! into entries.

use vstd::prelude::*;

verus! {

/// The successive non-overlapping matches of a regular expression in a
/// text, in the order in which they stand there; nothing where the pattern
/// is not a regular expression.
pub uninterp spec fn regex_matches(pattern: Seq<char>, text: Seq<char>) -> Option<Seq<Seq<char>>>;

/// What a sequence of strings holds.
pub open spec fn texts(strings: Seq<String>) -> Seq<Seq<char>> {
    strings.map_values(|s: String| s@)
}

/// Whether `part` stands somewhere in `whole`.
pub open spec fn occurs_in(part: Seq<char>, whole: Seq<char>) -> bool {
    exists|k: int|
        0 <= k && k + part.len() <= whole.len() && #[trigger] whole.subrange(k, k + part.len())
            == part
}

/// Compiles the pattern with `regex::Regex::new` and collects the text of
/// each match that `Regex::find_iter` yields for `text`.
///
/// Trusted: that the result is a function of the pattern and the text alone,
/// that it is `None` exactly where the pattern does not compile, and that
/// each match is a piece of the text, as `Match::as_str` documents.
#[verifier::external_body]
pub(crate) fn find_all(pattern: &str, text: &str) -> (r: Option<Vec<String>>)
    ensures
        match r {
            Some(found) => regex_matches(pattern@, text@) == Some(texts(found@)),
            None => regex_matches(pattern@, text@) is None,
        },
        r matches Some(found) ==> forall|i: int|
            0 <= i < found@.len() ==> occurs_in(#[trigger] found@[i]@, text@),
{
    match regex::Regex::new(pattern) {
        Ok(regex) => Some(regex.find_iter(text).map(|m| m.as_str().to_string()).collect()),
        Err(_) => None,
    }
}

} // verus!
