//! What the library has from the regex engine.
//!
//! The engine's compiled form of a pattern is not a value that contracts can speak of, so the
//! two functions here take the pattern as text and hand back text. Neither is proved: each
//! contract gives the engine's answer a name, and with it claims that the answer depends on the
//! texts alone. Everything the library does with an answer is proved for every answer.

use vstd::prelude::*;

verus! {

/// The words in which the regex engine refuses `pattern`, or `None` where it accepts it: the
/// error that `regex::Regex::new` returns for the pattern, taken by what its `Display` writes.
pub uninterp spec fn pattern_refusal(pattern: Seq<char>) -> Option<Seq<char>>;

/// What the capture groups of `pattern` hold at its first match in `haystack`: what
/// `regex::Regex::captures` returns on the regex that `regex::Regex::new` makes of `pattern`,
/// the groups in the order of `regex::Captures::iter`.
///
/// `None` where the engine refuses the pattern or nothing matches. Else the whole match first,
/// then one entry for each group in the order of the opening brackets, `None` for a group that
/// took no part in the match.
pub uninterp spec fn captured_groups(pattern: Seq<char>, haystack: Seq<char>) -> Option<
    Seq<Option<Seq<char>>>,
>;

/// A text that may be missing, as contracts see it.
pub open spec fn text_view(text: Option<String>) -> Option<Seq<char>> {
    match text {
        None => None,
        Some(text) => Some(text@),
    }
}

/// Groups as contracts see them: each text is a sequence of characters.
pub open spec fn groups_view(groups: Option<Vec<Option<String>>>) -> Option<Seq<Option<Seq<char>>>> {
    match groups {
        None => None,
        Some(texts) => Some(texts@.map_values(|text: Option<String>| text_view(text))),
    }
}

/// Hands `pattern` to `regex::Regex::new` and returns the engine's words where it refuses.
///
/// Not proved. The contract claims that the answer is `pattern_refusal` of the pattern, that is,
/// that it depends on the pattern alone.
#[verifier::external_body]
pub(crate) fn refusal(pattern: &str) -> (words: Option<String>)
    ensures
        text_view(words) == pattern_refusal(pattern@),
{
    regex::Regex::new(pattern).err().map(|error| error.to_string())
}

/// Compiles `pattern` with `regex::Regex::new`, searches `haystack` with
/// `regex::Regex::captures`, and copies out the text of each group that
/// `regex::Captures::iter` yields. The pattern is compiled at each call.
///
/// Not proved. The contract claims that the answer is `captured_groups` of the two texts, that
/// is, that it depends on them alone.
#[verifier::external_body]
pub(crate) fn capture_groups(pattern: &str, haystack: &str) -> (groups: Option<Vec<Option<String>>>)
    ensures
        groups_view(groups) == captured_groups(pattern@, haystack@),
{
    let regex = regex::Regex::new(pattern).ok()?;
    let captures = regex.captures(haystack)?;
    Some(captures.iter().map(|group| group.map(|found| found.as_str().to_owned())).collect())
}

} // verus!
