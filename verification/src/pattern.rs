//! Pattern matching at the cursor, delegated to the regex engine.

use vstd::prelude::*;

verus! {

/// The number of characters an anchored match of `pattern` covers at the start
/// of `text`, or `None` when the pattern does not match there (or is not a
/// valid pattern). A regex match is a function of the pattern and the text
/// alone.
pub uninterp spec fn pattern_prefix_len(pattern: Seq<char>, text: Seq<char>) -> Option<usize>;

/// Relies on `regex::Regex::new` and `regex::Regex::find`: anchoring the
/// pattern to the start of the haystack, a match is found there if and only if
/// the pattern matches a prefix of `text`, and how far it reaches depends on
/// the pattern and the text alone (the engine is deterministic). `Match::end`
/// is a byte offset within the haystack, so the matched prefix's character
/// count never exceeds the text's length. An invalid pattern matches nothing.
#[verifier::external_body]
pub(crate) fn regex_prefix_len(pattern: &str, text: &Vec<char>) -> (r: Option<usize>)
    ensures
        r == pattern_prefix_len(pattern@, text@),
        r matches Some(n) ==> n <= text@.len(),
{
    let haystack: String = text.iter().collect();
    let anchored = format!("^(?:{})", pattern);
    match regex::Regex::new(&anchored) {
        Ok(re) => re.find(&haystack).map(|m| haystack[..m.end()].chars().count()),
        Err(_) => None,
    }
}

/// Relies on `String`'s `FromIterator` over characters: collecting a sequence
/// of characters yields the string of exactly those characters.
#[verifier::external_body]
pub(crate) fn chars_to_string(v: &Vec<char>) -> (r: String)
    ensures
        r@ == v@,
{
    v.iter().collect()
}

} // verus!
