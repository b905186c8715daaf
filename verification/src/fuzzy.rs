//! Fuzzy matching for the lister's search filter. Substring matching
//! elsewhere is exact; only the search box matches fuzzily.

use vstd::prelude::*;

verus! {

/// Whether the fuzzy matcher accepts `pattern` against `text`; what
/// `SkimMatcherV2` with its default configuration computes, a function of
/// the two character sequences alone.
pub uninterp spec fn fuzzy_matches(text: Seq<char>, pattern: Seq<char>) -> bool;

/// Relies on `fuzzy_matcher::skim::SkimMatcherV2::fuzzy_match` with the
/// default configuration: a deterministic score of the two strings.
#[verifier::external_body]
pub fn fuzzy_match(text: &str, pattern: &str) -> (r: bool)
    ensures
        r == fuzzy_matches(text@, pattern@),
{
    let matcher = fuzzy_matcher::skim::SkimMatcherV2::default();
    fuzzy_matcher::FuzzyMatcher::fuzzy_match(&matcher, text, pattern).is_some()
}

/// The score the fuzzy matcher assigns to `pattern` against `text`, taken
/// as zero when it does not match; a function of the two character
/// sequences alone.
pub uninterp spec fn fuzzy_score_of(text: Seq<char>, pattern: Seq<char>) -> i64;

/// Relies on `fuzzy_matcher::skim::SkimMatcherV2::fuzzy_match` with the
/// default configuration: the same deterministic computation as
/// `fuzzy_match`, so a non-match scores zero.
#[verifier::external_body]
pub fn fuzzy_score(text: &str, pattern: &str) -> (r: i64)
    ensures
        r == fuzzy_score_of(text@, pattern@),
        !fuzzy_matches(text@, pattern@) ==> r == 0,
{
    let matcher = fuzzy_matcher::skim::SkimMatcherV2::default();
    fuzzy_matcher::FuzzyMatcher::fuzzy_match(&matcher, text, pattern).unwrap_or(0)
}

} // verus!
