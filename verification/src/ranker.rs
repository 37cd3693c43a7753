//! The fuzzy ranker: given a candidate text and a query, it yields a relevance
//! score (higher is better) or reports that no plausible match exists.

use vstd::prelude::*;

verus! {

/// The score that the fuzzy matcher assigns to a candidate text for a query,
/// or `None` when it judges that no plausible subsequence match exists.  The
/// matcher is deterministic, so the score is a function of the two texts.
pub uninterp spec fn score_of(text: Seq<char>, query: Seq<char>) -> Option<i64>;

/// The score used for ranking: absence of a match counts as the weakest
/// score, zero, rather than as exclusion.
pub open spec fn score_or_zero(text: Seq<char>, query: Seq<char>) -> i64 {
    match score_of(text, query) {
        Some(s) => s,
        None => 0,
    }
}

/// Relies on `fuzzy_matcher::skim::SkimMatcherV2::fuzzy_match`, called on a
/// default-configured matcher: for a fixed configuration the returned score
/// depends on the candidate and the query alone (its thread-local caches only
/// reuse allocations, never results).
#[verifier::external_body]
pub(crate) fn fuzzy_score(text: &str, query: &str) -> (r: Option<i64>)
    ensures
        r == score_of(text@, query@),
{
    fuzzy_matcher::FuzzyMatcher::fuzzy_match(
        &fuzzy_matcher::skim::SkimMatcherV2::default(),
        text,
        query,
    )
}

/// The ranking score as the search uses it: the matcher's score, or zero when
/// the matcher reports no match.
pub fn ranking_score(text: &str, query: &str) -> (r: i64)
    ensures
        r == score_or_zero(text@, query@),
{
    match fuzzy_score(text, query) {
        Some(s) => s,
        None => 0,
    }
}

} // verus!
