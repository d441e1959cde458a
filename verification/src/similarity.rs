//! Guessing which known name a misspelt one was meant to be.
//!
//! Similarity is the Jaro-Winkler similarity of `strsim`, an `f64` between 0.0 and 1.0. It is
//! carried here as the bit pattern of that `f64`: for non-negative numbers that are not NaN,
//! the bit patterns, read as unsigned integers, are ordered as the numbers are.

use vstd::prelude::*;

verus! {

/// The bit pattern of `strsim::jaro_winkler(a, b)`.
pub uninterp spec fn jaro_winkler_bits(a: Seq<char>, b: Seq<char>) -> u64;

/// The bit pattern of the `f64` 1.0.
pub const ONE_BITS: u64 = 0x3FF0_0000_0000_0000;

/// The bit pattern of the `f64` 0.8, the least similarity at which a name is suggested.
pub const THRESHOLD_BITS: u64 = 0x3FE9_9999_9999_999A;

/// `strsim::jaro_winkler(a, b)`, as the bit pattern of the `f64` it returns. The crate computes
/// it from the characters of the two texts alone; its value lies between 0.0 and 1.0 and is
/// never NaN or negative zero, so the pattern is at most that of 1.0.
#[verifier::external_body]
fn similarity_bits(a: &str, b: &str) -> (r: u64)
    ensures
        r == jaro_winkler_bits(a@, b@),
        r <= ONE_BITS,
{
    strsim::jaro_winkler(a, b).to_bits()
}

/// The similarity of `actual` to each candidate, in order.
pub open spec fn scores_of(actual: Seq<char>, candidates: Seq<Seq<char>>) -> Seq<u64> {
    candidates.map_values(|c: Seq<char>| jaro_winkler_bits(actual, c))
}

/// Among the first `n` scores, the index of the greatest one that reaches the threshold; of
/// equal greatest scores, the last.
pub open spec fn best_match(scores: Seq<u64>, n: int) -> Option<int>
    decreases n,
{
    if n <= 0 {
        None
    } else {
        let prev = best_match(scores, n - 1);
        let s = scores[n - 1];
        if s >= THRESHOLD_BITS && match prev {
            None => true,
            Some(j) => scores[j] <= s,
        } {
            Some(n - 1)
        } else {
            prev
        }
    }
}

/// The index of the candidate meant: the best of all scores.
pub open spec fn meant_index(scores: Seq<u64>) -> Option<int> {
    best_match(scores, scores.len() as int)
}

proof fn lemma_best_match_range(scores: Seq<u64>, n: int)
    requires
        n <= scores.len(),
    ensures
        best_match(scores, n) matches Some(i) ==> 0 <= i < n && scores[i] >= THRESHOLD_BITS,
    decreases n,
{
    if n > 0 {
        lemma_best_match_range(scores, n - 1);
    }
}

/// Picks the candidate meant from the scores: the last of the greatest scores that reach the
/// threshold, as `Iterator::max_by` picks it after the others are filtered out.
pub fn pick_best(scores: &[u64]) -> (r: Option<usize>)
    ensures
        match r {
            Some(i) => meant_index(scores@) == Some(i as int) && i < scores@.len(),
            None => meant_index(scores@) is None,
        },
{
    let mut best: Option<usize> = None;
    let mut i: usize = 0;
    while i < scores.len()
        invariant
            i <= scores@.len(),
            match best {
                Some(j) => best_match(scores@, i as int) == Some(j as int),
                None => best_match(scores@, i as int) is None,
            },
        decreases scores@.len() - i,
    {
        proof {
            lemma_best_match_range(scores@, i as int);
        }
        let s = scores[i];
        if s >= THRESHOLD_BITS {
            match best {
                None => {
                    best = Some(i);
                },
                Some(j) => {
                    if scores[j] <= s {
                        best = Some(i);
                    }
                },
            }
        }
        i = i + 1;
    }
    proof {
        lemma_best_match_range(scores@, scores@.len() as int);
    }
    best
}

/// The candidate that `actual` was most likely meant to be, if any is similar enough.
pub fn meant<'a>(actual: &str, candidates: &[&'a str]) -> (r: Option<&'a str>)
    ensures
        match meant_index(scores_of(actual@, candidates@.map_values(|c: &str| c@))) {
            Some(i) => 0 <= i < candidates@.len() && r == Some(candidates@[i]),
            None => r is None,
        },
{
    let ghost cands = candidates@.map_values(|c: &str| c@);
    let mut scores: Vec<u64> = Vec::new();
    let mut i: usize = 0;
    while i < candidates.len()
        invariant
            i <= candidates@.len(),
            cands == candidates@.map_values(|c: &str| c@),
            scores@ == scores_of(actual@, cands).take(i as int),
        decreases candidates@.len() - i,
    {
        let s = similarity_bits(actual, candidates[i]);
        scores.push(s);
        i = i + 1;
        assert(scores@ =~= scores_of(actual@, cands).take(i as int));
    }
    assert(scores@ =~= scores_of(actual@, cands));
    match pick_best(scores.as_slice()) {
        Some(k) => Some(candidates[k]),
        None => None,
    }
}

} // verus!
