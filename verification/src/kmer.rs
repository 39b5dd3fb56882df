//! Sliding-window k-mer extraction.

use vstd::prelude::*;

verus! {

/// Structural failure of the pipeline: the window size does not fit the
/// sequence (`k == 0` or `k` longer than the sequence).
#[derive(Clone, Copy, Debug, PartialEq, Eq, Structural)]
pub enum KmerError {
    InvalidWindowSize,
}

/// The sliding-window k-mers of `s`: the window of length `k` starting at
/// each index from `0` through `s.len() - k`, in order.
pub open spec fn kmers_of(s: Seq<char>, k: nat) -> Seq<Seq<char>>
    recommends
        1 <= k <= s.len(),
{
    Seq::new((s.len() - k + 1) as nat, |i: int| s.subrange(i, i + k))
}

/// The character sequences behind a sequence of strings.
pub open spec fn str_views(v: Seq<String>) -> Seq<Seq<char>> {
    v.map_values(|x: String| x@)
}

/// Cut `sequence` into its overlapping windows of length `k`.
///
/// Succeeds exactly when `1 <= k <= sequence.len()`, and then returns the
/// `n - k + 1` windows in sliding order; otherwise reports
/// `InvalidWindowSize` instead of underflowing.
pub fn extract(sequence: &str, k: usize) -> (r: Result<Vec<String>, KmerError>)
    ensures
        r is Ok <==> 1 <= k <= sequence@.len(),
        r is Err ==> r == Err::<Vec<String>, KmerError>(KmerError::InvalidWindowSize),
        r is Ok ==> str_views(r.unwrap()@) == kmers_of(sequence@, k as nat),
        r is Ok ==> r.unwrap()@.len() == sequence@.len() - k + 1,
        r is Ok ==> forall|j: int| 0 <= j < r.unwrap()@.len() ==> r.unwrap()@[j]@.len() == k,
{
    let n = sequence.unicode_len();
    if k == 0 || k > n {
        return Err(KmerError::InvalidWindowSize);
    }
    let mut kmers: Vec<String> = Vec::new();
    let mut i: usize = 0;
    while i <= n - k
        invariant
            1 <= k <= n,
            n == sequence@.len(),
            i <= n - k + 1,
            kmers@.len() == i,
            forall|j: int| 0 <= j < i ==> kmers@[j]@ == sequence@.subrange(j, j + k),
        decreases n - k + 1 - i,
    {
        let w = sequence.substring_char(i, i + k);
        kmers.push(w.to_owned());
        i = i + 1;
    }
    proof {
        assert(str_views(kmers@) =~~= kmers_of(sequence@, k as nat));
    }
    Ok(kmers)
}

/// Consecutive k-mers overlap in `k - 1` characters: dropping the first
/// character of k-mer `i` gives the same string as dropping the last
/// character of k-mer `i + 1`.
pub proof fn lemma_kmer_overlap(s: Seq<char>, k: nat, i: int)
    requires
        1 <= k <= s.len(),
        0 <= i < kmers_of(s, k).len() - 1,
    ensures
        kmers_of(s, k)[i].subrange(1, k as int) == kmers_of(s, k)[i + 1].subrange(
            0,
            k as int - 1,
        ),
{
    assert(kmers_of(s, k)[i].subrange(1, k as int) =~= kmers_of(s, k)[i + 1].subrange(
        0,
        k as int - 1,
    ));
}

} // verus!
