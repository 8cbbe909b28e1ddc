//! Layout of the half spectrum of a real series.
//!
//! The transform of a real series of `n` samples is conjugate symmetric, so
//! only its first `n / 2 + 1` bins are kept: bin 0 first, the bin at or next
//! to the Nyquist frequency last.

use vstd::prelude::*;

verus! {

/// Number of bins kept of the transform of a real series of `n` samples.
pub open spec fn half_len(n: nat) -> nat {
    n / 2 + 1
}

/// Number of bins in the half spectrum of a series of `n` samples.
pub fn spectrum_len(n: usize) -> (len: usize)
    ensures
        len == half_len(n as nat),
{
    n / 2 + 1
}

/// Tells whether a half spectrum of `bins` bins can belong to a series of `n`
/// samples.
pub fn is_spectrum_of(bins: usize, n: usize) -> (b: bool)
    ensures
        b == (bins == half_len(n as nat)),
{
    bins == spectrum_len(n)
}

/// An even length and the odd one after it share one number of bins, so a
/// half spectrum alone does not say how long its series was.
pub proof fn lemma_half_len_of_pair(k: nat)
    ensures
        half_len(2 * k) == k + 1,
        half_len(2 * k + 1) == k + 1,
{
}

} // verus!
