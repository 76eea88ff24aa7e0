use vstd::prelude::*;

verus! {

/// Magnitude of the signed frequency index of FFT bin `i` of `n`: bins up to
/// `(n - 1) / 2` count up from zero, the rest count down from `n`.
pub open spec fn spec_fftfreq_index(n: int, i: int) -> int {
    if i <= (n - 1) / 2 {
        i
    } else {
        n - i
    }
}

/// The frequency index of FFT bin `i` of `n`, as a count of `fs / n` steps.
pub fn fftfreq_index(n: usize, i: usize) -> (r: usize)
    requires
        i < n,
    ensures
        r == spec_fftfreq_index(n as int, i as int),
        r <= n / 2,
{
    if i <= (n - 1) / 2 {
        i
    } else {
        n - i
    }
}

/// Bins `i` and `n - i` stand for the same absolute frequency.
pub proof fn lemma_fftfreq_mirror(n: int, i: int)
    requires
        0 < i < n,
    ensures
        spec_fftfreq_index(n, i) == spec_fftfreq_index(n, n - i),
{
}

} // verus!
