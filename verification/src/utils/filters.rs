use vstd::prelude::*;

use crate::common::{Scale, spec_reversed_scale};

verus! {

/// Weight of filter `i` of `nfilts` under a scaling, as numerator over `nfilts`:
/// ascending weights grow as `(i + 1) / nfilts`, descending ones shrink as
/// `(nfilts - i) / nfilts`, constant weights are all one.
pub open spec fn spec_scale_weight(scale: Scale, nfilts: int, i: int) -> int {
    match scale {
        Scale::Ascendant => i + 1,
        Scale::Descendant => nfilts - i,
        Scale::Constant => nfilts,
    }
}

/// Numerator, over `nfilts`, of the scaling factor of filter `i`.
pub fn scale_weight(scale: Scale, nfilts: usize, i: usize) -> (r: usize)
    requires
        i < nfilts,
    ensures
        r == spec_scale_weight(scale, nfilts as int, i as int),
        1 <= r <= nfilts,
{
    match scale {
        Scale::Ascendant => i + 1,
        Scale::Descendant => nfilts - i,
        Scale::Constant => nfilts,
    }
}

/// Numerators of the scaling factors of all `nfilts` filters, each over `nfilts`.
pub fn scale_fbank(scale: Scale, nfilts: usize) -> (r: Vec<usize>)
    ensures
        r@.len() == nfilts,
        forall|i: int| 0 <= i < nfilts ==> #[trigger] r@[i] == spec_scale_weight(scale, nfilts as int, i),
{
    let mut out: Vec<usize> = Vec::with_capacity(nfilts);
    let mut i: usize = 0;
    while i < nfilts
        invariant
            i <= nfilts,
            out@.len() == i,
            forall|j: int| 0 <= j < i ==> #[trigger] out@[j] == spec_scale_weight(scale, nfilts as int, j),
        decreases nfilts - i,
    {
        out.push(scale_weight(scale, nfilts, i));
        i = i + 1;
    }
    out
}

/// Reversing the scaling reverses the weights: filter `i` under the reversed
/// scaling weighs what filter `nfilts - 1 - i` weighs under `scale`.
pub proof fn lemma_reversed_scale_mirrors_weights(scale: Scale, nfilts: int, i: int)
    requires
        0 <= i < nfilts,
    ensures
        spec_scale_weight(spec_reversed_scale(scale), nfilts, i) == spec_scale_weight(
            scale,
            nfilts,
            nfilts - 1 - i,
        ),
{
}

} // verus!
