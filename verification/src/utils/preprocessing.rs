use vstd::prelude::*;

use crate::common::SpafeError;

verus! {

/// Whether a signal of `len` samples can be cut into frames of `stride_length`
/// samples every `stride_step` samples.
pub open spec fn frames_fit(len: int, stride_length: int, stride_step: int) -> bool {
    stride_length > 0 && stride_step > 0 && len >= stride_length
}

/// Number of frames of `stride_length` samples, one every `stride_step` samples,
/// that fit in `len` samples.
pub open spec fn frame_count(len: int, stride_length: int, stride_step: int) -> int {
    (len - stride_length) / stride_step + 1
}

/// Frame `r` is the slice of `stride_length` samples starting at `r * stride_step`.
pub open spec fn is_framing<T>(a: Seq<T>, stride_length: int, stride_step: int, frames: Seq<Vec<T>>) -> bool {
    &&& frames.len() == frame_count(a.len() as int, stride_length, stride_step)
    &&& forall|r: int| 0 <= r < frames.len() ==> (#[trigger] frames[r])@.len() == stride_length
    &&& forall|r: int, c: int|
        0 <= r < frames.len() && 0 <= c < stride_length ==> #[trigger] frames[r]@[c] == a[r
            * stride_step + c]
}

/// The last frame ends inside the signal.
proof fn lemma_frame_in_bounds(len: int, stride_length: int, stride_step: int, r: int, c: int)
    requires
        frames_fit(len, stride_length, stride_step),
        0 <= r < frame_count(len, stride_length, stride_step),
        0 <= c < stride_length,
    ensures
        0 <= r * stride_step + c < len,
        r * stride_step <= len - stride_length,
{
    let q = (len - stride_length) / stride_step;
    assert(r <= q);
    assert(q * stride_step <= len - stride_length) by (nonlinear_arith)
        requires
            stride_step > 0,
            len - stride_length >= 0,
            q == (len - stride_length) / stride_step,
    {
    }
    assert(r * stride_step <= q * stride_step) by (nonlinear_arith)
        requires
            r <= q,
            stride_step > 0,
    {
    }
    assert(r * stride_step >= 0) by (nonlinear_arith)
        requires
            r >= 0,
            stride_step > 0,
    {
    }
}

/// Split a one-dimensional signal into overlapping frames: frame `r` holds the
/// `stride_length` samples starting at `r * stride_step`, and frames are taken
/// while they fit in the signal.
pub fn stride_trick<T: Copy>(a: &[T], stride_length: usize, stride_step: usize) -> (r: Result<
    Vec<Vec<T>>,
    SpafeError,
>)
    ensures
        !frames_fit(a@.len() as int, stride_length as int, stride_step as int) ==> r == Err::<
            Vec<Vec<T>>,
            SpafeError,
        >(SpafeError::SignalTooShort),
        frames_fit(a@.len() as int, stride_length as int, stride_step as int) ==> (r matches Ok(
            frames,
        ) && is_framing(a@, stride_length as int, stride_step as int, frames@)),
{
    if stride_length == 0 || stride_step == 0 || a.len() < stride_length {
        return Err(SpafeError::SignalTooShort);
    }
    let n = a.len();
    let nrows = (n - stride_length) / stride_step + 1;
    let mut frames: Vec<Vec<T>> = Vec::with_capacity(nrows);
    let mut r: usize = 0;
    while r < nrows
        invariant
            n == a@.len(),
            frames_fit(a@.len() as int, stride_length as int, stride_step as int),
            nrows == frame_count(a@.len() as int, stride_length as int, stride_step as int),
            r <= nrows,
            frames@.len() == r,
            forall|i: int| 0 <= i < r ==> (#[trigger] frames@[i])@.len() == stride_length,
            forall|i: int, c: int|
                0 <= i < r && 0 <= c < stride_length ==> #[trigger] frames@[i]@[c] == a@[i
                    * stride_step + c],
        decreases nrows - r,
    {
        proof {
            lemma_frame_in_bounds(a@.len() as int, stride_length as int, stride_step as int, r as int, 0);
            assert((r as int) * (stride_step as int) + stride_length <= a@.len());
        }
        let start = r * stride_step;
        let mut frame: Vec<T> = Vec::with_capacity(stride_length);
        let mut c: usize = 0;
        while c < stride_length
            invariant
                n == a@.len(),
                start == r * stride_step,
                start + stride_length <= a@.len(),
                c <= stride_length,
                frame@.len() == c,
                forall|j: int| 0 <= j < c ==> #[trigger] frame@[j] == a@[start + j],
                forall|i: int, j: int|
                    0 <= i < r && 0 <= j < stride_length ==> #[trigger] frames@[i]@[j] == a@[i
                        * stride_step + j],
            decreases stride_length - c,
        {
            frame.push(a[start + c]);
            c = c + 1;
        }
        frames.push(frame);
        r = r + 1;
    }
    Ok(frames)
}

/// A signal that fits one frame yields at least one frame.
pub proof fn lemma_fitting_signal_has_frames(len: int, stride_length: int, stride_step: int)
    requires
        frames_fit(len, stride_length, stride_step),
    ensures
        frame_count(len, stride_length, stride_step) >= 1,
{
    assert((len - stride_length) / stride_step >= 0) by (nonlinear_arith)
        requires
            len - stride_length >= 0,
            stride_step > 0,
    {
    }
}

/// Consecutive frames overlap: sample `c + stride_step` of frame `r` is sample
/// `c` of frame `r + 1`.
pub proof fn lemma_frames_overlap<T>(
    a: Seq<T>,
    stride_length: int,
    stride_step: int,
    frames: Seq<Vec<T>>,
    r: int,
    c: int,
)
    requires
        is_framing(a, stride_length, stride_step, frames),
        0 <= r && r + 1 < frames.len(),
        0 <= c && c + stride_step < stride_length,
        stride_step > 0,
    ensures
        frames[r + 1]@[c] == frames[r]@[c + stride_step],
{
    assert((r + 1) * stride_step + c == r * stride_step + (c + stride_step)) by (nonlinear_arith);
    assert(frames[r + 1]@[c] == a[(r + 1) * stride_step + c]);
    assert(frames[r]@[c + stride_step] == a[r * stride_step + (c + stride_step)]);
}

/// Frames cover the signal up to the last full frame: fewer than `stride_step`
/// samples are left after it.
pub proof fn lemma_frames_leave_short_tail(len: int, stride_length: int, stride_step: int)
    requires
        frames_fit(len, stride_length, stride_step),
    ensures
        ({
            let last_end = (frame_count(len, stride_length, stride_step) - 1) * stride_step + stride_length;
            last_end <= len < last_end + stride_step
        }),
{
    let q = (len - stride_length) / stride_step;
    assert(len - stride_length == stride_step * q + (len - stride_length) % stride_step) by (nonlinear_arith)
        requires
            stride_step > 0,
            q == (len - stride_length) / stride_step,
    {
    }
    assert(q * stride_step == stride_step * q) by (nonlinear_arith);
}

} // verus!
