use vstd::prelude::*;

use crate::common::SpafeError;

verus! {

/// Cepstral extractors need at least as many filters as coefficients.
pub fn check_filter_count(nfilts: usize, num_ceps: usize) -> (r: Result<(), SpafeError>)
    ensures
        nfilts < num_ceps ==> r == Err::<(), SpafeError>(SpafeError::FilterCount),
        nfilts >= num_ceps ==> r == Ok::<(), SpafeError>(()),
{
    if nfilts < num_ceps {
        Err(SpafeError::FilterCount)
    } else {
        Ok(())
    }
}

/// Options that pass the filter-count check keep every requested cepstral
/// coefficient: the DCT of a row of `nfilts` filter energies keeps `num_ceps`.
pub proof fn lemma_accepted_filter_count_keeps_all_ceps(nfilts: usize, num_ceps: usize)
    requires
        nfilts >= num_ceps,
    ensures
        (if num_ceps <= nfilts { num_ceps } else { nfilts }) == num_ceps,
{
}

/// Rows `[start, end)` averaged for row `m` of the medium-time power, and the
/// divisor `2 * m_window + 1` of the average.
pub fn medium_time_window(m: usize, m_window: usize, nrows: usize) -> (r: (usize, usize, usize))
    requires
        m < nrows,
        2 * m_window + 1 <= usize::MAX,
        m + m_window + 1 <= usize::MAX,
    ensures
        r.0 == if m >= m_window { m - m_window } else { 0 },
        r.1 == if m + m_window + 1 <= nrows { m + m_window + 1 } else { nrows as int },
        r.2 == 2 * m_window + 1,
        r.0 <= m < r.1 <= nrows,
        r.1 - r.0 <= r.2,
{
    let start = m.saturating_sub(m_window);
    let wide = m + m_window + 1;
    let end = if wide <= nrows {
        wide
    } else {
        nrows
    };
    (start, end, 2 * m_window + 1)
}

/// Channels `[l1, l2)` summed for channel `l` of the spectral weight smoothing,
/// and the width that divides the sum.
pub fn smoothing_window(l: usize, n: usize, nfilts: usize, ncols: usize) -> (r: (usize, usize, usize))
    requires
        l + n <= usize::MAX,
    ensures
        r.0 == if l >= n + 1 { l - n } else { 1 },
        r.1 == {
            let a = if l + n <= nfilts { l + n } else { nfilts as int };
            if a <= ncols { a } else { ncols as int }
        },
        r.2 == if r.1 >= r.0 { r.1 - r.0 + 1 } else { 1 },
        r.2 >= 1,
        r.1 <= ncols,
{
    let low = l.saturating_sub(n);
    let l1 = if low >= 1 {
        low
    } else {
        1
    };
    let sum = l + n;
    let a = if sum <= nfilts {
        sum
    } else {
        nfilts
    };
    let l2 = if a <= ncols {
        a
    } else {
        ncols
    };
    let diff = l2.saturating_sub(l1);
    let width = if diff + 1 >= 1 {
        diff + 1
    } else {
        1
    };
    (l1, l2, width)
}

/// Weight of tap `k` of a `w`-point delta window.
pub open spec fn delta_weight(w: int, k: int) -> int {
    w / 2 - k
}

/// Column read by tap `k` of the delta at column `c`, with the first and last
/// columns repeated beyond the edges.
pub open spec fn delta_source(w: int, ncols: int, c: int, k: int) -> int {
    let shifted = c + w / 2 - k;
    if shifted < 0 {
        0
    } else if shifted >= ncols {
        ncols - 1
    } else {
        shifted
    }
}

/// Weight and source column of tap `k` of the `w`-point delta at column `c` of
/// a row of `ncols` values.
pub fn delta_tap(w: usize, ncols: usize, c: usize, k: usize) -> (r: (isize, usize))
    requires
        c < ncols,
        k < w,
        c + w <= usize::MAX,
        w <= isize::MAX,
    ensures
        r.0 == delta_weight(w as int, k as int),
        r.1 == delta_source(w as int, ncols as int, c as int, k as int),
        r.1 < ncols,
{
    let hlen = w / 2;
    let coeff = hlen as isize - k as isize;
    let padded_idx = c + 2 * hlen - k;
    let src = if padded_idx < hlen {
        0
    } else if padded_idx - hlen >= ncols {
        ncols - 1
    } else {
        padded_idx - hlen
    };
    (coeff, src)
}

/// Sum of the weights of the first `k` taps of a `w`-point delta window.
pub open spec fn delta_weight_sum(w: int, k: int) -> int
    decreases k,
{
    if k <= 0 {
        0
    } else {
        delta_weight_sum(w, k - 1) + delta_weight(w, k - 1)
    }
}

proof fn lemma_delta_weight_sum_closed(w: int, k: int)
    requires
        k >= 0,
    ensures
        2 * delta_weight_sum(w, k) == 2 * k * (w / 2) - k * (k - 1),
    decreases k,
{
    if k > 0 {
        lemma_delta_weight_sum_closed(w, k - 1);
        let h = w / 2;
        assert(delta_weight_sum(w, k) == delta_weight_sum(w, k - 1) + (h - (k - 1)));
        assert(2 * k * h - k * (k - 1) == 2 * (k - 1) * h - (k - 1) * (k - 2) + 2 * (h - (k - 1)))
            by (nonlinear_arith);
    } else {
        assert(2 * k * (w / 2) - k * (k - 1) == 0) by (nonlinear_arith)
            requires
                k == 0,
        {
        }
    }
}

/// The weights of an odd delta window sum to zero, so the deltas of a constant
/// row are zero.
pub proof fn lemma_odd_delta_weights_cancel(w: int)
    requires
        w >= 1,
        w % 2 == 1,
    ensures
        delta_weight_sum(w, w) == 0,
{
    lemma_delta_weight_sum_closed(w, w);
    let h = w / 2;
    assert(w == 2 * h + 1);
    assert(2 * w * h - w * (w - 1) == 0) by (nonlinear_arith)
        requires
            w == 2 * h + 1,
    {
    }
}

/// Number of autocorrelation lags, of the `p` asked for, that a frame of
/// `frame_len` samples has.
pub open spec fn lags_available(frame_len: int, p: int) -> int {
    if p <= frame_len { p } else { frame_len }
}

/// Lags `0..p` of the full autocorrelation of a frame of `frame_len` samples,
/// whose lag zero sits at index `frame_len - 1`; lags beyond the frame are
/// `zero`.
pub fn autocorrelation_lags<T: Copy>(auto_corr: &[T], frame_len: usize, p: usize, zero: T) -> (r: Vec<T>)
    requires
        lags_available(frame_len as int, p as int) > 0 ==> frame_len - 1 + lags_available(
            frame_len as int,
            p as int,
        ) <= auto_corr@.len(),
    ensures
        r@.len() == p,
        forall|i: int|
            0 <= i < p ==> #[trigger] r@[i] == if i < frame_len {
                auto_corr@[frame_len - 1 + i]
            } else {
                zero
            },
{
    let nx = if p <= frame_len {
        p
    } else {
        frame_len
    };
    let total = auto_corr.len();
    let mut out: Vec<T> = Vec::with_capacity(p);
    let mut i: usize = 0;
    while i < p
        invariant
            total == auto_corr@.len(),
            nx == lags_available(frame_len as int, p as int),
            nx > 0 ==> frame_len - 1 + nx <= auto_corr@.len(),
            i <= p,
            out@.len() == i,
            forall|j: int|
                0 <= j < i ==> #[trigger] out@[j] == if j < frame_len {
                    auto_corr@[frame_len - 1 + j]
                } else {
                    zero
                },
        decreases p - i,
    {
        if i < nx {
            out.push(auto_corr[frame_len - 1 + i]);
        } else {
            out.push(zero);
        }
        i = i + 1;
    }
    out
}

/// Distance between two indices.
pub open spec fn index_distance(i: int, j: int) -> int {
    if i >= j { i - j } else { j - i }
}

/// The `order`-by-`order` Toeplitz matrix of the autocorrelation `r`: entry
/// `(i, j)` is `r[|i - j|]`, the system that linear prediction solves.
pub fn toeplitz<T: Copy>(r: &[T], order: usize) -> (m: Vec<Vec<T>>)
    requires
        order <= r@.len(),
    ensures
        m@.len() == order,
        forall|i: int| 0 <= i < order ==> (#[trigger] m@[i])@.len() == order,
        forall|i: int, j: int|
            0 <= i < order && 0 <= j < order ==> #[trigger] m@[i]@[j] == r@[index_distance(i, j)],
{
    let mut out: Vec<Vec<T>> = Vec::with_capacity(order);
    let mut i: usize = 0;
    while i < order
        invariant
            order <= r@.len(),
            i <= order,
            out@.len() == i,
            forall|a: int| 0 <= a < i ==> (#[trigger] out@[a])@.len() == order,
            forall|a: int, b: int|
                0 <= a < i && 0 <= b < order ==> #[trigger] out@[a]@[b] == r@[index_distance(a, b)],
        decreases order - i,
    {
        let mut row: Vec<T> = Vec::with_capacity(order);
        let mut j: usize = 0;
        while j < order
            invariant
                order <= r@.len(),
                i < order,
                j <= order,
                row@.len() == j,
                forall|b: int| 0 <= b < j ==> #[trigger] row@[b] == r@[index_distance(i as int, b)],
            decreases order - j,
        {
            let d = if i >= j {
                i - j
            } else {
                j - i
            };
            row.push(r[d]);
            j = j + 1;
        }
        out.push(row);
        i = i + 1;
    }
    out
}

/// The prediction system is symmetric: entry `(i, j)` equals entry `(j, i)`.
pub proof fn lemma_toeplitz_symmetric<T>(m: Seq<Vec<T>>, r: Seq<T>, order: int, i: int, j: int)
    requires
        m.len() == order,
        forall|a: int| 0 <= a < order ==> (#[trigger] m[a])@.len() == order,
        forall|a: int, b: int| 0 <= a < order && 0 <= b < order ==> #[trigger] m[a]@[b] == r[index_distance(a, b)],
        0 <= i < order,
        0 <= j < order,
    ensures
        m[i]@[j] == m[j]@[i],
{
    assert(m[i]@[j] == r[index_distance(i, j)]);
    assert(m[j]@[i] == r[index_distance(j, i)]);
}

/// Discrete cosine transform variants.
#[derive(Debug, Clone, Copy, PartialEq, Eq, Structural)]
pub enum DctKind {
    /// Type I.
    One,
    /// Type II, the default.
    Two,
    /// Type III.
    Three,
    /// Type IV.
    Four,
}

/// The DCT variant that a type number selects: 1, 3 and 4 name their type,
/// every other number selects type II.
pub open spec fn spec_dct_kind(dct_type: usize) -> DctKind {
    if dct_type == 1 {
        DctKind::One
    } else if dct_type == 3 {
        DctKind::Three
    } else if dct_type == 4 {
        DctKind::Four
    } else {
        DctKind::Two
    }
}

/// The DCT variant and the number of coefficients kept when `out_cols`
/// coefficients are asked of rows of `cols` values.
pub fn dct_plan(dct_type: usize, out_cols: usize, cols: usize) -> (r: (DctKind, usize))
    ensures
        r.0 == spec_dct_kind(dct_type),
        r.1 == if out_cols <= cols { out_cols } else { cols },
{
    let kind = if dct_type == 1 {
        DctKind::One
    } else if dct_type == 3 {
        DctKind::Three
    } else if dct_type == 4 {
        DctKind::Four
    } else {
        DctKind::Two
    };
    let keep = if out_cols <= cols {
        out_cols
    } else {
        cols
    };
    (kind, keep)
}

/// Offset at which a kernel of `nk` samples is centered in an `nfft`-sample
/// frame, or `None` when it does not fit.
pub fn centered_start(nfft: usize, nk: usize) -> (r: Option<usize>)
    ensures
        nk > nfft ==> r == None::<usize>,
        nk <= nfft ==> r == Some(((nfft - nk) / 2) as usize),
        r matches Some(s) ==> s + nk <= nfft && (nfft - nk - s) - s <= 1,
{
    if nk <= nfft {
        Some((nfft - nk) / 2)
    } else {
        None
    }
}

} // verus!
