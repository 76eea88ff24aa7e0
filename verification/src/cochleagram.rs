use vstd::prelude::*;

use crate::common::SpafeError;

verus! {

/// Envelope extraction applied after cochlear subband filtering.
#[derive(Debug, Clone, Copy, PartialEq, Eq, Structural)]
pub enum EnvelopeMode {
    /// Build an analytic signal from positive-frequency bins and return its magnitude.
    Hilbert,
    /// Inverse-transform subbands and return absolute values.
    AbsSubbands,
    /// Inverse-transform subbands and half-wave rectify them.
    RectifySubbands,
}

/// Downsampling method for cochlear envelopes.
#[derive(Debug, Clone, Copy, PartialEq, Eq)]
pub enum DownsamplingMode {
    /// Sinc low-pass filter windowed by a Kaiser window.
    SincWithKaiserWindow {
        /// FIR window size.
        window_size: usize,
        /// Optional explicit left/right zero padding before convolution.
        padding: Option<(usize, usize)>,
    },
    /// Weighted average pooling with a Hann window.
    HannPooling1d {
        /// FIR window size.
        window_size: usize,
        /// Symmetric zero padding before convolution.
        padding: usize,
        /// Normalize the Hann weights to unit sum.
        normalize: bool,
    },
}

impl Default for DownsamplingMode {
    fn default() -> (r: Self)
        ensures
            r == (DownsamplingMode::SincWithKaiserWindow { window_size: 1001, padding: None }),
    {
        DownsamplingMode::SincWithKaiserWindow { window_size: 1001, padding: None }
    }
}

/// Quotient of `a` by `b`, rounded up.
pub open spec fn ceil_div(a: int, b: int) -> int {
    if a % b == 0 {
        a / b
    } else {
        a / b + 1
    }
}

/// Padding that the last strided window needs beyond the input, zero where it
/// already fits.
pub open spec fn same_padding_shortfall(input_size: int, kernel_size: int, stride: int) -> int {
    let need = (ceil_div(input_size, stride) - 1) * stride + kernel_size - input_size;
    if need > 0 { need } else { 0 }
}

/// Total "same" padding of a one-dimensional convolution, before it is split:
/// `max(0, (ceil(n / s) - 1) * s + k - n) * dilation`.
pub open spec fn same_padding_total(input_size: int, kernel_size: int, stride: int, dilation: int) -> int {
    same_padding_shortfall(input_size, kernel_size, stride) * dilation
}

/// The inputs on which the padding arithmetic stays within `usize`.
pub open spec fn same_padding_in_range(
    input_size: usize,
    kernel_size: usize,
    stride: usize,
    dilation: usize,
) -> bool {
    &&& stride > 0
    &&& input_size > 0
    &&& (ceil_div(input_size as int, stride as int) - 1) * stride + kernel_size <= usize::MAX
    &&& same_padding_total(input_size as int, kernel_size as int, stride as int, dilation as int)
        <= usize::MAX
}

/// Calculate TensorFlow-style "same" padding for a one-dimensional convolution:
/// the total padding, zero where the last window already fits, split into a
/// left half rounded down and the rest on the right.
pub fn calculate_same_padding(
    input_size: usize,
    kernel_size: usize,
    stride: usize,
    dilation: usize,
) -> (r: (usize, usize))
    requires
        same_padding_in_range(input_size, kernel_size, stride, dilation),
    ensures
        r.0 == same_padding_total(input_size as int, kernel_size as int, stride as int, dilation as int) / 2,
        r.0 + r.1 == same_padding_total(input_size as int, kernel_size as int, stride as int, dilation as int),
{
    assert(input_size % stride != 0 ==> stride > 1) by (nonlinear_arith)
        requires
            stride > 0,
    {
    }
    let q: usize = if input_size % stride == 0 {
        input_size / stride
    } else {
        assert(input_size / stride < input_size) by (nonlinear_arith)
            requires
                stride > 1,
                input_size > 0,
        {
        }
        input_size / stride + 1
    };
    assert(q == ceil_div(input_size as int, stride as int));
    assert(q >= 1) by (nonlinear_arith)
        requires
            stride > 0,
            input_size > 0,
            q == ceil_div(input_size as int, stride as int),
    {
    }
    assert((q - 1) * stride < input_size) by (nonlinear_arith)
        requires
            stride > 0,
            input_size > 0,
            q >= 1,
            q == ceil_div(input_size as int, stride as int),
    {
        assert(input_size == stride * (input_size / stride) + input_size % stride);
    }
    let base: usize = (q - 1) * stride;
    let span: usize = base + kernel_size;
    let need: usize = if span > input_size {
        span - input_size
    } else {
        0
    };
    assert(need == same_padding_shortfall(input_size as int, kernel_size as int, stride as int));
    let pad: usize = need * dilation;
    (pad / 2, pad - pad / 2)
}

/// Number of output columns of a strided "valid" convolution, zero when the
/// kernel is wider than the input or the stride is zero.
pub open spec fn spec_convolved_width(input_cols: int, kernel_len: int, stride: int) -> int {
    if input_cols < kernel_len || stride == 0 {
        0
    } else {
        (input_cols - kernel_len) / stride + 1
    }
}

/// Output width of a strided "valid" convolution over a row of `input_cols`
/// samples (the padding already included).
pub fn convolved_width(input_cols: usize, kernel_len: usize, stride: usize) -> (r: usize)
    requires
        spec_convolved_width(input_cols as int, kernel_len as int, stride as int) <= usize::MAX,
    ensures
        r == spec_convolved_width(input_cols as int, kernel_len as int, stride as int),
{
    if input_cols < kernel_len || stride == 0 {
        0
    } else {
        (input_cols - kernel_len) / stride + 1
    }
}

/// With "same" padding and no dilation, a valid convolution of stride `s` and a
/// non-empty kernel over `n` samples yields `ceil(n / s)` outputs.
pub proof fn lemma_same_padding_keeps_strided_length(input_size: usize, kernel_size: usize, stride: usize)
    requires
        same_padding_in_range(input_size, kernel_size, stride, 1),
        kernel_size > 0,
    ensures
        spec_convolved_width(
            input_size + same_padding_total(input_size as int, kernel_size as int, stride as int, 1),
            kernel_size as int,
            stride as int,
        ) == ceil_div(input_size as int, stride as int),
{
    let q = ceil_div(input_size as int, stride as int);
    let need = (q - 1) * stride + kernel_size - input_size;
    let total = same_padding_total(input_size as int, kernel_size as int, stride as int, 1);
    let shortfall = same_padding_shortfall(input_size as int, kernel_size as int, stride as int);
    assert(total == shortfall) by (nonlinear_arith)
        requires
            total == shortfall * 1,
    {
    }
    assert(q >= 1) by (nonlinear_arith)
        requires
            stride > 0,
            input_size > 0,
            q == ceil_div(input_size as int, stride as int),
    {
    }
    assert((q - 1) * stride < input_size && input_size <= q * stride) by (nonlinear_arith)
        requires
            stride > 0,
            input_size > 0,
            q >= 1,
            q == ceil_div(input_size as int, stride as int),
    {
        assert(input_size == stride * (input_size / stride) + input_size % stride);
    }
    if need > 0 {
        assert(((q - 1) * stride) / (stride as int) == q - 1) by (nonlinear_arith)
            requires
                stride > 0,
                q >= 1,
        {
        }
    } else {
        let d = input_size - kernel_size;
        assert(d / (stride as int) == q - 1) by (nonlinear_arith)
            requires
                stride > 0,
                q >= 1,
                (q - 1) * stride <= d,
                d < q * stride,
        {
        }
    }
}

/// The two halves of "same" padding differ by at most one, the larger on the right.
pub proof fn lemma_same_padding_balanced(input_size: usize, kernel_size: usize, stride: usize, dilation: usize)
    requires
        same_padding_in_range(input_size, kernel_size, stride, dilation),
    ensures
        ({
            let total = same_padding_total(input_size as int, kernel_size as int, stride as int, dilation as int);
            let left = total / 2;
            let right = total - left;
            left <= right <= left + 1
        }),
{
}

/// Stride and padding of envelope downsampling.
#[derive(Debug, Clone, Copy, PartialEq, Eq, Structural)]
pub struct DownsamplingGeometry {
    /// Samples of input per output sample.
    pub stride: usize,
    /// Length of the FIR kernel.
    pub window_size: usize,
    /// Zeros added before the input row.
    pub pad_left: usize,
    /// Zeros added after the input row.
    pub pad_right: usize,
}

/// The message of a downsampling rate that does not divide the sampling rate.
pub const DOWNSAMPLING_FACTOR_ERROR: &'static str = "downsampling requires an integer factor";

/// The geometry that a downsampling mode gives for a stride.
pub open spec fn spec_mode_geometry(stride: usize, mode: DownsamplingMode) -> DownsamplingGeometry {
    match mode {
        DownsamplingMode::SincWithKaiserWindow { window_size, padding } => {
            let p = match padding {
                Some(p) => p,
                None => (0usize, 0usize),
            };
            DownsamplingGeometry { stride, window_size, pad_left: p.0, pad_right: p.1 }
        },
        DownsamplingMode::HannPooling1d { window_size, padding, normalize } => DownsamplingGeometry {
            stride,
            window_size,
            pad_left: padding,
            pad_right: padding,
        },
    }
}

/// Check that envelopes at `sr` can be downsampled to `env_sr` by an integer
/// factor, and return the factor with the kernel size and padding of `mode`.
pub fn downsampling_geometry(sr: usize, env_sr: usize, mode: &DownsamplingMode) -> (r: Result<
    DownsamplingGeometry,
    SpafeError,
>)
    ensures
        (env_sr == 0 || sr % env_sr != 0) ==> r == Err::<DownsamplingGeometry, SpafeError>(
            SpafeError::InvalidParameter(DOWNSAMPLING_FACTOR_ERROR),
        ),
        (env_sr != 0 && sr % env_sr == 0) ==> r == Ok::<DownsamplingGeometry, SpafeError>(
            spec_mode_geometry((sr / env_sr) as usize, *mode),
        ),
{
    if env_sr == 0 || sr % env_sr != 0 {
        return Err(SpafeError::InvalidParameter(DOWNSAMPLING_FACTOR_ERROR));
    }
    let stride = sr / env_sr;
    match mode {
        DownsamplingMode::SincWithKaiserWindow { window_size, padding } => {
            let (pad_left, pad_right) = match padding {
                Some(p) => *p,
                None => (0usize, 0usize),
            };
            Ok(DownsamplingGeometry { stride, window_size: *window_size, pad_left, pad_right })
        },
        DownsamplingMode::HannPooling1d { window_size, padding, normalize } => Ok(
            DownsamplingGeometry {
                stride,
                window_size: *window_size,
                pad_left: *padding,
                pad_right: *padding,
            },
        ),
    }
}

/// A downsampling stride times the envelope rate gives the sampling rate back.
pub proof fn lemma_downsampling_stride_exact(sr: usize, env_sr: usize)
    requires
        env_sr != 0,
        sr % env_sr == 0,
    ensures
        (sr / env_sr) * env_sr == sr,
{
    assert(sr == env_sr * (sr / env_sr) + sr % env_sr) by (nonlinear_arith)
        requires
            env_sr != 0,
    {
    }
    assert((sr / env_sr) * env_sr == env_sr * (sr / env_sr)) by (nonlinear_arith);
}

/// A row with `left` copies of `zero` before it and `right` after it.
pub open spec fn spec_zero_padded<T>(row: Seq<T>, zero: T, left: int, right: int) -> Seq<T> {
    Seq::new((left + row.len() + right) as nat, |i: int|
        if left <= i < left + row.len() { row[i - left] } else { zero })
}

/// Surround a row with zeros, as convolution padding does.
pub fn zero_padded<T: Copy>(row: &[T], zero: T, left: usize, right: usize) -> (r: Vec<T>)
    requires
        left + row@.len() + right <= usize::MAX,
    ensures
        r@ == spec_zero_padded(row@, zero, left as int, right as int),
{
    let n = row.len();
    let total = left + n + right;
    let mut out: Vec<T> = Vec::with_capacity(total);
    let mut i: usize = 0;
    while i < total
        invariant
            n == row@.len(),
            total == left + n + right,
            i <= total,
            out@.len() == i,
            forall|j: int| 0 <= j < i ==> out@[j] == spec_zero_padded(row@, zero, left as int, right as int)[j],
        decreases total - i,
    {
        if left <= i && i < left + n {
            out.push(row[i - left]);
        } else {
            out.push(zero);
        }
        i = i + 1;
    }
    assert(out@ =~= spec_zero_padded(row@, zero, left as int, right as int));
    out
}

/// The integer options of ERB half-cosine filters: the floating-point
/// frequency limits are held by the caller.
#[derive(Debug, Clone, Copy, PartialEq, Eq, Structural)]
pub struct ErbFilterShape {
    /// Number of filters used to span the frequency range at standard sampling.
    pub n: usize,
    /// ERB oversampling factor.
    pub sample_factor: usize,
    /// Whether to return a full FFT filter, including negative-frequency bins.
    pub full_filter: bool,
    /// Drop lowpass filters from the generated filter bank.
    pub no_lowpass: bool,
    /// Drop highpass filters from the generated filter bank.
    pub no_highpass: bool,
    /// Reject odd sample factors and high limits above Nyquist.
    pub strict: bool,
}

/// Sizes and column ranges of an ERB half-cosine filter bank.
#[derive(Debug, Clone, Copy, PartialEq, Eq, Structural)]
pub struct ErbFilterLayout {
    /// Signal length including zero padding.
    pub padded_signal_size: usize,
    /// Index of the last positive-frequency bin; the grid has `n_freqs + 1` points.
    pub n_freqs: usize,
    /// Number of bandpass filters.
    pub n_bandpass: usize,
    /// Number of filters before lowpass or highpass filters are dropped.
    pub n_columns: usize,
    /// First filter kept (after dropped lowpass filters).
    pub first_column: usize,
    /// Number of filters kept, which is also the number of center frequencies.
    pub n_kept: usize,
    /// Length of each returned filter.
    pub filter_len: usize,
    /// Whether the high limit is replaced by the highest grid frequency.
    pub clamp_high_lim: bool,
}

/// The message of a zero sample factor.
pub const SAMPLE_FACTOR_POSITIVE_ERROR: &'static str = "sample_factor must be positive";

/// The message of an odd sample factor in strict mode.
pub const SAMPLE_FACTOR_EVEN_ERROR: &'static str = "sample_factor must be one or even";

/// Whether the sample factor passes the checks of the filter builder.
pub open spec fn sample_factor_accepted(sample_factor: usize, strict: bool) -> bool {
    sample_factor != 0 && !(sample_factor != 1 && sample_factor % 2 == 1 && strict)
}

/// The padding factor actually applied: at least one, one when absent.
pub open spec fn effective_pad_factor(pad_factor: Option<usize>) -> int {
    match pad_factor {
        Some(p) => if p >= 1 { p as int } else { 1 },
        None => 1,
    }
}

/// Rows of a full (two-sided) filter set built from `nrows` positive-frequency rows.
pub open spec fn mirror_end(nrows: int, signal_length: int) -> int {
    if signal_length % 2 == 0 {
        if nrows >= 1 { nrows - 1 } else { 0 }
    } else {
        nrows
    }
}

/// Number of rows of the two-sided filter set.
pub open spec fn full_rows(nrows: int, signal_length: int) -> int {
    nrows + if mirror_end(nrows, signal_length) >= 1 { mirror_end(nrows, signal_length) - 1 } else { 0 }
}

/// The positive-frequency row that row `r` of the two-sided filter set copies.
pub open spec fn full_source_row(nrows: int, signal_length: int, r: int) -> int {
    if r < nrows {
        r
    } else {
        mirror_end(nrows, signal_length) - 1 - (r - nrows)
    }
}

/// The layout that accepted options give.
pub open spec fn spec_erb_filter_layout(
    signal_size: usize,
    pad_factor: Option<usize>,
    shape: ErbFilterShape,
    high_lim_above_nyquist: bool,
) -> ErbFilterLayout {
    let sf = shape.sample_factor as int;
    let padded = effective_pad_factor(pad_factor) * signal_size;
    let n_freqs = padded / 2;
    let n_bandpass = sf * (shape.n + 1) - 1;
    let n_columns = n_bandpass + 2 * sf;
    let after_lowpass = if shape.no_lowpass { n_columns - sf } else { n_columns };
    let kept = if shape.no_highpass {
        if after_lowpass >= sf { after_lowpass - sf } else { 0 }
    } else {
        after_lowpass
    };
    ErbFilterLayout {
        padded_signal_size: padded as usize,
        n_freqs: n_freqs as usize,
        n_bandpass: n_bandpass as usize,
        n_columns: n_columns as usize,
        first_column: if shape.no_lowpass { sf as usize } else { 0 },
        n_kept: kept as usize,
        filter_len: (if shape.full_filter { full_rows(n_freqs + 1, padded) } else { n_freqs + 1 }) as usize,
        clamp_high_lim: high_lim_above_nyquist && !shape.strict,
    }
}

/// Check the integer options of an ERB half-cosine filter bank and compute its
/// sizes. `high_lim_above_nyquist` tells whether the requested high limit lies
/// above half the sampling rate.
pub fn erb_filter_layout(
    signal_size: usize,
    pad_factor: Option<usize>,
    shape: &ErbFilterShape,
    high_lim_above_nyquist: bool,
) -> (r: Result<ErbFilterLayout, SpafeError>)
    requires
        sample_factor_accepted(shape.sample_factor, shape.strict) ==> effective_pad_factor(pad_factor)
            * signal_size <= usize::MAX,
        sample_factor_accepted(shape.sample_factor, shape.strict) ==> shape.sample_factor * (shape.n + 3)
            <= usize::MAX,
    ensures
        shape.sample_factor == 0 ==> r == Err::<ErbFilterLayout, SpafeError>(
            SpafeError::InvalidParameter(SAMPLE_FACTOR_POSITIVE_ERROR),
        ),
        (shape.sample_factor != 0 && !sample_factor_accepted(shape.sample_factor, shape.strict))
            ==> r == Err::<ErbFilterLayout, SpafeError>(
            SpafeError::InvalidParameter(SAMPLE_FACTOR_EVEN_ERROR),
        ),
        (sample_factor_accepted(shape.sample_factor, shape.strict) && high_lim_above_nyquist
            && shape.strict) ==> r == Err::<ErbFilterLayout, SpafeError>(SpafeError::HighFrequency),
        (sample_factor_accepted(shape.sample_factor, shape.strict) && !(high_lim_above_nyquist
            && shape.strict)) ==> r == Ok::<ErbFilterLayout, SpafeError>(
            spec_erb_filter_layout(signal_size, pad_factor, *shape, high_lim_above_nyquist),
        ),
        r matches Ok(l) ==> (l.clamp_high_lim <==> high_lim_above_nyquist),
        r matches Ok(l) ==> l.n_columns == l.n_bandpass + 2 * shape.sample_factor
            && l.first_column + l.n_kept <= l.n_columns && l.padded_signal_size >= signal_size,
{
    let sf = shape.sample_factor;
    if sf == 0 {
        return Err(SpafeError::InvalidParameter(SAMPLE_FACTOR_POSITIVE_ERROR));
    }
    if sf != 1 && sf % 2 == 1 && shape.strict {
        return Err(SpafeError::InvalidParameter(SAMPLE_FACTOR_EVEN_ERROR));
    }
    let factor: usize = match pad_factor {
        Some(p) => if p >= 1 { p } else { 1 },
        None => 1,
    };
    let padded = factor * signal_size;
    let n_freqs = padded / 2;
    if high_lim_above_nyquist && shape.strict {
        return Err(SpafeError::HighFrequency);
    }
    assert(shape.n + 3 <= usize::MAX) by (nonlinear_arith)
        requires
            sf >= 1,
            sf * (shape.n + 3) <= usize::MAX,
    {
    }
    assert(sf * (shape.n + 1) + 2 * sf == sf * (shape.n + 3)) by (nonlinear_arith);
    assert(sf * (shape.n + 1) >= 1) by (nonlinear_arith)
        requires
            sf >= 1,
    {
    }
    let n_bandpass = sf * (shape.n + 1) - 1;
    let n_columns = n_bandpass + 2 * sf;
    let after_lowpass = if shape.no_lowpass {
        n_columns - sf
    } else {
        n_columns
    };
    let kept = if shape.no_highpass {
        after_lowpass.saturating_sub(sf)
    } else {
        after_lowpass
    };
    let filter_len = if shape.full_filter {
        if padded == 0 {
            1
        } else {
            padded
        }
    } else {
        n_freqs + 1
    };
    proof {
        lemma_full_rows_of_half_spectrum(padded as int);
        lemma_erb_layout_laws(signal_size, pad_factor, *shape, high_lim_above_nyquist);
    }
    Ok(ErbFilterLayout {
        padded_signal_size: padded,
        n_freqs,
        n_bandpass,
        n_columns,
        first_column: if shape.no_lowpass { sf } else { 0 },
        n_kept: kept,
        filter_len,
        clamp_high_lim: high_lim_above_nyquist && !shape.strict,
    })
}

/// Laws of an accepted ERB layout: the high limit is replaced only when it
/// lies above Nyquist (and always then, since strict mode rejects it), the
/// lowpass and highpass filters add `sample_factor` columns each around the
/// bandpass ones, the kept filters lie within them, dropping lowpass or
/// highpass filters removes `sample_factor` of them, and padding never
/// shortens the signal.
pub proof fn lemma_erb_layout_laws(
    signal_size: usize,
    pad_factor: Option<usize>,
    shape: ErbFilterShape,
    high_lim_above_nyquist: bool,
)
    requires
        sample_factor_accepted(shape.sample_factor, shape.strict),
        !(high_lim_above_nyquist && shape.strict),
        effective_pad_factor(pad_factor) * signal_size <= usize::MAX,
        shape.sample_factor * (shape.n + 3) <= usize::MAX,
    ensures
        ({
            let l = spec_erb_filter_layout(signal_size, pad_factor, shape, high_lim_above_nyquist);
            &&& l.clamp_high_lim <==> high_lim_above_nyquist
            &&& l.n_columns == l.n_bandpass + 2 * shape.sample_factor
            &&& l.first_column + l.n_kept <= l.n_columns
            &&& l.n_kept + (if shape.no_lowpass { shape.sample_factor as int } else { 0 }) + (if shape.no_highpass {
                shape.sample_factor as int
            } else {
                0
            }) == l.n_columns
            &&& l.padded_signal_size >= signal_size
            &&& !shape.full_filter ==> l.filter_len == l.padded_signal_size / 2 + 1
        }),
{
    let sf = shape.sample_factor as int;
    let p = effective_pad_factor(pad_factor);
    assert(p * signal_size >= signal_size) by (nonlinear_arith)
        requires
            p >= 1,
            signal_size >= 0,
    {
    }
    assert(sf * (shape.n + 1) >= sf) by (nonlinear_arith)
        requires
            sf >= 1,
            shape.n >= 0,
    {
    }
    assert(sf * (shape.n + 1) + 2 * sf == sf * (shape.n + 3)) by (nonlinear_arith);
}

/// A two-sided filter set built from the `L / 2 + 1` positive-frequency rows of
/// a length-`L` signal has `L` rows (one row for an empty signal).
pub proof fn lemma_full_rows_of_half_spectrum(signal_length: int)
    requires
        signal_length >= 0,
    ensures
        full_rows(signal_length / 2 + 1, signal_length) == if signal_length == 0 { 1 } else { signal_length },
{
}

/// Rows of the two-sided filter set mirror each other around the Nyquist bin:
/// for `0 < k < L`, rows `k` and `L - k` copy the same positive-frequency row.
pub proof fn lemma_full_filter_mirror(signal_length: int, k: int)
    requires
        signal_length >= 1,
        0 < k < signal_length,
    ensures
        full_source_row(signal_length / 2 + 1, signal_length, signal_length - k) == full_source_row(
            signal_length / 2 + 1,
            signal_length,
            k,
        ),
{
}

/// Build the two-sided filter set from positive-frequency filters (one row per
/// frequency bin, `ncols` filters), mirroring the bins above Nyquist, and return
/// it with one row per filter.
pub fn make_full_filter_set<T: Copy>(filts: &Vec<Vec<T>>, ncols: usize, signal_length: usize) -> (r: Vec<Vec<T>>)
    requires
        filts@.len() <= usize::MAX / 2,
        forall|i: int| 0 <= i < filts@.len() ==> (#[trigger] filts@[i])@.len() == ncols,
    ensures
        r@.len() == ncols,
        forall|c: int| 0 <= c < ncols ==> (#[trigger] r@[c])@.len() == full_rows(filts@.len() as int, signal_length as int),
        forall|c: int, i: int|
            0 <= c < ncols && 0 <= i < full_rows(filts@.len() as int, signal_length as int) ==> #[trigger] r@[c]@[i]
                == filts@[full_source_row(filts@.len() as int, signal_length as int, i)]@[c],
        (filts@.len() == signal_length / 2 + 1 && signal_length >= 1) ==> forall|c: int, k: int|
            0 <= c < ncols && 0 < k < signal_length ==> #[trigger] r@[c]@[signal_length - k] == r@[c]@[k],
{
    let nrows = filts.len();
    let neg_end: usize = if signal_length % 2 == 0 {
        if nrows >= 1 { nrows - 1 } else { 0 }
    } else {
        nrows
    };
    let extra: usize = if neg_end >= 1 { neg_end - 1 } else { 0 };
    let total = nrows + extra;
    assert(total == full_rows(nrows as int, signal_length as int));
    let mut out: Vec<Vec<T>> = Vec::with_capacity(ncols);
    let mut c: usize = 0;
    while c < ncols
        invariant
            nrows == filts@.len(),
            nrows <= usize::MAX / 2,
            forall|i: int| 0 <= i < filts@.len() ==> (#[trigger] filts@[i])@.len() == ncols,
            neg_end == mirror_end(nrows as int, signal_length as int),
            total == full_rows(nrows as int, signal_length as int),
            c <= ncols,
            out@.len() == c,
            forall|cc: int| 0 <= cc < c ==> (#[trigger] out@[cc])@.len() == total,
            forall|cc: int, i: int|
                0 <= cc < c && 0 <= i < total ==> #[trigger] out@[cc]@[i] == filts@[full_source_row(
                    nrows as int,
                    signal_length as int,
                    i,
                )]@[cc],
        decreases ncols - c,
    {
        let mut col: Vec<T> = Vec::with_capacity(total);
        let mut i: usize = 0;
        while i < total
            invariant
                nrows == filts@.len(),
                forall|ii: int| 0 <= ii < filts@.len() ==> (#[trigger] filts@[ii])@.len() == ncols,
                neg_end == mirror_end(nrows as int, signal_length as int),
                total == full_rows(nrows as int, signal_length as int),
                c < ncols,
                i <= total,
                col@.len() == i,
                forall|j: int| 0 <= j < i ==> #[trigger] col@[j] == filts@[full_source_row(
                    nrows as int,
                    signal_length as int,
                    j,
                )]@[c as int],
            decreases total - i,
        {
            let src: usize = if i < nrows {
                i
            } else {
                neg_end - 1 - (i - nrows)
            };
            assert(src == full_source_row(nrows as int, signal_length as int, i as int));
            col.push(filts[src][c]);
            i = i + 1;
        }
        out.push(col);
        c = c + 1;
    }
    proof {
        if filts@.len() == signal_length / 2 + 1 && signal_length >= 1 {
            assert forall|cc: int, k: int|
                0 <= cc < ncols && 0 < k < signal_length implies #[trigger] out@[cc]@[signal_length - k]
                == out@[cc]@[k] by {
                lemma_full_rows_of_half_spectrum(signal_length as int);
                lemma_full_filter_mirror(signal_length as int, k);
            }
        }
    }
    out
}

/// The message of a request for complex-FFT filters.
pub const RFFT_ONLY_ERROR: &'static str = "only use_rfft=true is supported";

/// The message of a signal whose length differs from the configured size.
pub const SIGNAL_SIZE_ERROR: &'static str = "signal length must match opts.signal_size";

/// The message of a signal longer than the padded size.
pub const SIGNAL_TOO_LONG_ERROR: &'static str = "signal is longer than the configured cochleagram size";

/// The message of filters whose width differs from the real FFT.
pub const FILTER_WIDTH_ERROR: &'static str = "filter width does not match RFFT size";

/// Check a cochleagram request: only real-FFT filters are supported, and the
/// signal must have the configured length.
pub fn check_cochleagram_input(use_rfft: bool, sig_len: usize, signal_size: usize) -> (r: Result<
    (),
    SpafeError,
>)
    ensures
        !use_rfft ==> r == Err::<(), SpafeError>(SpafeError::InvalidParameter(RFFT_ONLY_ERROR)),
        use_rfft && sig_len != signal_size ==> r == Err::<(), SpafeError>(
            SpafeError::InvalidParameter(SIGNAL_SIZE_ERROR),
        ),
        use_rfft && sig_len == signal_size ==> r == Ok::<(), SpafeError>(()),
{
    if !use_rfft {
        return Err(SpafeError::InvalidParameter(RFFT_ONLY_ERROR));
    }
    if sig_len != signal_size {
        return Err(SpafeError::InvalidParameter(SIGNAL_SIZE_ERROR));
    }
    Ok(())
}

/// Check that a signal fits the padded length and that the filters span the
/// `padded_signal_size / 2 + 1` bins of its real FFT. An empty signal of an
/// empty padded length has no real FFT and is left out.
pub fn check_subband_shapes(sig_len: usize, padded_signal_size: usize, filter_width: usize) -> (r:
    Result<(), SpafeError>)
    requires
        sig_len > padded_signal_size || padded_signal_size > 0,
    ensures
        sig_len > padded_signal_size ==> r == Err::<(), SpafeError>(
            SpafeError::InvalidParameter(SIGNAL_TOO_LONG_ERROR),
        ),
        sig_len <= padded_signal_size && filter_width != padded_signal_size / 2 + 1 ==> r == Err::<
            (),
            SpafeError,
        >(SpafeError::InvalidParameter(FILTER_WIDTH_ERROR)),
        sig_len <= padded_signal_size && filter_width == padded_signal_size / 2 + 1 ==> r == Ok::<
            (),
            SpafeError,
        >(()),
{
    if sig_len > padded_signal_size {
        return Err(SpafeError::InvalidParameter(SIGNAL_TOO_LONG_ERROR));
    }
    if padded_signal_size / 2 + 1 != filter_width {
        return Err(SpafeError::InvalidParameter(FILTER_WIDTH_ERROR));
    }
    Ok(())
}

/// Positive-frequency filters of an ERB layout span exactly the real FFT of the
/// padded signal, so the subband check accepts the bank that the layout
/// describes.
pub proof fn lemma_layout_matches_rfft(
    signal_size: usize,
    pad_factor: Option<usize>,
    shape: ErbFilterShape,
    high_lim_above_nyquist: bool,
)
    requires
        !shape.full_filter,
        effective_pad_factor(pad_factor) * signal_size < usize::MAX,
    ensures
        ({
            let layout = spec_erb_filter_layout(signal_size, pad_factor, shape, high_lim_above_nyquist);
            layout.filter_len == layout.padded_signal_size / 2 + 1
        }),
{
}

/// Number of bins above zero that the inverse real FFT mirrors: all bins but
/// the Nyquist bin for an even length, all bins for an odd one.
pub open spec fn mirror_limit(bins: int, signal_size: int) -> int {
    if signal_size % 2 == 0 {
        if bins >= 1 { bins - 1 } else { 0 }
    } else {
        bins
    }
}

/// Entry `i` of the two-sided spectrum built from one-sided `bins` and their
/// conjugates: a mirrored conjugate where one lands, else the bin, else zero.
pub open spec fn spec_hermitian_entry<T>(
    bins: Seq<T>,
    conjugates: Seq<T>,
    zero: T,
    signal_size: int,
    i: int,
) -> T {
    let j = signal_size - i;
    if 1 <= j < mirror_limit(bins.len() as int, signal_size) {
        conjugates[j]
    } else if i < bins.len() {
        bins[i]
    } else {
        zero
    }
}

/// Lay out a one-sided spectrum as the full spectrum of a real signal of
/// `signal_size` samples: bin `k` at index `k`, and the conjugate of bin `k`
/// at index `signal_size - k` for the bins that have a mirror image.
pub fn hermitian_extension<T: Copy>(bins: &[T], conjugates: &[T], zero: T, signal_size: usize) -> (r:
    Vec<T>)
    requires
        conjugates@.len() == bins@.len(),
        bins@.len() <= signal_size,
    ensures
        r@.len() == signal_size,
        forall|i: int|
            0 <= i < signal_size ==> #[trigger] r@[i] == spec_hermitian_entry(
                bins@,
                conjugates@,
                zero,
                signal_size as int,
                i,
            ),
{
    let len = bins.len();
    let last_mirror: usize = if signal_size % 2 == 0 {
        if len >= 1 { len - 1 } else { 0 }
    } else {
        len
    };
    let mut out: Vec<T> = Vec::with_capacity(signal_size);
    let mut i: usize = 0;
    while i < signal_size
        invariant
            len == bins@.len(),
            len == conjugates@.len(),
            len <= signal_size,
            last_mirror == mirror_limit(len as int, signal_size as int),
            last_mirror <= len,
            i <= signal_size,
            out@.len() == i,
            forall|k: int|
                0 <= k < i ==> #[trigger] out@[k] == spec_hermitian_entry(
                    bins@,
                    conjugates@,
                    zero,
                    signal_size as int,
                    k,
                ),
        decreases signal_size - i,
    {
        if i >= 1 && signal_size - i < last_mirror {
            out.push(conjugates[signal_size - i]);
        } else if i < len {
            out.push(bins[i]);
        } else {
            out.push(zero);
        }
        i = i + 1;
    }
    out
}

/// A full one-sided spectrum (`L / 2 + 1` bins) extends to one whose entries
/// `k` and `L - k` are bin `k` and its conjugate.
pub proof fn lemma_hermitian_mirror<T>(bins: Seq<T>, conjugates: Seq<T>, zero: T, signal_size: int, k: int)
    requires
        signal_size >= 1,
        bins.len() == signal_size / 2 + 1,
        conjugates.len() == bins.len(),
        0 < k < signal_size - signal_size / 2,
    ensures
        spec_hermitian_entry(bins, conjugates, zero, signal_size, k) == bins[k],
        spec_hermitian_entry(bins, conjugates, zero, signal_size, signal_size - k) == conjugates[k],
{
}

} // verus!
