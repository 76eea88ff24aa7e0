use spafe::cochleagram::hermitian_extension;
use spafe::cochleagram::{
    calculate_same_padding, check_cochleagram_input, check_subband_shapes, convolved_width,
    downsampling_geometry, erb_filter_layout, make_full_filter_set, zero_padded,
    DownsamplingGeometry, DownsamplingMode, EnvelopeMode, ErbFilterShape,
    DOWNSAMPLING_FACTOR_ERROR, FILTER_WIDTH_ERROR, RFFT_ONLY_ERROR, SAMPLE_FACTOR_EVEN_ERROR,
    SAMPLE_FACTOR_POSITIVE_ERROR, SIGNAL_SIZE_ERROR, SIGNAL_TOO_LONG_ERROR,
};
use spafe::SpafeError;

fn shape(n: usize, sample_factor: usize) -> ErbFilterShape {
    ErbFilterShape {
        n,
        sample_factor,
        full_filter: false,
        no_lowpass: false,
        no_highpass: false,
        strict: true,
    }
}

#[test]
fn erb_cos_filters_match_chcochleagram_shape() {
    let opts = shape(40, 4);
    let filters = erb_filter_layout(40_000, None, &opts, false).unwrap();
    assert_eq!((filters.n_kept, filters.filter_len), (171, 20_001));
    assert_eq!(filters.n_kept, 171);

    let padded = erb_filter_layout(40_000, Some(2), &opts, false).unwrap();
    assert_eq!((padded.n_kept, padded.filter_len), (171, 40_001));
}

#[test]
fn erb_layout_counts_filters() {
    let layout = erb_filter_layout(4096, None, &shape(8, 2), false).unwrap();
    assert_eq!(layout.padded_signal_size, 4096);
    assert_eq!(layout.n_freqs, 2048);
    assert_eq!(layout.n_bandpass, 17);
    assert_eq!(layout.n_columns, 21);
    assert_eq!(layout.n_kept, 21);
    assert_eq!(layout.first_column, 0);
    assert_eq!(layout.filter_len, 2049);
    assert!(!layout.clamp_high_lim);
}

#[test]
fn erb_layout_drops_lowpass_and_highpass() {
    let mut opts = shape(8, 2);
    opts.no_lowpass = true;
    opts.no_highpass = true;
    let layout = erb_filter_layout(100, Some(0), &opts, false).unwrap();
    assert_eq!(layout.padded_signal_size, 100);
    assert_eq!(layout.first_column, 2);
    assert_eq!(layout.n_kept, 17);
}

#[test]
fn erb_layout_full_filter_length() {
    let mut opts = shape(3, 1);
    opts.full_filter = true;
    assert_eq!(erb_filter_layout(9, None, &opts, false).unwrap().filter_len, 9);
    assert_eq!(erb_filter_layout(10, None, &opts, false).unwrap().filter_len, 10);
    assert_eq!(erb_filter_layout(0, None, &opts, false).unwrap().filter_len, 1);
}

#[test]
fn erb_layout_rejects_sample_factors() {
    assert_eq!(
        erb_filter_layout(100, None, &shape(4, 0), false),
        Err(SpafeError::InvalidParameter(SAMPLE_FACTOR_POSITIVE_ERROR))
    );
    assert_eq!(
        erb_filter_layout(100, None, &shape(4, 3), false),
        Err(SpafeError::InvalidParameter(SAMPLE_FACTOR_EVEN_ERROR))
    );
    let mut lax = shape(4, 3);
    lax.strict = false;
    assert_eq!(erb_filter_layout(100, None, &lax, false).unwrap().n_columns, 20);
}

#[test]
fn erb_layout_high_limit_above_nyquist() {
    assert_eq!(
        erb_filter_layout(100, None, &shape(4, 2), true),
        Err(SpafeError::HighFrequency)
    );
    let mut lax = shape(4, 2);
    lax.strict = false;
    assert!(erb_filter_layout(100, None, &lax, true).unwrap().clamp_high_lim);
}

#[test]
fn same_padding_of_kaiser_downsampler() {
    let padding = calculate_same_padding(40_000, 1001, 100, 1);
    assert_eq!(padding, (450, 451));
}

#[test]
fn same_padding_keeps_strided_length() {
    for (n, k, s) in [(10usize, 3usize, 2usize), (7, 5, 3), (40_000, 1001, 100), (1, 1, 1)] {
        let (left, right) = calculate_same_padding(n, k, s, 1);
        assert!(left <= right && right <= left + 1);
        assert_eq!(convolved_width(n + left + right, k, s), n.div_ceil(s));
    }
    assert_eq!(calculate_same_padding(10, 3, 2, 2), (1, 1));
    assert_eq!(calculate_same_padding(10, 4, 2, 3), (3, 3));
}

#[test]
fn same_padding_clamps_to_zero() {
    assert_eq!(calculate_same_padding(10, 1, 4, 1), (0, 0));
    assert_eq!(calculate_same_padding(10, 1, 4, 3), (0, 0));
    let (left, right) = calculate_same_padding(10, 1, 4, 1);
    assert_eq!(convolved_width(10 + left + right, 1, 4), 3);
}

#[test]
fn cochleagram_helpers_run() {
    let padding = calculate_same_padding(40_000, 1001, 100, 1);
    assert_eq!(padding, (450, 451));
}

#[test]
fn convolved_width_edges() {
    assert_eq!(convolved_width(10, 3, 2), 4);
    assert_eq!(convolved_width(2, 3, 1), 0);
    assert_eq!(convolved_width(10, 3, 0), 0);
    assert_eq!(convolved_width(3, 3, 5), 1);
}

#[test]
fn zero_padding_surrounds_row() {
    assert_eq!(zero_padded(&[1.5, 2.5], 0.0, 2, 1), vec![0.0, 0.0, 1.5, 2.5, 0.0]);
    assert_eq!(zero_padded::<i32>(&[], 0, 0, 0), Vec::<i32>::new());
}

#[test]
fn downsampling_geometry_modes() {
    let geometry = downsampling_geometry(16_000, 400, &DownsamplingMode::default()).unwrap();
    assert_eq!(
        geometry,
        DownsamplingGeometry { stride: 40, window_size: 1001, pad_left: 0, pad_right: 0 }
    );
    let sinc = DownsamplingMode::SincWithKaiserWindow { window_size: 129, padding: Some((3, 4)) };
    assert_eq!(
        downsampling_geometry(20_000, 200, &sinc).unwrap(),
        DownsamplingGeometry { stride: 100, window_size: 129, pad_left: 3, pad_right: 4 }
    );
    let hann = DownsamplingMode::HannPooling1d { window_size: 9, padding: 2, normalize: true };
    assert_eq!(
        downsampling_geometry(100, 50, &hann).unwrap(),
        DownsamplingGeometry { stride: 2, window_size: 9, pad_left: 2, pad_right: 2 }
    );
    assert_eq!(
        downsampling_geometry(100, 0, &hann),
        Err(SpafeError::InvalidParameter(DOWNSAMPLING_FACTOR_ERROR))
    );
    assert_eq!(
        downsampling_geometry(100, 30, &hann),
        Err(SpafeError::InvalidParameter(DOWNSAMPLING_FACTOR_ERROR))
    );
}

#[test]
fn full_filter_set_mirrors_rows() {
    // Three positive-frequency rows of two filters, for a signal of four samples.
    let filts = vec![vec![1, 10], vec![2, 20], vec![3, 30]];
    let full = make_full_filter_set(&filts, 2, 4);
    assert_eq!(full, vec![vec![1, 2, 3, 2], vec![10, 20, 30, 20]]);

    // Odd length: every bin above zero is mirrored.
    let filts = vec![vec![1], vec![2], vec![3]];
    assert_eq!(make_full_filter_set(&filts, 1, 5), vec![vec![1, 2, 3, 3, 2]]);

    let empty: Vec<Vec<u8>> = Vec::new();
    assert_eq!(make_full_filter_set(&empty, 3, 4), vec![Vec::<u8>::new(); 3]);
}

#[test]
fn cochleagram_input_checks() {
    assert_eq!(
        check_cochleagram_input(false, 10, 10),
        Err(SpafeError::InvalidParameter(RFFT_ONLY_ERROR))
    );
    assert_eq!(
        check_cochleagram_input(true, 9, 10),
        Err(SpafeError::InvalidParameter(SIGNAL_SIZE_ERROR))
    );
    assert_eq!(check_cochleagram_input(true, 10, 10), Ok(()));
    assert_eq!(
        check_subband_shapes(11, 10, 6),
        Err(SpafeError::InvalidParameter(SIGNAL_TOO_LONG_ERROR))
    );
    assert_eq!(
        check_subband_shapes(10, 10, 5),
        Err(SpafeError::InvalidParameter(FILTER_WIDTH_ERROR))
    );
    assert_eq!(check_subband_shapes(10, 10, 6), Ok(()));
}

#[test]
fn envelope_modes_are_distinct() {
    assert_ne!(EnvelopeMode::Hilbert, EnvelopeMode::AbsSubbands);
    assert_eq!(EnvelopeMode::RectifySubbands, EnvelopeMode::RectifySubbands);
}

#[test]
fn hermitian_extension_mirrors_conjugates() {
    // Even length 6: bins 0..=3, bins 1 and 2 mirrored to 5 and 4.
    let bins = [10, 11, 12, 13];
    let conj = [-10, -11, -12, -13];
    assert_eq!(hermitian_extension(&bins, &conj, 0, 6), vec![10, 11, 12, 13, -12, -11]);
    // Odd length 5: bins 0..=2, bins 1 and 2 mirrored to 4 and 3.
    assert_eq!(hermitian_extension(&bins[..3], &conj[..3], 0, 5), vec![10, 11, 12, -12, -11]);
    // Short input leaves zeros.
    assert_eq!(hermitian_extension(&bins[..2], &conj[..2], 0, 6), vec![10, 11, 0, 0, 0, 0]);
}

#[test]
fn cochleagram_pipeline_shapes() {
    let signal_size = 4096;
    let sr = 16_000;
    assert_eq!(check_cochleagram_input(true, signal_size, signal_size), Ok(()));
    let layout = erb_filter_layout(signal_size, None, &shape(8, 2), false).unwrap();
    assert_eq!(layout.n_kept, 21);
    assert_eq!(
        check_subband_shapes(signal_size, layout.padded_signal_size, layout.filter_len),
        Ok(())
    );
    let mode = DownsamplingMode::SincWithKaiserWindow {
        window_size: 129,
        padding: None,
    };
    let geometry = downsampling_geometry(sr, 400, &mode).unwrap();
    assert_eq!(geometry.stride, 40);
    let width = convolved_width(
        signal_size + geometry.pad_left + geometry.pad_right,
        geometry.window_size,
        geometry.stride,
    );
    assert_eq!(width, 100);
}

#[test]
fn subband_check_of_empty_padded_length() {
    assert_eq!(
        check_subband_shapes(3, 0, 1),
        Err(SpafeError::InvalidParameter(SIGNAL_TOO_LONG_ERROR))
    );
}
