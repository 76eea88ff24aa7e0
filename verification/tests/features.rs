use spafe::features::{dct_plan, DctKind};
use spafe::features::centered_start;
use spafe::features::{
    autocorrelation_lags, check_filter_count, delta_tap, medium_time_window, smoothing_window, toeplitz,
};
use spafe::spfeats::fftfreq_index;
use spafe::SpafeError;

#[test]
fn filter_count_check() {
    assert_eq!(check_filter_count(24, 13), Ok(()));
    assert_eq!(check_filter_count(13, 13), Ok(()));
    assert_eq!(check_filter_count(12, 13), Err(SpafeError::FilterCount));
}

#[test]
fn medium_time_windows() {
    assert_eq!(medium_time_window(0, 2, 10), (0, 3, 5));
    assert_eq!(medium_time_window(5, 2, 10), (3, 8, 5));
    assert_eq!(medium_time_window(9, 2, 10), (7, 10, 5));
}

#[test]
fn smoothing_windows() {
    assert_eq!(smoothing_window(0, 4, 24, 24), (1, 4, 4));
    assert_eq!(smoothing_window(10, 4, 24, 24), (6, 14, 9));
    assert_eq!(smoothing_window(22, 4, 24, 24), (18, 24, 7));
    assert_eq!(smoothing_window(0, 0, 24, 0), (1, 0, 1));
}

#[test]
fn delta_taps_repeat_edges() {
    // Nine-point window over five columns.
    let taps: Vec<(isize, usize)> = (0..9).map(|k| delta_tap(9, 5, 0, k)).collect();
    assert_eq!(
        taps,
        vec![(4, 4), (3, 3), (2, 2), (1, 1), (0, 0), (-1, 0), (-2, 0), (-3, 0), (-4, 0)]
    );
    assert_eq!(taps.iter().map(|t| t.0).sum::<isize>(), 0);
    assert_eq!(delta_tap(9, 5, 4, 0), (4, 4));
    assert_eq!(delta_tap(9, 5, 4, 8), (-4, 0));
    assert_eq!(delta_tap(2, 3, 1, 0), (1, 2));
}

#[test]
fn toeplitz_of_autocorrelation() {
    let r = [4.0, 2.0, 1.0, 0.5];
    let m = toeplitz(&r, 3);
    assert_eq!(m, vec![vec![4.0, 2.0, 1.0], vec![2.0, 4.0, 2.0], vec![1.0, 2.0, 4.0]]);
    assert_eq!(toeplitz(&r, 0), Vec::<Vec<f64>>::new());
}

#[test]
fn autocorrelation_lags_from_center() {
    let full = [1.0, 2.0, 5.0, 2.0, 1.0];
    assert_eq!(autocorrelation_lags(&full, 3, 2, 0.0), vec![5.0, 2.0]);
    assert_eq!(autocorrelation_lags(&full, 3, 5, 0.0), vec![5.0, 2.0, 1.0, 0.0, 0.0]);
    assert_eq!(autocorrelation_lags(&[] as &[f64], 0, 3, 0.0), vec![0.0, 0.0, 0.0]);
}

#[test]
fn fft_frequency_indices() {
    let idx: Vec<usize> = (0..8).map(|i| fftfreq_index(8, i)).collect();
    assert_eq!(idx, vec![0, 1, 2, 3, 4, 3, 2, 1]);
    let idx: Vec<usize> = (0..5).map(|i| fftfreq_index(5, i)).collect();
    assert_eq!(idx, vec![0, 1, 2, 2, 1]);
}

#[test]
fn dct_plans() {
    assert_eq!(dct_plan(2, 13, 24), (DctKind::Two, 13));
    assert_eq!(dct_plan(1, 13, 4), (DctKind::One, 4));
    assert_eq!(dct_plan(3, 0, 4), (DctKind::Three, 0));
    assert_eq!(dct_plan(4, 5, 5), (DctKind::Four, 5));
    assert_eq!(dct_plan(7, 5, 5), (DctKind::Two, 5));
}

#[test]
fn centered_kernels() {
    assert_eq!(centered_start(256, 100), Some(78));
    assert_eq!(centered_start(256, 101), Some(77));
    assert_eq!(centered_start(256, 256), Some(0));
    assert_eq!(centered_start(256, 257), None);
}
