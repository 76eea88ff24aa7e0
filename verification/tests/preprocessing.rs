use spafe::utils::exceptions::{assert_function_availability, UNAVAILABLE_ERROR};
use spafe::utils::filters::{scale_fbank, scale_weight};
use spafe::utils::preprocessing::stride_trick;
use spafe::{Scale, SpafeError};

#[test]
fn stride_trick_frames_signal() {
    let sig: Vec<f64> = (0..10).map(|v| v as f64).collect();
    let frames = stride_trick(&sig, 4, 3).unwrap();
    assert_eq!(
        frames,
        vec![
            vec![0.0, 1.0, 2.0, 3.0],
            vec![3.0, 4.0, 5.0, 6.0],
            vec![6.0, 7.0, 8.0, 9.0],
        ]
    );
    let frames = stride_trick(&sig, 10, 1).unwrap();
    assert_eq!(frames.len(), 1);
}

#[test]
fn stride_trick_rejects_short_signals() {
    let sig = [1.0, 2.0, 3.0];
    assert_eq!(stride_trick(&sig, 4, 1), Err(SpafeError::SignalTooShort));
    assert_eq!(stride_trick(&sig, 0, 1), Err(SpafeError::SignalTooShort));
    assert_eq!(stride_trick(&sig, 2, 0), Err(SpafeError::SignalTooShort));
}

#[test]
fn stride_trick_frame_count_for_default_window() {
    // 16 kHz, 25 ms windows every 10 ms over one second.
    let sig = vec![0.0f64; 16_000];
    let frames = stride_trick(&sig, 400, 160).unwrap();
    assert_eq!(frames.len(), 98);
    assert!(frames.iter().all(|f| f.len() == 400));
}

#[test]
fn availability_check() {
    assert_eq!(assert_function_availability(true), Ok(()));
    assert_eq!(
        assert_function_availability(false),
        Err(SpafeError::InvalidParameter(UNAVAILABLE_ERROR))
    );
}

#[test]
fn scale_weights() {
    assert_eq!(scale_fbank(Scale::Ascendant, 4), vec![1, 2, 3, 4]);
    assert_eq!(scale_fbank(Scale::Descendant, 4), vec![4, 3, 2, 1]);
    assert_eq!(scale_fbank(Scale::Constant, 3), vec![3, 3, 3]);
    assert_eq!(scale_fbank(Scale::Constant, 0), Vec::<usize>::new());
    assert_eq!(scale_weight(Scale::Descendant, 24, 0), 24);
}
