use spafe::cochleagram::{DownsamplingMode, EnvelopeMode};
use spafe::names::{
    parse_compression, parse_downsampling, parse_envelope, CompressionKind,
    COMPRESSION_NAME_ERROR, DOWNSAMPLING_NAME_ERROR, ENVELOPE_NAME_ERROR,
};
use spafe::fbanks::{filter_spacing, FilterSpacing};
use spafe::names::same_text;
use spafe::utils::vis::{tick_scale, TickScale};
use spafe::common::reversed_scale;
use spafe::names::{
    lower_char, matches_lowercase, parse_bark, parse_erb, parse_mel, parse_normalization, parse_scale,
    parse_window_type, BARK_NAME_ERROR, ERB_NAME_ERROR, MEL_NAME_ERROR, NORMALIZATION_NAME_ERROR,
    SCALE_NAME_ERROR, WINDOW_NAME_ERROR,
};
use spafe::{
    BarkConversionApproach, ErbConversionApproach, MelConversionApproach, Normalization, Scale,
    SpafeError, WindowType,
};

#[test]
fn scale_names() {
    assert_eq!(parse_scale("Ascendant"), Ok(Scale::Ascendant));
    assert_eq!(parse_scale("ASC"), Ok(Scale::Ascendant));
    assert_eq!(parse_scale("desc"), Ok(Scale::Descendant));
    assert_eq!(parse_scale("constant"), Ok(Scale::Constant));
    assert_eq!(parse_scale("Const"), Ok(Scale::Constant));
    assert_eq!(parse_scale("flat"), Err(SpafeError::InvalidParameter(SCALE_NAME_ERROR)));
    assert_eq!(parse_scale(""), Err(SpafeError::InvalidParameter(SCALE_NAME_ERROR)));
}

#[test]
fn window_names() {
    assert_eq!(parse_window_type("HANN"), Ok(WindowType::Hanning));
    assert_eq!(parse_window_type("hanning"), Ok(WindowType::Hanning));
    assert_eq!(parse_window_type("Bartlett"), Ok(WindowType::Bartlet));
    assert_eq!(parse_window_type("bartlet"), Ok(WindowType::Bartlet));
    assert_eq!(parse_window_type("kaiser"), Ok(WindowType::Kaiser));
    assert_eq!(parse_window_type("Blackman"), Ok(WindowType::Blackman));
    assert_eq!(parse_window_type("hamming"), Ok(WindowType::Hamming));
    assert_eq!(
        parse_window_type("hammingg"),
        Err(SpafeError::InvalidParameter(WINDOW_NAME_ERROR))
    );
}

#[test]
fn normalization_names() {
    assert_eq!(parse_normalization(None), Ok(None));
    assert_eq!(parse_normalization(Some("None")), Ok(None));
    assert_eq!(parse_normalization(Some("MVN")), Ok(Some(Normalization::MeanVariance)));
    assert_eq!(
        parse_normalization(Some("mean_subtraction")),
        Ok(Some(Normalization::MeanSubtraction))
    );
    assert_eq!(parse_normalization(Some("var")), Ok(Some(Normalization::Variance)));
    assert_eq!(parse_normalization(Some("mean")), Ok(Some(Normalization::Mean)));
    assert_eq!(
        parse_normalization(Some("median")),
        Err(SpafeError::InvalidParameter(NORMALIZATION_NAME_ERROR))
    );
}

#[test]
fn conversion_names() {
    assert_eq!(parse_mel("Slaney"), Ok(MelConversionApproach::Oshaghnessy));
    assert_eq!(parse_mel("OShaughnessy"), Ok(MelConversionApproach::Oshaghnessy));
    assert_eq!(parse_mel("lindsay"), Ok(MelConversionApproach::Lindsay));
    assert_eq!(parse_mel("htk"), Err(SpafeError::InvalidParameter(MEL_NAME_ERROR)));
    assert_eq!(parse_bark("Traunmuller"), Ok(BarkConversionApproach::Traunmueller));
    assert_eq!(parse_bark("zwicker"), Ok(BarkConversionApproach::Zwicker));
    assert_eq!(parse_bark("WANG"), Ok(BarkConversionApproach::Wang));
    assert_eq!(parse_bark("schroeder"), Ok(BarkConversionApproach::Schroeder));
    assert_eq!(parse_bark("terhardt"), Ok(BarkConversionApproach::Terhardt));
    assert_eq!(parse_bark("tjomov"), Ok(BarkConversionApproach::Tjomov));
    assert_eq!(parse_bark("mel"), Err(SpafeError::InvalidParameter(BARK_NAME_ERROR)));
    assert_eq!(parse_erb("Glasberg"), Ok(ErbConversionApproach::Glasberg));
    assert_eq!(parse_erb("moore"), Err(SpafeError::InvalidParameter(ERB_NAME_ERROR)));
}

#[test]
fn lowercase_letters() {
    assert_eq!(lower_char('A'), 'a');
    assert_eq!(lower_char('Z'), 'z');
    assert_eq!(lower_char('a'), 'a');
    assert_eq!(lower_char('_'), '_');
    assert_eq!(lower_char('Ä'), 'Ä');
}

#[test]
fn lowercase_matching() {
    assert!(matches_lowercase("MeAn", "mean"));
    assert!(!matches_lowercase("mean", "Mean"));
    assert!(!matches_lowercase("ÄSC", "asc"));
    assert!(matches_lowercase("", ""));
}

#[test]
fn reversed_scales() {
    assert_eq!(reversed_scale(Scale::Ascendant), Scale::Descendant);
    assert_eq!(reversed_scale(Scale::Descendant), Scale::Ascendant);
    assert_eq!(reversed_scale(Scale::Constant), Scale::Constant);
    assert_eq!(Scale::default(), Scale::Constant);
    assert_eq!(WindowType::default(), WindowType::Hamming);
}

#[test]
fn cochleagram_mode_names() {
    assert_eq!(parse_envelope("Hilbert"), Ok(EnvelopeMode::Hilbert));
    assert_eq!(parse_envelope("abs"), Ok(EnvelopeMode::AbsSubbands));
    assert_eq!(parse_envelope("RECTIFY_SUBBANDS"), Ok(EnvelopeMode::RectifySubbands));
    assert_eq!(parse_envelope("gammatone"), Err(SpafeError::InvalidParameter(ENVELOPE_NAME_ERROR)));
    assert_eq!(
        parse_downsampling("sinc", 1001),
        Ok(DownsamplingMode::SincWithKaiserWindow { window_size: 1001, padding: None })
    );
    assert_eq!(
        parse_downsampling("Hann_Pooling1d", 9),
        Ok(DownsamplingMode::HannPooling1d { window_size: 9, padding: 0, normalize: true })
    );
    assert_eq!(
        parse_downsampling("box", 9),
        Err(SpafeError::InvalidParameter(DOWNSAMPLING_NAME_ERROR))
    );
    assert_eq!(parse_compression(None), Ok(None));
    assert_eq!(parse_compression(Some("NONE")), Ok(None));
    assert_eq!(parse_compression(Some("linear")), Ok(Some(CompressionKind::Linear)));
    assert_eq!(parse_compression(Some("Power")), Ok(Some(CompressionKind::Power)));
    assert_eq!(
        parse_compression(Some("clipped_grad_power")),
        Ok(Some(CompressionKind::ClippedGradPower))
    );
    assert_eq!(
        parse_compression(Some("log")),
        Err(SpafeError::InvalidParameter(COMPRESSION_NAME_ERROR))
    );
    assert_eq!(
        DownsamplingMode::default(),
        DownsamplingMode::SincWithKaiserWindow { window_size: 1001, padding: None }
    );
}

#[test]
fn exact_text_matching() {
    assert!(same_text("mel", "mel"));
    assert!(!same_text("Mel", "mel"));
    assert_eq!(filter_spacing("mel"), FilterSpacing::Mel);
    assert_eq!(filter_spacing("lin"), FilterSpacing::Linear);
    assert_eq!(filter_spacing("MEL"), FilterSpacing::Linear);
    assert_eq!(tick_scale("mel"), TickScale::Mel);
    assert_eq!(tick_scale("bark"), TickScale::Bark);
    assert_eq!(tick_scale("gamma"), TickScale::Erb);
    assert_eq!(tick_scale("lin"), TickScale::Hertz);
}
