use vstd::prelude::*;

verus! {

/// Errors returned by invalid feature, filter-bank, and preprocessing parameters.
#[derive(Debug, Clone, Copy, PartialEq, Eq)]
pub enum SpafeError {
    /// `low_freq` must not be negative.
    LowFrequency,
    /// `high_freq` must not exceed the Nyquist frequency.
    HighFrequency,
    /// Window length must be greater than or equal to the hop length.
    WindowLength,
    /// The number of filters must be greater than or equal to the requested cepstra.
    FilterCount,
    /// The signal is too short for the requested frame configuration.
    SignalTooShort,
    /// Generic parameter error for checks without a dedicated variant.
    InvalidParameter(&'static str),
}

/// Crate-local result type returned by fallible operations.
pub type SpafeResult<T> = core::result::Result<T, SpafeError>;

/// Filter-bank scaling strategy.
#[derive(Debug, Clone, Copy, PartialEq, Eq, Structural, Default)]
pub enum Scale {
    /// Increase filter weights from low to high filter index.
    Ascendant,
    /// Decrease filter weights from low to high filter index.
    Descendant,
    /// Keep all filter weights equal.
    #[default]
    Constant,
}

/// Window function applied during frame blocking.
#[derive(Debug, Clone, Copy, PartialEq, Eq, Structural, Default)]
pub enum WindowType {
    /// Hann window.
    Hanning,
    /// Bartlett triangular window.
    Bartlet,
    /// Kaiser window.
    Kaiser,
    /// Blackman window.
    Blackman,
    /// Hamming window.
    #[default]
    Hamming,
}

/// Cepstral normalization mode.
#[derive(Debug, Clone, Copy, PartialEq, Eq, Structural)]
pub enum Normalization {
    /// Column-wise mean subtraction followed by global variance scaling.
    MeanVariance,
    /// Column-wise mean subtraction.
    MeanSubtraction,
    /// Global variance scaling.
    Variance,
    /// Global mean normalization using the matrix value range.
    Mean,
}

/// Formula used to convert between Hertz and Mel.
#[derive(Debug, Clone, Copy, PartialEq, Eq, Structural, Default)]
pub enum MelConversionApproach {
    /// O'Shaughnessy conversion formula.
    #[default]
    Oshaghnessy,
    /// Lindsay conversion formula.
    Lindsay,
}

/// Formula used to convert between Hertz and Bark.
#[derive(Debug, Clone, Copy, PartialEq, Eq, Structural, Default)]
pub enum BarkConversionApproach {
    /// Wang conversion formula.
    #[default]
    Wang,
    /// Tjomov conversion formula.
    Tjomov,
    /// Schroeder conversion formula.
    Schroeder,
    /// Terhardt conversion formula.
    Terhardt,
    /// Zwicker conversion formula.
    Zwicker,
    /// Traunmueller conversion formula.
    Traunmueller,
}

/// Formula used to convert between Hertz and ERB.
#[derive(Debug, Clone, Copy, PartialEq, Eq, Structural, Default)]
pub enum ErbConversionApproach {
    /// Glasberg and Moore conversion formula.
    #[default]
    Glasberg,
}

/// The scaling that an inverse filter bank uses for a requested scaling:
/// ascending and descending weights swap, constant weights stay.
pub open spec fn spec_reversed_scale(scale: Scale) -> Scale {
    match scale {
        Scale::Ascendant => Scale::Descendant,
        Scale::Descendant => Scale::Ascendant,
        Scale::Constant => Scale::Constant,
    }
}

/// Swap ascending and descending filter weights, as inverse Mel filter banks do.
pub fn reversed_scale(scale: Scale) -> (r: Scale)
    ensures
        r == spec_reversed_scale(scale),
{
    match scale {
        Scale::Ascendant => Scale::Descendant,
        Scale::Descendant => Scale::Ascendant,
        Scale::Constant => Scale::Constant,
    }
}

/// Reversing a scaling twice gives the scaling back.
pub proof fn lemma_reversed_scale_involution(scale: Scale)
    ensures
        spec_reversed_scale(spec_reversed_scale(scale)) == scale,
{
}

} // verus!
