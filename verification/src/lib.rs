//! Audio feature extraction: the integer, index and text logic of filter banks,
//! framing, cochleagram layout and option parsing, with contracts checked by Verus.

pub mod cochleagram;
pub mod common;
pub mod fbanks;
pub mod features;
pub mod frequencies;
pub mod names;
pub mod spfeats;
pub mod utils;

pub use common::{
    BarkConversionApproach, ErbConversionApproach, MelConversionApproach, Normalization, Scale,
    SpafeError, SpafeResult, WindowType,
};
