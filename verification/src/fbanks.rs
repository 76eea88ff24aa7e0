use vstd::prelude::*;

use crate::names::same_text;

verus! {

/// Spacing of triangular filter banks.
#[derive(Debug, Clone, Copy, PartialEq, Eq, Structural)]
pub enum FilterSpacing {
    /// Points equally spaced on the Mel scale.
    Mel,
    /// Points equally spaced in Hertz.
    Linear,
}

/// The spacing that a filter-bank type name selects: exactly "mel" gives Mel
/// spacing, every other name linear spacing.
pub fn filter_spacing(fb_type: &str) -> (r: FilterSpacing)
    ensures
        fb_type@ == "mel"@ ==> r == FilterSpacing::Mel,
        fb_type@ != "mel"@ ==> r == FilterSpacing::Linear,
{
    if same_text(fb_type, "mel") {
        FilterSpacing::Mel
    } else {
        FilterSpacing::Linear
    }
}

} // verus!
