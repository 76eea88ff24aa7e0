//! Exception, preprocessing and visualization utilities.

/// Exception compatibility helpers.
pub mod exceptions;
/// Filter-bank scaling.
pub mod filters;
/// Signal framing.
pub mod preprocessing;
/// Text helpers of the SVG renderers.
pub mod vis;
