use vstd::prelude::*;

use crate::common::SpafeError;

verus! {

/// The message of an unavailable function.
pub const UNAVAILABLE_ERROR: &'static str = "function is not available";

/// Return an error when an optional feature is not available.
pub fn assert_function_availability(available: bool) -> (r: Result<(), SpafeError>)
    ensures
        available ==> r == Ok::<(), SpafeError>(()),
        !available ==> r == Err::<(), SpafeError>(SpafeError::InvalidParameter(UNAVAILABLE_ERROR)),
{
    if available {
        Ok(())
    } else {
        Err(SpafeError::InvalidParameter(UNAVAILABLE_ERROR))
    }
}

} // verus!
