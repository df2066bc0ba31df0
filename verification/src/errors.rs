//! What can go wrong when a controller is set up.

use vstd::prelude::*;

verus! {

/// Why a controller could not be made.
#[derive(Debug, Clone, Copy, PartialEq, Eq, Structural)]
pub enum AdapterError {
    /// The kernel did not provide a traceset.
    TracesetInitFailure,
    /// The parameter string is not of the form
    /// `<check_interval_ms>,<stability_factor>,<averaging_duration_ms>`.
    MalformedParameters,
}

} // verus!
