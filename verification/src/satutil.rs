use vstd::prelude::*;

verus! {

/// Lowest elevation, in millionths of a degree, at which a target counts as
/// visible when no other threshold is configured: fifteen degrees.
pub const MIN_ELEVATION: i64 = 15_000_000;

/// Look-angle query without a bound observer or target: there is nothing to
/// report, and nothing is changed.
pub fn get_look_angle() {
}

/// Sub-satellite-point query without a bound target: there is nothing to
/// report, and nothing is changed.
pub fn get_ssp() {
}

} // verus!
