//! Controller-side identifiers and tracking validity.
use vstd::prelude::*;

verus! {

/// Which hand a controller or input state belongs to.
#[derive(Debug, PartialEq, Eq, Structural, PartialOrd, Ord, Copy, Clone)]
pub enum Hand {
    Left,
    Right,
}

/// Location flag bit: the orientation of a located space is valid.
pub const ORIENTATION_VALID: u64 = 1;

/// Location flag bit: the position of a located space is valid.
pub const POSITION_VALID: u64 = 2;

/// A hand pose is usable when the location reports both a valid position
/// and a valid orientation.
pub open spec fn spec_location_is_tracked(location_flags: u64) -> bool {
    location_flags & (POSITION_VALID | ORIENTATION_VALID) == (POSITION_VALID | ORIENTATION_VALID)
}

/// Whether a hand location with `location_flags` gives a usable pose.
pub fn location_is_tracked(location_flags: u64) -> (b: bool)
    ensures
        b == spec_location_is_tracked(location_flags),
{
    location_flags & (POSITION_VALID | ORIENTATION_VALID) == (POSITION_VALID | ORIENTATION_VALID)
}

} // verus!
