//! Grades returned by `World::space_at_corner` / `World::check_building_wcoord`. Higher is
//! more buildable; `BuildTypeData::blocked_location` (`0x006375b0`) consumes these.
use vstd::prelude::*;

verus! {

/// The 2x2 core is blocked, out of bounds, or owned by someone else — unusable.
pub const CORE_BLOCKED: i32 = 0;
/// Usable, but no full approach corridor is clear.
pub const PARTIAL: i32 = 2;
/// At least one of the four 5-cell approach L's is entirely clear.
pub const APPROACH_CLEAR: i32 = 3;
/// All 16 probed tiles are clear.
pub const FULLY_CLEAR: i32 = 4;

} // verus!
