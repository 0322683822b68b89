//! `WData::land` values. `WorldData::is_ocean` `0x006b4830` treats **1 and 2** as water
//! (when `WATERHALF` is clear); off-map reads as deep water.
use vstd::prelude::*;

verus! {

/// Dry land.
pub const FERTILE: i8 = 0;
/// Shallow / coastal water — counted as ocean by `is_ocean`.
pub const COASTAL: i8 = 1;
/// Deep water; the value `World::wipe` and the off-map cell use.
pub const OCEAN: i8 = 2;

} // verus!
