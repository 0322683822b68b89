//! Bits of `WData::flags` (`unsigned short`).
use vstd::prelude::*;

verus! {

/// `WorldData::is_dead_build` `0x006b2390`.
pub const DEAD_BUILD: u16 = 0x0002;
/// `WorldData::is_coast` `0x006b3020`. Part of the land-class field below.
pub const COAST: u16 = 0x0004;
/// `WorldData::is_rocks` `0x006b4380`.
pub const ROCKS: u16 = 0x0008;
/// `WorldData::is_mountains` `0x006b5590`.
pub const MOUNTAINS: u16 = 0x0010;
/// `WorldData::is_forest` `0x006b5560`.
pub const FOREST: u16 = 0x0020;
/// Impassable; groups with `MOUNTAINS` in `get_land`'s `flags & 0x50` test and with the
/// passability tests' `flags & 0x70`. Its writer is not identified.
pub const IMPASSABLE_X: u16 = 0x0040;
/// Set by `World::set_road_at` on the owning W cell; cleared when no tile in the cell still
/// carries a road surface.
pub const HAS_ROAD: u16 = 0x0080;
/// `World::set_waterhalf` `0x006b1c90` / `clear_waterhalf` `0x006b1bd0`: a W cell that is
/// part land, part water.
pub const WATERHALF: u16 = 0x0100;
/// Set by `World::set_land` when the land class is `COAST`.
pub const ORIG_COAST: u16 = 0x0400;
/// `World::set_oil_at` `0x006b2a10`; `WorldData::is_oil_at` `0x00472af0`.
pub const OIL: u16 = 0x0800;
/// Set by `World::set_river_at` on the owning W cell; cleared when no tile in the cell
/// still carries a river.
pub const HAS_RIVER: u16 = 0x1000;
/// The land-class field `World::set_land` clears before OR-ing its argument in.
pub const LAND_CLASS_MASK: u16 = 0x003c;
/// `WorldData::is_passable` `0x006b23c0` — `(flags & 0x70) == 0`.
pub const IMPASSABLE_MASK: u16 = 0x0070;
/// `WorldData::buildings_allowed` `0x006b2340` — `(flags & 0x78) == 0`.
pub const NO_BUILD_MASK: u16 = 0x0078;

} // verus!
