//! Bits of `TData::mask` (`unsigned short`, the whole of `TData`, PDB size 2).
//!
//! Bits 0–1 are a 2-bit **blocker kind** and bits 4–5 a 2-bit **surface kind**; the rest
//! are independent flags. Every value below was read off the setter that writes it.
use vstd::prelude::*;

verus! {

/// Blocker-kind field, bits 0–1.
pub const BLOCKER_MASK: u16 = 0x0003;
/// `World::set_cliff_at` `0x006b1eb0` — `(m & ~2) | 1`; `WorldData::is_cliff_at` `0x0046f8c0`.
pub const BLOCKER_CLIFF: u16 = 1;
/// `World::set_mountain_at` `0x006b1f00`; `WorldData::is_mountain_at` `0x0046f900`.
pub const BLOCKER_MOUNTAIN: u16 = 2;
/// `World::set_building_at` `0x006b45c0` — `m |= 3`.
pub const BLOCKER_BUILDING: u16 = 3;
/// `World::set_behind(.., behind, 0)` `0x006b4230`.
pub const BEHIND_A: u16 = 0x0004;
/// `World::set_behind(.., behind, 1)`; also set by `World::set_tree_at`.
pub const BEHIND_B: u16 = 0x0008;
/// Surface-kind field, bits 4–5.
pub const SURFACE_MASK: u16 = 0x0030;
/// `World::set_road_at` `0x006b43b0` — `(m & ~0x20) | 0x10`.
pub const SURFACE_ROAD: u16 = 0x0010;
/// `World::set_tocean` `0x006b1c60` / `set_waterhalf` `0x006b1c90`; `is_tocean` — `(m & 0x30) == 0x20`.
pub const SURFACE_WATER: u16 = 0x0020;
/// `World::set_tree_at` `0x006b2060` — `m |= 0x38`; `is_tree_at` — `(m & 0x30) == 0x30`.
pub const SURFACE_TREES: u16 = 0x0030;
/// `World::set_started2_at` `0x006b4530`.
pub const STARTED2: u16 = 0x0040;
/// `World::set_started_at` `0x006b4570`; part of `WorldData::is_built_at` `0x0046f880`.
pub const STARTED: u16 = 0x0080;
/// `World::set_city_at` `0x006b4180`.
pub const CITY: u16 = 0x0100;
/// `World::set_resource_at` `0x006b3a80`.
pub const RESOURCE: u16 = 0x0200;
/// `World::set_coastal` `0x006b1d10`.
pub const COASTAL: u16 = 0x0400;
/// `World::set_river_at` `0x006b1f80`; `WorldData::is_river` `0x0046d390`.
pub const RIVER: u16 = 0x0800;
/// `World::set_gathered_at` `0x006b46b0`; `WorldData::is_gathered_from` `0x00472ac0`.
pub const GATHERED: u16 = 0x1000;
/// `World::set_bad_path` `0x006b4610` — maintained as a *count* in `WData::bad`.
pub const BAD_PATH: u16 = 0x2000;
/// `World::set_blocked_at` `0x006b4900`; `WorldData::is_blocked_at` `0x00461340`.
pub const BLOCKED: u16 = 0x4000;
/// `World::set_gather_edge` `0x006b2110`.
pub const GATHER_EDGE: u16 = 0x8000;

} // verus!
