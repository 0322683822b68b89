//! Bits of `Leader + 0x00` that step 8 reads or writes. A bit not listed here is not
//! "unused", it is unread by `0x006ED2A0`.
use vstd::prelude::*;

verus! {

/// `& 1`: gate on the inner diplomacy scan (`0x006ED2E2`) and on step 19's
/// `Leader::process_event_frame` loop (`0x005924A5`).
pub const IN_GAME: u32 = 0x0000_0001;
/// `& 2`: gate on the outer loop (`0x006ED2B0`), which decides whether a leader's economy
/// runs at all.
pub const PROCESS: u32 = 0x0000_0002;
/// Read on the other leader in the diplomacy scan (`0x006ED307`). A leader without it never
/// makes anyone hostile, whatever the diplomacy says.
pub const COUNTS_AS_HOSTILE: u32 = 0x0002_0000;
/// Cleared at `0x006ED2B9` and recomputed by the scan (`0x006ED30F`).
pub const HOSTILE_SEEN: u32 = 0x0004_0000;
/// Cleared at the tail of every processed leader (`0x006ED407`): an inbound request bit.
pub const PENDING: u32 = 0x0008_0000;
/// `& 0x4000000`: request `Leader::calc_unit_stats` (`0x006ED343`).
pub const UNIT_STATS_DIRTY: u32 = 0x0400_0000;
/// `& 0x8000000`: request `Leader::calc_wall_stats` (`0x006ED32C`).
pub const WALL_STATS_DIRTY: u32 = 0x0800_0000;
/// Both, as `Leader::gather` sets them in one `or`.
pub const STATS_DIRTY: u32 = 0x0C00_0000;

} // verus!
