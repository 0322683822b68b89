//! `LeaderData::leader_flags2`'s low bits — the four AI-subsystem kill switches.
use vstd::prelude::*;

verus! {

/// Unit AI disabled.
pub const UNIT_AI_DISABLED: u32 = 0x0000_0002;
/// Production AI disabled; `Leader::production_ai` refuses while it is set.
pub const PRODUCTION_AI_DISABLED: u32 = 0x0000_0004;
/// Combat AI disabled.
pub const COMBAT_AI_DISABLED: u32 = 0x0000_0008;
/// City AI disabled.
pub const CITY_AI_DISABLED: u32 = 0x0000_0010;

} // verus!
