//! Byte offsets inside `Leader`, each recovered from the instruction that reads it.
use vstd::prelude::*;

verus! {

/// `0x006ED2B0`: the flag word.
pub const FLAGS: usize = 0x000;
/// `0x006ED2E7`: the player slot. The diplomacy scan indexes the leaders array by this, not
/// by loop position.
pub const SLOT: usize = 0x008;
/// `0x006ED2F1`: 8 dwords, `diplo[other_slot]`.
pub const DIPLO: usize = 0x074;
/// `0x006ED3F1`: 8 dwords, first argument of `Leader::process_taunt`.
pub const TAUNT_KIND: usize = 0x394;
/// `0x006ED3ED`: 8 dwords, second argument.
pub const TAUNT_ARG: usize = 0x3B4;
/// `0x006ED3E2`: 8 dwords, the frame the taunt is stamped for.
pub const TAUNT_FRAME: usize = 0x3D4;
/// `0x006ED381`: grace timer 0's value, also `Leader::process_elimination`'s capital-loss
/// stamp.
pub const TIMER0_VALUE: usize = 0x414;
/// `0x006ED38B`: grace timer 0's freeze flag.
pub const TIMER0_FROZEN: usize = 0x418;
/// `0x0063D72D`: `LeaderData::city_num`.
pub const CITY_NUM: usize = 0x3F8;
/// `0x00594587`: the 8.8 per-leader scale `Game::retake_capital` multiplies by.
pub const RETAKE_SCALE: usize = 0x41C;
pub const TIMER1_VALUE: usize = 0x440;
pub const TIMER1_FROZEN: usize = 0x444;
pub const TIMER2_VALUE: usize = 0x448;
pub const TIMER2_FROZEN: usize = 0x44C;
/// `0x006CDFDC`: the attrition this leader inflicts.
pub const ATTRITION: usize = 0x7F0;
/// `0x006ED213`: current population cap.
pub const POP_CAP: usize = 0x7E4;
/// `0x006ED0AA`: per-frame failed population-production count.
pub const POP_ISSUES: usize = 0x7E8;
/// `0x006CDCCE`: the binary32 anti-attrition scale, 256.0 = none.
pub const ANTI_ATTRITION: usize = 0x7F4;
/// The number of explored region cells rebuilt by `Leader::check_explore`.
pub const EXPLORED: usize = 0x9D4;
/// `0x006CDEA6`: non-zero forces attrition to 0.
pub const ATTRITION_OFF: usize = 0x7F8;
/// `0x006CDCC7`: non-zero forces anti-attrition to 0.0.
pub const ANTI_ATTRITION_OFF: usize = 0x7FC;
pub const FRAME_COUNTER_B: usize = 0x9F4;
/// `0x006EC485`: prior lopsided-battle event frame.
pub const FRAME_BATTLE: usize = 0xA4C;
pub const AVERAGE_DEATH_RATE: usize = 0xA50;
pub const AVERAGE_KILL_RATE: usize = 0xA52;
pub const AVERAGE_DAMAGE_RATE: usize = 0xA54;
pub const AVERAGE_HIT_RATE: usize = 0xA56;
pub const DEATHS_CURRENT_FRAME: usize = 0xA58;
pub const KILLS_CURRENT_FRAME: usize = 0xA5A;
pub const HITS_CURRENT_FRAME: usize = 0xA5C;
pub const DAMAGE_CURRENT_FRAME: usize = 0xA5E;
pub const DEATHS_FIFTEEN_SECONDS: usize = 0xA60;
pub const KILLS_FIFTEEN_SECONDS: usize = 0xA62;
pub const HITS_FIFTEEN_SECONDS: usize = 0xA64;
pub const DAMAGE_FIFTEEN_SECONDS: usize = 0xA66;
/// `0x006CDF6E`: the CTW gate byte `calc_attrition` tests.
pub const CONQUEST_BYTE: usize = 0x6900;
/// `BitMask<44>` object; payload at `+0xC`. The effective mask.
pub const RARE_MASK_EFFECTIVE: usize = 0x6D98;
/// `BitMask<44>` object; left operand of the union.
pub const RARE_MASK_A: usize = 0x6DAC;
/// `BitMask<44>` object; right operand of the union.
pub const RARE_MASK_B: usize = 0x6DC0;
/// `0x006CE28B`: pointer to the economy block.
pub const ECON_PTR: usize = 0x6EB8;

} // verus!
