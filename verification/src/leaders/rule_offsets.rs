//! Byte offsets of every `Step8Rules` field in the `Constants` value block, so the loader
//! and a disassembly listing can be diffed by eye.
use vstd::prelude::*;

verus! {

pub const UNIT_MOVE_SPEED: usize = 4;
pub const MILITARY_TRANSPORT_BONUS: usize = 60;
pub const TIMER_REFRESH_RATIO: usize = 3328;
pub const ATTRITION_UPGRADE: usize = 456;
pub const ATTRITION_IMPROVED: usize = 472;
pub const COLOSSEUM_ATTRITION: usize = 1136;
pub const KREMLIN_ATTRITION: usize = 1296;
pub const LIBERTY_ATTRITION: usize = 1316;
pub const RUSSIAN_ATTRITION: usize = 1868;
pub const MONGOL_ATTRITION: usize = 2032;
pub const DUTCH_ATTACK_BONUS: usize = 2232;
pub const VERSAILLES_UNITS_MOVE: usize = 1248;
pub const AZTEC_MOVE_SPEED: usize = 1396;
pub const BANTU_UNITS_MOVE: usize = 1460;
pub const FRENCH_SIEGE_MOVE: usize = 1724;
pub const AMERICANS_MARINE_SPEED_BONUS: usize = 2156;
pub const ALUMINUM_AIR_SPEED: usize = 2360;
pub const WHALES_SHIPS_MOVE: usize = 2364;
pub const BUILDING_HP_UPGRADE: usize = 340;
pub const CAPITAL_BUILDING_HP: usize = 340;
pub const FORT_UPGRADE_RANGE: usize = 384;
pub const TOWER_FORT_RANGE: usize = 424;
pub const COLOSSEUM_FORT_RANGE: usize = 1140;
pub const TIKAL_TEMPLE_HP: usize = 1184;
pub const RED_FORT_FORT_HPS: usize = 1224;
pub const TAJ_BUILDING_HP: usize = 1272;
pub const MAYA_BUILDING_HP: usize = 1420;
pub const NUBIAN_HIT_POINTS: usize = 1484;
pub const ROMAN_FORT_HP: usize = 1532;
pub const FURS_LOS: usize = 2324;
pub const CTW_MISSIONARIES_BONUS: usize = 2824;
pub const SENATE_HP_BONUS: usize = 3144;
pub const TITANIUM_ATTRITION: usize = 2396;
pub const CATTLE_CITIZEN_ARMOR: usize = 2400;
pub const CTW_ATTRITION: usize = 2572;
pub const CAPITAL_BUILD_TIME: usize = 956;
pub const VERSAILLES_BUILDING_SPEED: usize = 1252;
pub const MAYA_BUILDING_SPEED: usize = 1424;
pub const ROMAN_FORT_SPEED: usize = 1552;
pub const BRITISH_AA_SPEED: usize = 1764;
pub const DUTCH_FORT_SPEED: usize = 2228;
pub const TOBACCO_BUILDING_SPEED: usize = 2316;

} // verus!
