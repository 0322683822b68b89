//! Leader-owned tick state: the leaders array, the `BitMask<44>` rare masks, the rule
//! values step 8 reads, the per-object stat bodies and the unit and wall stat passes.
//!
//! Step 8 `Leaders::process_all` `0x006ED2A0`, step 11 `Leaders::strategy_all`
//! `0x006ED430`, step 17 `Leaders::end_process_all` `0x006ED070` and step 19
//! `Leader::process_event_frame` `0x006EC180` read and write the types here. Steps 11 and
//! 17 run here over [`Leaders`]; step 19 runs in its own module and
//! [`process_event_frames`] drives it over the leader records.
use vstd::prelude::*;

use crate::leaders_process_event_frame_step19 as step19;
use crate::leaders_process_event_frame_step19::{quot, trunc_div};

pub use crate::leaders_process_event_frame_step19::mood as combat_mood;

pub mod flag;
pub mod offsets;
pub mod rule_offsets;
pub mod unit_type_source;

pub use unit_type_source::{UnitTypeStatRow, UnitTypeStatSource, UnitTypeStatSourceError};
use unit_type_source::{lineage_fuel, row_at, shipped_unit_is, unit_is_spec};

verus! {

// ---------------------------------------------------------------------------------------
// The leaders array
// ---------------------------------------------------------------------------------------

/// `Leaders::process_all`'s loop runs `[0x00E3A390, 0x00E71AF0)` in strides of `0x6EEC`,
/// which is exactly eight. The same three constants drive step 19.
pub const NUM_LEADER_SLOTS: usize = 8;
/// `sizeof(Leader)` as the loop strides it.
pub const LEADER_STRIDE: u32 = 0x6EEC;
/// `Leaders leaders`: the static array `Leaders::process_all` walks.
pub const LEADERS_BASE_VA: u32 = 0x00E3A390;
/// One past the last leader.
pub const LEADERS_END_VA: u32 = 0x00E71AF0;
/// The diplomacy value that means "allied": the hostile bit is suppressed only when both
/// directions read 2.
pub const DIPLO_ALLIED: i32 = 2;

// ---------------------------------------------------------------------------------------
// BitMask<44>
// ---------------------------------------------------------------------------------------

/// Payload bytes of a `BitMask<44>`: a length of 6 for 44 bits is what makes the copy's
/// four-plus-two split at `0x006CE382` necessary.
pub const RARE_MASK_BYTES: usize = 6;

/// A `BitMask<44>` payload.
#[derive(Clone, Copy, PartialEq, Eq, Debug, Default, Hash)]
pub struct RareMask {
    pub bytes: [u8; 6],
}

/// Bit `b` of a six-byte payload, for `0 <= b < 48`: byte `b / 8`, mask `1 << (b % 8)`.
pub open spec fn raw_bit(bytes: [u8; 6], b: int) -> bool {
    bytes@[b / 8] & (1u8 << ((b % 8) as u8)) != 0
}

impl RareMask {
    /// Rare bit 30, tested by `calc_anti_attrition` as `byte[3] & 0x40` (`0x006CDE47`).
    pub const TITANIUM: usize = 30;
    /// Rare bit 13, tested by `Wall::update_construct_time` as `byte[1] & 0x20`.
    pub const TOBACCO: usize = 13;
    /// Bit count.
    pub const BITS: usize = 44;

    /// Whether rare bit `b` is set; bits outside `0..44` never are.
    pub open spec fn has_bit(self, b: int) -> bool {
        0 <= b < 44 && raw_bit(self.bytes, b)
    }

    pub fn empty() -> (r: RareMask)
        ensures
            forall|b: int| 0 <= b < 48 ==> !raw_bit(r.bytes, b),
            r.bytes@ == seq![0u8, 0u8, 0u8, 0u8, 0u8, 0u8],
    {
        let r = RareMask { bytes: [0, 0, 0, 0, 0, 0] };
        proof {
            lemma_byte_bits();
            assert(r.bytes@ =~= seq![0u8, 0u8, 0u8, 0u8, 0u8, 0u8]);
        }
        r
    }

    /// Build from bit indices; out-of-range indices are ignored.
    pub fn from_bits(bits: &[usize]) -> (r: RareMask)
        ensures
            forall|b: int| 0 <= b < 48 ==> raw_bit(r.bytes, b) == (b < 44 && bits@.contains(b as usize)),
    {
        let mut m = RareMask::empty();
        let mut k: usize = 0;
        while k < bits.len()
            invariant
                k <= bits.len(),
                forall|b: int|
                    0 <= b < 48 ==> raw_bit(m.bytes, b) == (b < 44 && bits@.subrange(0, k as int).contains(b as usize)),
            decreases bits.len() - k,
        {
            let bit = bits[k];
            m.set(bit, true);
            proof {
                assert forall|b: int| 0 <= b < 48 implies raw_bit(m.bytes, b) == (b < 44
                    && bits@.subrange(0, k + 1).contains(b as usize)) by {
                    let s = bits@.subrange(0, k as int);
                    assert(bits@.subrange(0, k + 1) =~= s.push(bit));
                    if s.push(bit).contains(b as usize) && !s.contains(b as usize) {
                        let w = choose|w: int| 0 <= w < s.push(bit).len() && s.push(bit)[w] == b as usize;
                        assert(w == s.len());
                    }
                    if s.contains(b as usize) {
                        let w = choose|w: int| 0 <= w < s.len() && s[w] == b as usize;
                        assert(s.push(bit)[w] == b as usize);
                    }
                    if b == bit as int {
                        assert(s.push(bit)[s.len() as int] == bit);
                    }
                }
            }
            k = k + 1;
        }
        assert(bits@.subrange(0, bits.len() as int) =~= bits@);
        m
    }

    /// Rare bit `bit`; `false` for any bit outside `0..44`.
    pub fn get(&self, bit: usize) -> (r: bool)
        ensures
            r == self.has_bit(bit as int),
    {
        if bit >= 44 {
            return false;
        }
        self.bytes[bit / 8] & (1u8 << ((bit % 8) as u8)) != 0
    }

    /// Set or clear rare bit `bit`; a bit outside `0..44` leaves the mask unchanged.
    pub fn set(&mut self, bit: usize, on: bool)
        ensures
            bit >= 44 ==> *final(self) == *old(self),
            bit < 44 ==> final(self).bytes@ == old(self).bytes@.update(
                (bit / 8) as int,
                if on {
                    old(self).bytes@[(bit / 8) as int] | (1u8 << ((bit % 8) as u8))
                } else {
                    old(self).bytes@[(bit / 8) as int] & !(1u8 << ((bit % 8) as u8))
                },
            ),
            forall|b: int|
                0 <= b < 48 ==> raw_bit(final(self).bytes, b) == if b == bit as int && bit < 44 {
                    on
                } else {
                    raw_bit(old(self).bytes, b)
                },
    {
        if bit >= 44 {
            return;
        }
        let m = 1u8 << ((bit % 8) as u8);
        let i = bit / 8;
        let old_byte = self.bytes[i];
        if on {
            self.bytes[i] = old_byte | m;
        } else {
            self.bytes[i] = old_byte & !m;
        }
        proof {
            lemma_byte_bits();
            assert forall|b: int| 0 <= b < 48 implies raw_bit(self.bytes, b) == if b == bit as int {
                on
            } else {
                raw_bit(old(self).bytes, b)
            } by {
                if b / 8 == i as int {
                    let j = (bit % 8) as u8;
                    let kk = (b % 8) as u8;
                    assert((b == bit as int) == (j == kk));
                }
            }
        }
    }

    /// `BitMask<44>::operator|` `0x0047CE20`: the byte-wise OR.
    pub fn union(&self, other: &RareMask) -> (r: RareMask)
        ensures
            forall|i: int| 0 <= i < 6 ==> r.bytes@[i] == self.bytes@[i] | other.bytes@[i],
            forall|b: int|
                0 <= b < 48 ==> raw_bit(r.bytes, b) == (raw_bit(self.bytes, b) || raw_bit(
                    other.bytes,
                    b,
                )),
    {
        let mut out = RareMask::empty();
        let mut i: usize = 0;
        while i < 6
            invariant
                i <= 6,
                forall|j: int| 0 <= j < i ==> out.bytes@[j] == self.bytes@[j] | other.bytes@[j],
            decreases 6 - i,
        {
            out.bytes[i] = self.bytes[i] | other.bytes[i];
            i = i + 1;
        }
        proof {
            lemma_byte_bits();
        }
        out
    }
}

/// Single-bit facts about a byte: setting, clearing and OR-ing.
proof fn lemma_byte_bits()
    by (bit_vector)
    ensures
        forall|x: u8, j: u8, k: u8|
            j < 8 && k < 8 ==> (((x | (1u8 << j)) & (1u8 << k)) != 0) == (j == k || (x & (1u8
                << k)) != 0),
        forall|x: u8, j: u8, k: u8|
            j < 8 && k < 8 ==> (((x & !(1u8 << j)) & (1u8 << k)) != 0) == (j != k && (x & (1u8
                << k)) != 0),
        forall|x: u8, y: u8, k: u8|
            k < 8 ==> (((x | y) & (1u8 << k)) != 0) == ((x & (1u8 << k)) != 0 || (y & (1u8
                << k)) != 0),
        forall|k: u8| k < 8 ==> ((0u8 & (1u8 << k)) != 0) == false,
{
}

/// Setting a rare bit and reading it back gives what was set; every other bit reads as
/// before.
pub proof fn lemma_rare_get_after_set(before: RareMask, after: RareMask, bit: int, on: bool, b: int)
    requires
        0 <= bit < 44,
        0 <= b < 44,
        forall|c: int|
            0 <= c < 48 ==> raw_bit(after.bytes, c) == if c == bit {
                on
            } else {
                raw_bit(before.bytes, c)
            },
    ensures
        after.has_bit(b) == if b == bit {
            on
        } else {
            before.has_bit(b)
        },
{
}

// ---------------------------------------------------------------------------------------
// The rules step 8 reads
// ---------------------------------------------------------------------------------------

/// The `Constants` slots step 8 and its second level read, by byte offset into the value
/// block (see [`rule_offsets`]). Every one of the seven construct-time rules is a divisor or
/// multiplier of construction time, so a larger value makes a building go up faster.
#[derive(Clone, Copy, PartialEq, Eq, Debug)]
pub struct Step8Rules {
    pub unit_move_speed: i32,
    pub military_transport_bonus: i32,
    /// Divisor of `Game::frame` at `0x006ED37B`; zero disables the whole timer block.
    pub timer_refresh_ratio: i32,
    pub attrition_improved: [i32; 4],
    /// Percent reduction, so a value of 100 collapses anti-attrition to 0.
    pub attrition_upgrade: [i32; 4],
    pub colosseum_attrition: i32,
    pub russian_attrition: i32,
    pub ctw_attrition: i32,
    pub kremlin_attrition: i32,
    pub liberty_attrition: i32,
    pub mongol_attrition: i32,
    pub titanium_attrition: i32,
    pub cattle_citizen_armor: i32,
    pub dutch_attack_bonus: i32,
    pub versailles_units_move: i32,
    /// Absent from shipped `rules.xml`, so static-zero initialization leaves it at 0.
    pub aztec_move_speed: i32,
    pub bantu_units_move: i32,
    pub french_siege_move: i32,
    pub americans_marine_speed_bonus: i32,
    pub aluminum_air_speed: i32,
    pub whales_ships_move: i32,
    pub building_hp_upgrade: i32,
    /// The five dwords beginning at `RULES + 0x154`: `BUILDING_HP_UPGRADE` followed by the
    /// first four `TEMPLE_UPGRADE_HP` entries.
    pub capital_building_hp: [i32; 5],
    pub maya_building_hp: i32,
    pub roman_fort_hp: i32,
    pub taj_building_hp: i32,
    pub red_fort_fort_hps: i32,
    pub nubian_hit_points: i32,
    pub tikal_temple_hp: i32,
    pub ctw_missionaries_bonus: i32,
    pub senate_hp_bonus: i32,
    pub fort_upgrade_range: [i32; 5],
    pub tower_fort_range: [i32; 4],
    pub colosseum_fort_range: i32,
    pub furs_los: i32,
    pub maya_building_speed: i32,
    pub versailles_building_speed: i32,
    pub tobacco_building_speed: i32,
    pub british_aa_speed: i32,
    pub dutch_fort_speed: i32,
    pub roman_fort_speed: i32,
    /// A plain `v * RULE / 100` multiplier applied to every building of a leader whose
    /// `city_num` is zero.
    pub capital_build_time: i32,
}

/// The shipped `rules.xml` values.
pub open spec fn shipped_rules() -> Step8Rules {
    Step8Rules {
        unit_move_speed: 1,
        military_transport_bonus: 0,
        timer_refresh_ratio: 5,
        attrition_improved: [1, 2, 4, 8],
        attrition_upgrade: [25, 50, 75, 100],
        colosseum_attrition: 50,
        russian_attrition: 100,
        ctw_attrition: 50,
        kremlin_attrition: 100,
        liberty_attrition: 100,
        mongol_attrition: 50,
        titanium_attrition: 50,
        cattle_citizen_armor: 1,
        dutch_attack_bonus: 1,
        versailles_units_move: 25,
        aztec_move_speed: 0,
        bantu_units_move: 25,
        french_siege_move: 20,
        americans_marine_speed_bonus: 2,
        aluminum_air_speed: 25,
        whales_ships_move: 20,
        building_hp_upgrade: 10,
        capital_building_hp: [10, 25, 50, 100, 150],
        maya_building_hp: 25,
        roman_fort_hp: 0,
        taj_building_hp: 100,
        red_fort_fort_hps: 33,
        nubian_hit_points: 50,
        tikal_temple_hp: 50,
        ctw_missionaries_bonus: 25,
        senate_hp_bonus: 35,
        fort_upgrade_range: [0, 1, 2, 3, 4],
        tower_fort_range: [0, 1, 2, 3],
        colosseum_fort_range: 0,
        furs_los: 0,
        maya_building_speed: 20,
        versailles_building_speed: 0,
        tobacco_building_speed: 10,
        british_aa_speed: 33,
        dutch_fort_speed: 0,
        roman_fort_speed: 50,
        capital_build_time: 300,
    }
}

/// All zeros.
pub open spec fn zeroed_rules() -> Step8Rules {
    Step8Rules {
        unit_move_speed: 0,
        military_transport_bonus: 0,
        timer_refresh_ratio: 0,
        attrition_improved: [0, 0, 0, 0],
        attrition_upgrade: [0, 0, 0, 0],
        colosseum_attrition: 0,
        russian_attrition: 0,
        ctw_attrition: 0,
        kremlin_attrition: 0,
        liberty_attrition: 0,
        mongol_attrition: 0,
        titanium_attrition: 0,
        cattle_citizen_armor: 0,
        dutch_attack_bonus: 0,
        versailles_units_move: 0,
        aztec_move_speed: 0,
        bantu_units_move: 0,
        french_siege_move: 0,
        americans_marine_speed_bonus: 0,
        aluminum_air_speed: 0,
        whales_ships_move: 0,
        building_hp_upgrade: 0,
        capital_building_hp: [0, 0, 0, 0, 0],
        maya_building_hp: 0,
        roman_fort_hp: 0,
        taj_building_hp: 0,
        red_fort_fort_hps: 0,
        nubian_hit_points: 0,
        tikal_temple_hp: 0,
        ctw_missionaries_bonus: 0,
        senate_hp_bonus: 0,
        fort_upgrade_range: [0, 0, 0, 0, 0],
        tower_fort_range: [0, 0, 0, 0],
        colosseum_fort_range: 0,
        furs_los: 0,
        maya_building_speed: 0,
        versailles_building_speed: 0,
        tobacco_building_speed: 0,
        british_aa_speed: 0,
        dutch_fort_speed: 0,
        roman_fort_speed: 0,
        capital_build_time: 0,
    }
}

/// The dword at byte offset `off` of a value block; slots past the end read as zero.
pub open spec fn rule_at(block: Seq<i32>, off: int) -> i32 {
    if off / 4 < block.len() {
        block[off / 4]
    } else {
        0
    }
}

/// The rules read out of a value block, each field at its [`rule_offsets`] slot.
pub open spec fn rules_from_block(block: Seq<i32>) -> Step8Rules {
    Step8Rules {
        unit_move_speed: rule_at(block, rule_offsets::UNIT_MOVE_SPEED as int),
        military_transport_bonus: rule_at(block, rule_offsets::MILITARY_TRANSPORT_BONUS as int),
        timer_refresh_ratio: rule_at(block, rule_offsets::TIMER_REFRESH_RATIO as int),
        attrition_improved: [rule_at(block, rule_offsets::ATTRITION_IMPROVED as int), rule_at(block, rule_offsets::ATTRITION_IMPROVED + 4), rule_at(block, rule_offsets::ATTRITION_IMPROVED + 8), rule_at(block, rule_offsets::ATTRITION_IMPROVED + 12)],
        attrition_upgrade: [rule_at(block, rule_offsets::ATTRITION_UPGRADE as int), rule_at(block, rule_offsets::ATTRITION_UPGRADE + 4), rule_at(block, rule_offsets::ATTRITION_UPGRADE + 8), rule_at(block, rule_offsets::ATTRITION_UPGRADE + 12)],
        colosseum_attrition: rule_at(block, rule_offsets::COLOSSEUM_ATTRITION as int),
        russian_attrition: rule_at(block, rule_offsets::RUSSIAN_ATTRITION as int),
        ctw_attrition: rule_at(block, rule_offsets::CTW_ATTRITION as int),
        kremlin_attrition: rule_at(block, rule_offsets::KREMLIN_ATTRITION as int),
        liberty_attrition: rule_at(block, rule_offsets::LIBERTY_ATTRITION as int),
        mongol_attrition: rule_at(block, rule_offsets::MONGOL_ATTRITION as int),
        titanium_attrition: rule_at(block, rule_offsets::TITANIUM_ATTRITION as int),
        cattle_citizen_armor: rule_at(block, rule_offsets::CATTLE_CITIZEN_ARMOR as int),
        dutch_attack_bonus: rule_at(block, rule_offsets::DUTCH_ATTACK_BONUS as int),
        versailles_units_move: rule_at(block, rule_offsets::VERSAILLES_UNITS_MOVE as int),
        aztec_move_speed: rule_at(block, rule_offsets::AZTEC_MOVE_SPEED as int),
        bantu_units_move: rule_at(block, rule_offsets::BANTU_UNITS_MOVE as int),
        french_siege_move: rule_at(block, rule_offsets::FRENCH_SIEGE_MOVE as int),
        americans_marine_speed_bonus: rule_at(block, rule_offsets::AMERICANS_MARINE_SPEED_BONUS as int),
        aluminum_air_speed: rule_at(block, rule_offsets::ALUMINUM_AIR_SPEED as int),
        whales_ships_move: rule_at(block, rule_offsets::WHALES_SHIPS_MOVE as int),
        building_hp_upgrade: rule_at(block, rule_offsets::BUILDING_HP_UPGRADE as int),
        capital_building_hp: [rule_at(block, rule_offsets::CAPITAL_BUILDING_HP as int), rule_at(block, rule_offsets::CAPITAL_BUILDING_HP + 4), rule_at(block, rule_offsets::CAPITAL_BUILDING_HP + 8), rule_at(block, rule_offsets::CAPITAL_BUILDING_HP + 12), rule_at(block, rule_offsets::CAPITAL_BUILDING_HP + 16)],
        maya_building_hp: rule_at(block, rule_offsets::MAYA_BUILDING_HP as int),
        roman_fort_hp: rule_at(block, rule_offsets::ROMAN_FORT_HP as int),
        taj_building_hp: rule_at(block, rule_offsets::TAJ_BUILDING_HP as int),
        red_fort_fort_hps: rule_at(block, rule_offsets::RED_FORT_FORT_HPS as int),
        nubian_hit_points: rule_at(block, rule_offsets::NUBIAN_HIT_POINTS as int),
        tikal_temple_hp: rule_at(block, rule_offsets::TIKAL_TEMPLE_HP as int),
        ctw_missionaries_bonus: rule_at(block, rule_offsets::CTW_MISSIONARIES_BONUS as int),
        senate_hp_bonus: rule_at(block, rule_offsets::SENATE_HP_BONUS as int),
        fort_upgrade_range: [rule_at(block, rule_offsets::FORT_UPGRADE_RANGE as int), rule_at(block, rule_offsets::FORT_UPGRADE_RANGE + 4), rule_at(block, rule_offsets::FORT_UPGRADE_RANGE + 8), rule_at(block, rule_offsets::FORT_UPGRADE_RANGE + 12), rule_at(block, rule_offsets::FORT_UPGRADE_RANGE + 16)],
        tower_fort_range: [rule_at(block, rule_offsets::TOWER_FORT_RANGE as int), rule_at(block, rule_offsets::TOWER_FORT_RANGE + 4), rule_at(block, rule_offsets::TOWER_FORT_RANGE + 8), rule_at(block, rule_offsets::TOWER_FORT_RANGE + 12)],
        colosseum_fort_range: rule_at(block, rule_offsets::COLOSSEUM_FORT_RANGE as int),
        furs_los: rule_at(block, rule_offsets::FURS_LOS as int),
        maya_building_speed: rule_at(block, rule_offsets::MAYA_BUILDING_SPEED as int),
        versailles_building_speed: rule_at(block, rule_offsets::VERSAILLES_BUILDING_SPEED as int),
        tobacco_building_speed: rule_at(block, rule_offsets::TOBACCO_BUILDING_SPEED as int),
        british_aa_speed: rule_at(block, rule_offsets::BRITISH_AA_SPEED as int),
        dutch_fort_speed: rule_at(block, rule_offsets::DUTCH_FORT_SPEED as int),
        roman_fort_speed: rule_at(block, rule_offsets::ROMAN_FORT_SPEED as int),
        capital_build_time: rule_at(block, rule_offsets::CAPITAL_BUILD_TIME as int),
    }
}

/// Slot `i` of the 848-dword block that holds `r` at its offsets and zero elsewhere.
pub open spec fn rules_block_slot(r: Step8Rules, i: int) -> i32 {
    if i == rule_offsets::UNIT_MOVE_SPEED / 4 {
        r.unit_move_speed
    } else if i == rule_offsets::MILITARY_TRANSPORT_BONUS / 4 {
        r.military_transport_bonus
    } else if i == rule_offsets::TIMER_REFRESH_RATIO / 4 {
        r.timer_refresh_ratio
    } else if rule_offsets::ATTRITION_IMPROVED / 4 <= i < rule_offsets::ATTRITION_IMPROVED / 4 + 4 {
        r.attrition_improved@[i - rule_offsets::ATTRITION_IMPROVED / 4]
    } else if rule_offsets::ATTRITION_UPGRADE / 4 <= i < rule_offsets::ATTRITION_UPGRADE / 4 + 4 {
        r.attrition_upgrade@[i - rule_offsets::ATTRITION_UPGRADE / 4]
    } else if i == rule_offsets::COLOSSEUM_ATTRITION / 4 {
        r.colosseum_attrition
    } else if i == rule_offsets::RUSSIAN_ATTRITION / 4 {
        r.russian_attrition
    } else if i == rule_offsets::CTW_ATTRITION / 4 {
        r.ctw_attrition
    } else if i == rule_offsets::KREMLIN_ATTRITION / 4 {
        r.kremlin_attrition
    } else if i == rule_offsets::LIBERTY_ATTRITION / 4 {
        r.liberty_attrition
    } else if i == rule_offsets::MONGOL_ATTRITION / 4 {
        r.mongol_attrition
    } else if i == rule_offsets::TITANIUM_ATTRITION / 4 {
        r.titanium_attrition
    } else if i == rule_offsets::CATTLE_CITIZEN_ARMOR / 4 {
        r.cattle_citizen_armor
    } else if i == rule_offsets::DUTCH_ATTACK_BONUS / 4 {
        r.dutch_attack_bonus
    } else if i == rule_offsets::VERSAILLES_UNITS_MOVE / 4 {
        r.versailles_units_move
    } else if i == rule_offsets::AZTEC_MOVE_SPEED / 4 {
        r.aztec_move_speed
    } else if i == rule_offsets::BANTU_UNITS_MOVE / 4 {
        r.bantu_units_move
    } else if i == rule_offsets::FRENCH_SIEGE_MOVE / 4 {
        r.french_siege_move
    } else if i == rule_offsets::AMERICANS_MARINE_SPEED_BONUS / 4 {
        r.americans_marine_speed_bonus
    } else if i == rule_offsets::ALUMINUM_AIR_SPEED / 4 {
        r.aluminum_air_speed
    } else if i == rule_offsets::WHALES_SHIPS_MOVE / 4 {
        r.whales_ships_move
    } else if i == rule_offsets::BUILDING_HP_UPGRADE / 4 {
        r.building_hp_upgrade
    } else if rule_offsets::CAPITAL_BUILDING_HP / 4 <= i < rule_offsets::CAPITAL_BUILDING_HP / 4 + 5 {
        r.capital_building_hp@[i - rule_offsets::CAPITAL_BUILDING_HP / 4]
    } else if i == rule_offsets::MAYA_BUILDING_HP / 4 {
        r.maya_building_hp
    } else if i == rule_offsets::ROMAN_FORT_HP / 4 {
        r.roman_fort_hp
    } else if i == rule_offsets::TAJ_BUILDING_HP / 4 {
        r.taj_building_hp
    } else if i == rule_offsets::RED_FORT_FORT_HPS / 4 {
        r.red_fort_fort_hps
    } else if i == rule_offsets::NUBIAN_HIT_POINTS / 4 {
        r.nubian_hit_points
    } else if i == rule_offsets::TIKAL_TEMPLE_HP / 4 {
        r.tikal_temple_hp
    } else if i == rule_offsets::CTW_MISSIONARIES_BONUS / 4 {
        r.ctw_missionaries_bonus
    } else if i == rule_offsets::SENATE_HP_BONUS / 4 {
        r.senate_hp_bonus
    } else if rule_offsets::FORT_UPGRADE_RANGE / 4 <= i < rule_offsets::FORT_UPGRADE_RANGE / 4 + 5 {
        r.fort_upgrade_range@[i - rule_offsets::FORT_UPGRADE_RANGE / 4]
    } else if rule_offsets::TOWER_FORT_RANGE / 4 <= i < rule_offsets::TOWER_FORT_RANGE / 4 + 4 {
        r.tower_fort_range@[i - rule_offsets::TOWER_FORT_RANGE / 4]
    } else if i == rule_offsets::COLOSSEUM_FORT_RANGE / 4 {
        r.colosseum_fort_range
    } else if i == rule_offsets::FURS_LOS / 4 {
        r.furs_los
    } else if i == rule_offsets::MAYA_BUILDING_SPEED / 4 {
        r.maya_building_speed
    } else if i == rule_offsets::VERSAILLES_BUILDING_SPEED / 4 {
        r.versailles_building_speed
    } else if i == rule_offsets::TOBACCO_BUILDING_SPEED / 4 {
        r.tobacco_building_speed
    } else if i == rule_offsets::BRITISH_AA_SPEED / 4 {
        r.british_aa_speed
    } else if i == rule_offsets::DUTCH_FORT_SPEED / 4 {
        r.dutch_fort_speed
    } else if i == rule_offsets::ROMAN_FORT_SPEED / 4 {
        r.roman_fort_speed
    } else if i == rule_offsets::CAPITAL_BUILD_TIME / 4 {
        r.capital_build_time
    } else {
        0
    }
}

/// The 848-dword value block that holds `r` at its offsets.
pub open spec fn rules_block(r: Step8Rules) -> Seq<i32> {
    Seq::new(848, |i: int| rules_block_slot(r, i))
}

impl Default for Step8Rules {
    fn default() -> (r: Self)
        ensures
            r == shipped_rules(),
    {
        Step8Rules::shipped()
    }
}

/// The dword at byte offset `off` of `block`, zero past its end.
fn read_rule(block: &[i32], off: usize) -> (r: i32)
    requires
        off < 4000,
    ensures
        r == rule_at(block@, off as int),
{
    let i = off / 4;
    if i < block.len() {
        block[i]
    } else {
        0
    }
}

impl Step8Rules {
    /// The shipped `rules.xml` values.
    pub fn shipped() -> (r: Step8Rules)
        ensures
            r == shipped_rules(),
    {
        Step8Rules {
        unit_move_speed: 1,
        military_transport_bonus: 0,
        timer_refresh_ratio: 5,
        attrition_improved: [1, 2, 4, 8],
        attrition_upgrade: [25, 50, 75, 100],
        colosseum_attrition: 50,
        russian_attrition: 100,
        ctw_attrition: 50,
        kremlin_attrition: 100,
        liberty_attrition: 100,
        mongol_attrition: 50,
        titanium_attrition: 50,
        cattle_citizen_armor: 1,
        dutch_attack_bonus: 1,
        versailles_units_move: 25,
        aztec_move_speed: 0,
        bantu_units_move: 25,
        french_siege_move: 20,
        americans_marine_speed_bonus: 2,
        aluminum_air_speed: 25,
        whales_ships_move: 20,
        building_hp_upgrade: 10,
        capital_building_hp: [10, 25, 50, 100, 150],
        maya_building_hp: 25,
        roman_fort_hp: 0,
        taj_building_hp: 100,
        red_fort_fort_hps: 33,
        nubian_hit_points: 50,
        tikal_temple_hp: 50,
        ctw_missionaries_bonus: 25,
        senate_hp_bonus: 35,
        fort_upgrade_range: [0, 1, 2, 3, 4],
        tower_fort_range: [0, 1, 2, 3],
        colosseum_fort_range: 0,
        furs_los: 0,
        maya_building_speed: 20,
        versailles_building_speed: 0,
        tobacco_building_speed: 10,
        british_aa_speed: 33,
        dutch_fort_speed: 0,
        roman_fort_speed: 50,
        capital_build_time: 300,
        }
    }

    /// All zeros: a state the engine is never in, since `timer_refresh_ratio` is a divisor.
    /// For tests that want the timer block provably off.
    pub fn zeroed() -> (r: Step8Rules)
        ensures
            r == zeroed_rules(),
    {
        Step8Rules {
        unit_move_speed: 0,
        military_transport_bonus: 0,
        timer_refresh_ratio: 0,
        attrition_improved: [0, 0, 0, 0],
        attrition_upgrade: [0, 0, 0, 0],
        colosseum_attrition: 0,
        russian_attrition: 0,
        ctw_attrition: 0,
        kremlin_attrition: 0,
        liberty_attrition: 0,
        mongol_attrition: 0,
        titanium_attrition: 0,
        cattle_citizen_armor: 0,
        dutch_attack_bonus: 0,
        versailles_units_move: 0,
        aztec_move_speed: 0,
        bantu_units_move: 0,
        french_siege_move: 0,
        americans_marine_speed_bonus: 0,
        aluminum_air_speed: 0,
        whales_ships_move: 0,
        building_hp_upgrade: 0,
        capital_building_hp: [0, 0, 0, 0, 0],
        maya_building_hp: 0,
        roman_fort_hp: 0,
        taj_building_hp: 0,
        red_fort_fort_hps: 0,
        nubian_hit_points: 0,
        tikal_temple_hp: 0,
        ctw_missionaries_bonus: 0,
        senate_hp_bonus: 0,
        fort_upgrade_range: [0, 0, 0, 0, 0],
        tower_fort_range: [0, 0, 0, 0],
        colosseum_fort_range: 0,
        furs_los: 0,
        maya_building_speed: 0,
        versailles_building_speed: 0,
        tobacco_building_speed: 0,
        british_aa_speed: 0,
        dutch_fort_speed: 0,
        roman_fort_speed: 0,
        capital_build_time: 0,
        }
    }

    /// Read out of a full `Constants` value block. Slots past the end of `block` read as
    /// zero.
    pub fn from_block(block: &[i32]) -> (r: Step8Rules)
        ensures
            r == rules_from_block(block@),
    {
        Step8Rules {
        unit_move_speed: read_rule(block, rule_offsets::UNIT_MOVE_SPEED),
        military_transport_bonus: read_rule(block, rule_offsets::MILITARY_TRANSPORT_BONUS),
        timer_refresh_ratio: read_rule(block, rule_offsets::TIMER_REFRESH_RATIO),
        attrition_improved: [read_rule(block, rule_offsets::ATTRITION_IMPROVED), read_rule(block, rule_offsets::ATTRITION_IMPROVED + 4), read_rule(block, rule_offsets::ATTRITION_IMPROVED + 8), read_rule(block, rule_offsets::ATTRITION_IMPROVED + 12)],
        attrition_upgrade: [read_rule(block, rule_offsets::ATTRITION_UPGRADE), read_rule(block, rule_offsets::ATTRITION_UPGRADE + 4), read_rule(block, rule_offsets::ATTRITION_UPGRADE + 8), read_rule(block, rule_offsets::ATTRITION_UPGRADE + 12)],
        colosseum_attrition: read_rule(block, rule_offsets::COLOSSEUM_ATTRITION),
        russian_attrition: read_rule(block, rule_offsets::RUSSIAN_ATTRITION),
        ctw_attrition: read_rule(block, rule_offsets::CTW_ATTRITION),
        kremlin_attrition: read_rule(block, rule_offsets::KREMLIN_ATTRITION),
        liberty_attrition: read_rule(block, rule_offsets::LIBERTY_ATTRITION),
        mongol_attrition: read_rule(block, rule_offsets::MONGOL_ATTRITION),
        titanium_attrition: read_rule(block, rule_offsets::TITANIUM_ATTRITION),
        cattle_citizen_armor: read_rule(block, rule_offsets::CATTLE_CITIZEN_ARMOR),
        dutch_attack_bonus: read_rule(block, rule_offsets::DUTCH_ATTACK_BONUS),
        versailles_units_move: read_rule(block, rule_offsets::VERSAILLES_UNITS_MOVE),
        aztec_move_speed: read_rule(block, rule_offsets::AZTEC_MOVE_SPEED),
        bantu_units_move: read_rule(block, rule_offsets::BANTU_UNITS_MOVE),
        french_siege_move: read_rule(block, rule_offsets::FRENCH_SIEGE_MOVE),
        americans_marine_speed_bonus: read_rule(block, rule_offsets::AMERICANS_MARINE_SPEED_BONUS),
        aluminum_air_speed: read_rule(block, rule_offsets::ALUMINUM_AIR_SPEED),
        whales_ships_move: read_rule(block, rule_offsets::WHALES_SHIPS_MOVE),
        building_hp_upgrade: read_rule(block, rule_offsets::BUILDING_HP_UPGRADE),
        capital_building_hp: [read_rule(block, rule_offsets::CAPITAL_BUILDING_HP), read_rule(block, rule_offsets::CAPITAL_BUILDING_HP + 4), read_rule(block, rule_offsets::CAPITAL_BUILDING_HP + 8), read_rule(block, rule_offsets::CAPITAL_BUILDING_HP + 12), read_rule(block, rule_offsets::CAPITAL_BUILDING_HP + 16)],
        maya_building_hp: read_rule(block, rule_offsets::MAYA_BUILDING_HP),
        roman_fort_hp: read_rule(block, rule_offsets::ROMAN_FORT_HP),
        taj_building_hp: read_rule(block, rule_offsets::TAJ_BUILDING_HP),
        red_fort_fort_hps: read_rule(block, rule_offsets::RED_FORT_FORT_HPS),
        nubian_hit_points: read_rule(block, rule_offsets::NUBIAN_HIT_POINTS),
        tikal_temple_hp: read_rule(block, rule_offsets::TIKAL_TEMPLE_HP),
        ctw_missionaries_bonus: read_rule(block, rule_offsets::CTW_MISSIONARIES_BONUS),
        senate_hp_bonus: read_rule(block, rule_offsets::SENATE_HP_BONUS),
        fort_upgrade_range: [read_rule(block, rule_offsets::FORT_UPGRADE_RANGE), read_rule(block, rule_offsets::FORT_UPGRADE_RANGE + 4), read_rule(block, rule_offsets::FORT_UPGRADE_RANGE + 8), read_rule(block, rule_offsets::FORT_UPGRADE_RANGE + 12), read_rule(block, rule_offsets::FORT_UPGRADE_RANGE + 16)],
        tower_fort_range: [read_rule(block, rule_offsets::TOWER_FORT_RANGE), read_rule(block, rule_offsets::TOWER_FORT_RANGE + 4), read_rule(block, rule_offsets::TOWER_FORT_RANGE + 8), read_rule(block, rule_offsets::TOWER_FORT_RANGE + 12)],
        colosseum_fort_range: read_rule(block, rule_offsets::COLOSSEUM_FORT_RANGE),
        furs_los: read_rule(block, rule_offsets::FURS_LOS),
        maya_building_speed: read_rule(block, rule_offsets::MAYA_BUILDING_SPEED),
        versailles_building_speed: read_rule(block, rule_offsets::VERSAILLES_BUILDING_SPEED),
        tobacco_building_speed: read_rule(block, rule_offsets::TOBACCO_BUILDING_SPEED),
        british_aa_speed: read_rule(block, rule_offsets::BRITISH_AA_SPEED),
        dutch_fort_speed: read_rule(block, rule_offsets::DUTCH_FORT_SPEED),
        roman_fort_speed: read_rule(block, rule_offsets::ROMAN_FORT_SPEED),
        capital_build_time: read_rule(block, rule_offsets::CAPITAL_BUILD_TIME),
        }
    }
}

/// A block that holds every rule at its offset reads back as those rules. The one alias,
/// `BUILDING_HP_UPGRADE` and the first `capital_building_hp` slot at byte 340, reads back
/// only when the two agree, as they do in the shipped table.
pub proof fn lemma_rules_block_round_trip(r: Step8Rules)
    requires
        r.building_hp_upgrade == r.capital_building_hp@[0],
    ensures
        rules_from_block(rules_block(r)) == r,
{
    let s = rules_from_block(rules_block(r));
    assert(s.attrition_improved =~= r.attrition_improved);
    assert(s.attrition_upgrade =~= r.attrition_upgrade);
    assert(s.capital_building_hp =~= r.capital_building_hp);
    assert(s.fort_upgrade_range =~= r.fort_upgrade_range);
    assert(s.tower_fort_range =~= r.tower_fort_range);
}

/// A short block zero-extends: the empty block reads as all-zero rules.
pub proof fn lemma_empty_block_reads_zeroed()
    ensures
        rules_from_block(Seq::empty()) == zeroed_rules(),
{
    let s = rules_from_block(Seq::<i32>::empty());
    let z = zeroed_rules();
    assert(s.attrition_improved =~= z.attrition_improved);
    assert(s.attrition_upgrade =~= z.attrition_upgrade);
    assert(s.capital_building_hp =~= z.capital_building_hp);
    assert(s.fort_upgrade_range =~= z.fort_upgrade_range);
    assert(s.tower_fort_range =~= z.tower_fort_range);
}

// ---------------------------------------------------------------------------------------
// Leader state
// ---------------------------------------------------------------------------------------

/// The number of `true` entries of a sequence.
pub open spec fn count_true(s: Seq<bool>) -> nat
    decreases s.len(),
{
    if s.len() == 0 {
        0
    } else {
        count_true(s.drop_last()) + if s.last() {
            1nat
        } else {
            0nat
        }
    }
}

/// Count the `true` entries of a flag array.
fn count_set(flags: &[bool]) -> (r: usize)
    ensures
        r == count_true(flags@),
{
    let mut n: usize = 0;
    let mut i: usize = 0;
    while i < flags.len()
        invariant
            i <= flags.len(),
            n == count_true(flags@.subrange(0, i as int)),
            n <= i,
        decreases flags.len() - i,
    {
        assert(flags@.subrange(0, i + 1).drop_last() =~= flags@.subrange(0, i as int));
        if flags[i] {
            n = n + 1;
        }
        i = i + 1;
    }
    assert(flags@.subrange(0, flags.len() as int) =~= flags@);
    n
}

/// One of the three `(value, frozen)` pairs the timer block at `0x006ED381` creeps: a
/// negative `value` is a debt of frames that creeps back toward zero while `frozen` is clear.
#[derive(Clone, Copy, PartialEq, Eq, Debug, Default)]
pub struct GraceTimer {
    pub value: i32,
    pub frozen: i32,
}

/// The `LeaderData +0xA4C..+0xA66` event-rate block consumed by step 19.
#[derive(Clone, Copy, PartialEq, Eq, Debug, Default)]
pub struct EventFrameState {
    pub frame_battle: i32,
    pub average_death_rate: u16,
    pub average_kill_rate: u16,
    pub average_damage_rate: u16,
    pub average_hit_rate: u16,
    pub deaths_current_frame: u16,
    pub kills_current_frame: u16,
    pub hits_current_frame: u16,
    pub damage_current_frame: u16,
    pub deaths_fifteen_seconds: u16,
    pub kills_fifteen_seconds: u16,
    pub hits_fifteen_seconds: u16,
    pub damage_fifteen_seconds: u16,
}

/// The `LeaderData::has_preq` answers `Wall::update_construct_time` `0x0063D560` needs.
#[derive(Clone, Copy, PartialEq, Eq, Debug, Default)]
pub struct BuildLeaderStatState {
    /// `has_preq(BUILDINGS_CREATED_FASTER)`, type index 787.
    pub buildings_created_faster: bool,
    /// `has_preq(BUILDINGS_FASTER_1..=3)`, type indices 754..=756, in that order.
    pub buildings_faster: [bool; 3],
}

impl BuildLeaderStatState {
    /// `LeaderData::get_building_speed_upgrade` `0x006DAE90`: one for each of the three
    /// prerequisites held. It is not a consecutive run: the `cmove` at `0x006DAECA`
    /// accumulates unconditionally, so a gap in the middle does not stop the count.
    pub fn get_building_speed_upgrade(self) -> (r: i32)
        ensures
            r == count_true(self.buildings_faster@),
    {
        let n = count_set(&self.buildings_faster);
        proof {
            assert(count_true(self.buildings_faster@) <= 3) by {
                reveal_with_fuel(count_true, 4);
            }
        }
        n as i32
    }
}

/// `GameInfo::Player::flags & 1`: the player record takes part in the step-17 scan.
pub const PLAYER_VALID: u16 = 0x0001;
/// `GameInfo::Player::flags & 0x800`: the population-production warning is set.
pub const PLAYER_POP_CAP_WARNING: u16 = 0x0800;
/// The first due elapsed value of the population-cap feedback.
pub const POP_CAP_WARNING_MIN_ELAPSED: i32 = 450;
/// Category passed to `SoundGlobal::play` when the feedback is emitted.
pub const POP_CAP_WARNING_SOUND: i32 = 0x5B;
/// Offset into the localized text table copied before `MessageWin::add_feedback`.
pub const POP_CAP_WARNING_TEXT_OFFSET: u32 = 0xC878;
/// The six `pop_limits` category rows shipped in `rules.xml`, in category order.
pub const SHIPPED_POP_LIMITS: [i32; 6] = [50, 75, 100, 125, 150, 200];

/// The three `GameInfo::Player` fields read or written by step 17.
#[derive(Clone, Copy, PartialEq, Eq, Debug, Default)]
pub struct EndPlayer {
    pub flags: u16,
    pub who: u8,
    pub pop_cap_frame: i32,
}

/// The presentation boundary reached after a due, below-limit population-production
/// failure.
#[derive(Clone, Copy, PartialEq, Eq, Debug)]
pub struct PopulationCapFeedback {
    pub leader_index: usize,
    pub leader_who: i32,
    pub player_index: usize,
    pub text_offset: u32,
    pub sound_category: i32,
}

/// External `GameInfo` / `Console` state consumed by step 17.
#[derive(Clone, Debug, PartialEq, Eq)]
pub struct EndProcessState {
    pub players: [EndPlayer; 8],
    /// `Console +0x298`; `-1` means no local player identity was supplied.
    pub local_who: i32,
    /// `Console +0x2a0`; an index into `players`.
    pub local_play: i32,
    /// `GameInfo +0x25`; `u8::MAX` means the match option was not supplied.
    pub pop_limit_index: u8,
    /// Presentation requests emitted by the most recent dispatcher call only.
    pub last_feedback: Vec<PopulationCapFeedback>,
}

impl Default for EndProcessState {
    /// Player `i` of `who` `i`, no local player, no population-limit option, no feedback.
    fn default() -> (r: Self)
        ensures
            forall|i: int| 0 <= i < 8 ==> #[trigger] r.players@[i] == (EndPlayer { flags: 0, who: i as u8, pop_cap_frame: 0 }),
            r.local_who == -1,
            r.local_play == -1,
            r.pop_limit_index == 255,
            r.last_feedback@.len() == 0,
    {
        EndProcessState {
            players: [
                EndPlayer { flags: 0, who: 0, pop_cap_frame: 0 },
                EndPlayer { flags: 0, who: 1, pop_cap_frame: 0 },
                EndPlayer { flags: 0, who: 2, pop_cap_frame: 0 },
                EndPlayer { flags: 0, who: 3, pop_cap_frame: 0 },
                EndPlayer { flags: 0, who: 4, pop_cap_frame: 0 },
                EndPlayer { flags: 0, who: 5, pop_cap_frame: 0 },
                EndPlayer { flags: 0, who: 6, pop_cap_frame: 0 },
                EndPlayer { flags: 0, who: 7, pop_cap_frame: 0 },
            ],
            local_who: -1,
            local_play: -1,
            pop_limit_index: 255,
            last_feedback: Vec::new(),
        }
    }
}

/// One reached `JukeBox::set_next_mood` presentation call from step 19.
#[derive(Clone, Copy, PartialEq, Eq, Debug)]
pub struct CombatMoodRequest {
    pub leader_index: usize,
    pub mood: i32,
    /// Quiet with no combat, or a high-rate transition out of the quiet mood.
    pub force: bool,
}

/// The two `Achieve::add_event` kinds emitted by the lopsided-battle detector.
#[derive(Clone, Copy, PartialEq, Eq, Debug)]
pub enum BattleAchievementKind {
    KillsOverDeaths,
    DeathsOverKills,
}

impl BattleAchievementKind {
    /// The event number: 0 for kills over deaths, 1 for deaths over kills.
    pub fn code(self) -> (r: i32)
        ensures
            r == (match self {
                BattleAchievementKind::KillsOverDeaths => 0i32,
                BattleAchievementKind::DeathsOverKills => 1i32,
            }),
    {
        match self {
            BattleAchievementKind::KillsOverDeaths => 0,
            BattleAchievementKind::DeathsOverKills => 1,
        }
    }
}

/// One reached `Achieve::add_event(kind, who, EMPTY_STRING)` call from step 19.
#[derive(Clone, Copy, PartialEq, Eq, Debug)]
pub struct BattleAchievementEvent {
    pub leader_index: usize,
    pub who: i32,
    pub kind: BattleAchievementKind,
}

/// The ordered product boundary of the most recent step-19 dispatcher call: every reached
/// call with its shared sequence number, leader, call address and arguments.
#[derive(Clone, Debug, Default, PartialEq, Eq)]
pub struct EventProductOutbox {
    pub last_calls: Vec<step19::HostTailReceipt>,
}

/// Presentation-owned globals touched by step 19.
#[derive(Clone, Debug, PartialEq, Eq, Default)]
pub struct EventProcessState {
    /// JukeBox current mood at `0x00ECBA20`.
    pub current_music_mood: i32,
    /// Requested mood at `0x00ECBA2C`.
    pub next_music_mood: i32,
    pub product_outbox: EventProductOutbox,
    pub last_mood_requests: Vec<CombatMoodRequest>,
    pub last_achievement_events: Vec<BattleAchievementEvent>,
}

/// The tech, tribe and wonder answers `calc_attrition` and `calc_anti_attrition` obtain by
/// querying the leader, one field per call.
#[derive(Clone, Copy, PartialEq, Eq, Debug, Default)]
pub struct AttritionGates {
    /// `has_preq` for type indices `0x2DD..=0x2E0`, consumed as a consecutive run.
    pub attrition_preqs: [bool; 4],
    pub colosseum: bool,
    pub russian: bool,
    pub conquest_mode: bool,
    pub kremlin: bool,
    /// The anti-attrition upgrades, tested highest first.
    pub anti_preqs: [bool; 3],
    pub liberty: bool,
    pub mongol: bool,
}

/// The type-table rows consumed by `Object::update_hits`: the base row and the three
/// alternates used only by the special type families `0x32/0x33`.
#[derive(Clone, Copy, PartialEq, Eq, Debug, Default)]
pub struct ObjectHitInputs {
    pub base_hits: i32,
    pub special_family_32_33: bool,
    pub type_42_hits: i32,
    pub type_43_hits: i32,
    pub type_44_hits: i32,
    pub owner_policy: u8,
}

/// Object and type query answers consumed by `ObjectData::armor` `0x00647DB0`.
#[derive(Clone, Copy, PartialEq, Eq, Debug, Default)]
pub struct UnitArmorInputs {
    pub type_armor: i32,
    pub dutch: bool,
    pub dutch_armor_eligible: bool,
    pub type_id: i32,
    pub caravan: bool,
    pub supply: bool,
    pub patch_version: i32,
    pub gov_hero: bool,
    pub special_family_32_33: bool,
}

/// Direct-field and virtual-query answers consumed by `Unit::update_speed` `0x006055C0`.
#[derive(Clone, Copy, PartialEq, Eq, Debug, Default)]
pub struct UnitSpeedInputs {
    pub type_moves: i32,
    pub domain: i32,
    pub unit_flags: u32,
    pub unit_data_flags: u32,
    pub military_epoch: i32,
    pub has_objmask_2000: bool,
    pub is_68: bool,
    pub is_66: bool,
    pub is_64: bool,
    pub is_62: bool,
    pub is_42: bool,
    pub is_3a: bool,
    pub type_line: i32,
    pub type_id: i32,
    pub bantu: bool,
    pub french: bool,
    pub versailles: bool,
    pub spy_upgrade: i32,
    pub hero: bool,
    pub general_upgrade: i32,
    pub supply: bool,
    pub supply_upgrade: i32,
    pub aztec: bool,
}

/// Decoded leader state queried by `Unit::update_speed` and `ObjectData::armor`. A new game
/// starts at military epoch zero with no tribe bonuses, wonders or unit upgrades, at patch
/// version 8.
#[derive(Clone, Copy, PartialEq, Eq, Debug)]
pub struct UnitLeaderStatState {
    pub military_epoch: i32,
    /// `LeaderData::has_tribe_bonus(n)`, for the 24 shipped nation slots.
    pub tribe_bonuses: u32,
    pub versailles: bool,
    pub spy_upgrade: i32,
    pub general_upgrade: i32,
    pub supply_upgrade: i32,
    pub patch_version: i32,
}

impl Default for UnitLeaderStatState {
    fn default() -> (r: Self)
        ensures
            r == (UnitLeaderStatState {
                military_epoch: 0,
                tribe_bonuses: 0,
                versailles: false,
                spy_upgrade: 0,
                general_upgrade: 0,
                supply_upgrade: 0,
                patch_version: 8,
            }),
    {
        UnitLeaderStatState {
            military_epoch: 0,
            tribe_bonuses: 0,
            versailles: false,
            spy_upgrade: 0,
            general_upgrade: 0,
            supply_upgrade: 0,
            patch_version: 8,
        }
    }
}

/// Tribe bonus `bonus` of a bonus word: bit `bonus`, for `bonus < 32`.
pub open spec fn tribe_bit(word: u32, bonus: u32) -> bool {
    bonus < 32 && word & (1u32 << bonus) != 0
}

impl UnitLeaderStatState {
    pub fn has_tribe_bonus(self, bonus: u32) -> (r: bool)
        ensures
            r == tribe_bit(self.tribe_bonuses, bonus),
    {
        bonus < 32 && self.tribe_bonuses & (1u32 << bonus) != 0
    }

    /// Set or clear tribe bonus `bonus`; one at 32 or above leaves the state unchanged.
    /// Every other bonus keeps its answer.
    pub fn set_tribe_bonus(&mut self, bonus: u32, present: bool)
        ensures
            bonus >= 32 ==> *final(self) == *old(self),
            bonus < 32 ==> *final(self) == (UnitLeaderStatState {
                tribe_bonuses: if present {
                    old(self).tribe_bonuses | (1u32 << bonus)
                } else {
                    old(self).tribe_bonuses & !(1u32 << bonus)
                },
                ..*old(self)
            }),
            forall|b: u32|
                tribe_bit(final(self).tribe_bonuses, b) == if b == bonus && bonus < 32 {
                    present
                } else {
                    tribe_bit(old(self).tribe_bonuses, b)
                },
    {
        if bonus >= 32 {
            return;
        }
        let old_word = self.tribe_bonuses;
        if present {
            self.tribe_bonuses = old_word | (1u32 << bonus);
        } else {
            self.tribe_bonuses = old_word & !(1u32 << bonus);
        }
        proof {
            lemma_word_bits();
        }
    }
}

/// Single-bit facts about a word: setting and clearing.
proof fn lemma_word_bits()
    by (bit_vector)
    ensures
        forall|x: u32, j: u32, k: u32|
            j < 32 && k < 32 ==> (((x | (1u32 << j)) & (1u32 << k)) != 0) == (j == k || (x & (
            1u32 << k)) != 0),
        forall|x: u32, j: u32, k: u32|
            j < 32 && k < 32 ==> (((x & !(1u32 << j)) & (1u32 << k)) != 0) == (j != k && (x & (
            1u32 << k)) != 0),
{
}

/// Live object facts that select a shipped `UnitTypeData` row.
#[derive(Clone, Copy, PartialEq, Eq, Debug, Default)]
pub struct UnitQuerySource {
    pub type_id: i32,
    pub unit_masks2: u32,
}

/// Mutable type fields substituted after the shipped structural query package is rebuilt.
#[derive(Clone, Copy, PartialEq, Eq, Debug)]
pub struct UnitTypeStatOverride {
    pub type_id: i32,
    pub moves: i32,
    pub armor: i32,
}

/// The supported post-load Unit table covers the 364 consecutive type slots 50..414.
pub const UNIT_TYPE_STAT_FIRST: i32 = 50;
pub const UNIT_TYPE_STAT_END: i32 = 414;
pub const UNIT_TYPE_STAT_ROWS: usize = 364;

/// SHA-256 of the supported post-load `live-tables-unit.tsv` capture: an admission
/// identity supplied by the runtime loader.
pub const SUPPORTED_UNIT_TYPE_STAT_TSV_SHA256: [u8; 32] = [
    0x59, 0xf5, 0x28, 0x7f, 0x4c, 0x33, 0x87, 0x61, 0x7b, 0xfe, 0x76, 0xab, 0x26, 0x10, 0xc2, 0x42,
    0x23, 0xb2, 0x22, 0x0e, 0xe0, 0xbd, 0xf0, 0xe0, 0x84, 0xaa, 0xe0, 0x28, 0xc5, 0x7a, 0x90, 0xd5,
];

/// Identity attached by the local extractor and loader to one post-load Unit stat source.
#[derive(Clone, Copy, PartialEq, Eq, Debug)]
pub struct UnitTypeStatSourceProvenance {
    pub executable_sha256: [u8; 32],
    pub table_sha256: [u8; 32],
}

/// Object- and type-local query answers consumed by `Wall::update_construct_time`
/// `0x0063D560`.
#[derive(Clone, Copy, PartialEq, Eq, Debug, Default)]
pub struct WallConstructTimeInputs {
    /// `TypeData::time(who)`, the unsigned seed of the whole chain.
    pub type_time: u32,
    pub is_wonder: bool,
    pub is_airdefense: bool,
    pub is_fort: bool,
}

/// Global query answers consumed by the percentage chain in `Wall::update_hits`
/// `0x0063F0D0`.
#[derive(Clone, Copy, PartialEq, Eq, Debug, Default)]
pub struct WallHitInputs {
    pub maya: bool,
    pub roman: bool,
    pub is_city_type: bool,
    pub is_tower_1b7: bool,
    pub is_wonder: bool,
    pub building_hp_upgrade: i32,
    pub taj_mahal: bool,
    pub red_fort: bool,
    pub is_fort_1b4: bool,
    pub nubian: bool,
    pub noncapital_city_gate: bool,
    pub linked_city: bool,
    pub linked_city_count: i32,
    pub linked_city_is_capital: bool,
    pub has_preq_2cd: bool,
    pub capital_building_upgrade: i32,
    pub tikal: bool,
    pub ctw_mode: bool,
    pub ctw_rare_20: bool,
    pub can_carry_domain_2: bool,
}

/// Global type and leader query answers consumed by `Wall::update_los` `0x0063EEB0`.
#[derive(Clone, Copy, PartialEq, Eq, Debug, Default)]
pub struct WallLosInputs {
    pub science_level: i8,
    pub type_science_los: i8,
    pub is_wonder: bool,
    pub is_city_type: bool,
    pub is_tower_1b7: bool,
    pub city_range_upgrade: i32,
    pub tower_range_upgrade: i32,
    pub colosseum: bool,
    pub footprint_x: i32,
}

/// One entry of an `Objects` band, as the two stat passes observe it through the vtable.
/// `None` in a type-table input means the caller has not supplied that row; the call is
/// then unresolved and leaves walked state untouched.
#[derive(Clone, Copy, PartialEq, Eq, Debug, Default)]
pub struct StatObject {
    pub active: bool,
    pub wall_active: bool,
    pub captain: bool,
    pub hit_inputs: Option<ObjectHitInputs>,
    pub type_los: Option<i8>,
    /// Whether the owning leader has its `flags & 1` bit set.
    pub owner_in_game: bool,
    pub myhits: i32,
    pub mylos: i8,
    pub armor_inputs: Option<UnitArmorInputs>,
    pub speed_inputs: Option<UnitSpeedInputs>,
    pub unit_query_source: Option<UnitQuerySource>,
    pub wall_hit_inputs: Option<WallHitInputs>,
    pub wall_los_inputs: Option<WallLosInputs>,
    pub wall_construct_time_inputs: Option<WallConstructTimeInputs>,
    pub o_down: Option<usize>,
    pub myarmor: i16,
    pub myspeed: i16,
    pub armor_written: bool,
    pub speed_written: bool,
    pub wall_started: bool,
    pub wall_city_flag: bool,
    pub job_counter: u32,
    pub constr_time: u32,
    pub construct_hits: i32,
    pub damage: i32,
    pub inside_down: i16,
    pub wall_hits_written: bool,
    pub wall_los_written: bool,
    pub construct_time_written: bool,
    pub eject_contents_requested: bool,
    pub v160_calls: u32,
    pub v15c_calls: u32,
    pub construct_time_updates: u32,
    pub construct_time_resolved: u32,
    pub speed_updates: u32,
    pub armor_updates: u32,
    pub object_hits_updates: u32,
    pub object_los_updates: u32,
    pub unit_armor_updates: u32,
    pub unit_speed_updates: u32,
    pub unit_query_populations: u32,
    pub unit_query_misses: u32,
    pub wall_hits_updates: u32,
    pub wall_los_updates: u32,
}

/// What one stat pass did, so "it ran" is a number instead of an assertion.
#[derive(Clone, Copy, PartialEq, Eq, Debug, Default)]
pub struct StatPassCounts {
    pub visited: u32,
    pub active: u32,
    pub construct_time_updates: u32,
    pub construct_time_resolved: u32,
    pub speed_updates: u32,
    pub armor_updates: u32,
    pub object_hits_updates: u32,
    pub object_los_updates: u32,
    pub unit_armor_updates: u32,
    pub unit_speed_updates: u32,
    pub unit_query_populations: u32,
    pub unit_query_misses: u32,
    pub wall_hits_updates: u32,
    pub wall_los_updates: u32,
    pub eject_contents_calls: u32,
    pub unresolved_calls: u32,
}

impl StatPassCounts {
    /// Add another pass's counts, field by field; the sums must fit.
    pub fn add(&mut self, other: StatPassCounts)
        requires
            old(self).visited + other.visited <= u32::MAX,
            old(self).active + other.active <= u32::MAX,
            old(self).construct_time_updates + other.construct_time_updates <= u32::MAX,
            old(self).construct_time_resolved + other.construct_time_resolved <= u32::MAX,
            old(self).speed_updates + other.speed_updates <= u32::MAX,
            old(self).armor_updates + other.armor_updates <= u32::MAX,
            old(self).object_hits_updates + other.object_hits_updates <= u32::MAX,
            old(self).object_los_updates + other.object_los_updates <= u32::MAX,
            old(self).unit_armor_updates + other.unit_armor_updates <= u32::MAX,
            old(self).unit_speed_updates + other.unit_speed_updates <= u32::MAX,
            old(self).unit_query_populations + other.unit_query_populations <= u32::MAX,
            old(self).unit_query_misses + other.unit_query_misses <= u32::MAX,
            old(self).wall_hits_updates + other.wall_hits_updates <= u32::MAX,
            old(self).wall_los_updates + other.wall_los_updates <= u32::MAX,
            old(self).eject_contents_calls + other.eject_contents_calls <= u32::MAX,
            old(self).unresolved_calls + other.unresolved_calls <= u32::MAX,
        ensures
            final(self).visited == old(self).visited + other.visited,
            final(self).active == old(self).active + other.active,
            final(self).construct_time_updates == old(self).construct_time_updates + other.construct_time_updates,
            final(self).construct_time_resolved == old(self).construct_time_resolved + other.construct_time_resolved,
            final(self).speed_updates == old(self).speed_updates + other.speed_updates,
            final(self).armor_updates == old(self).armor_updates + other.armor_updates,
            final(self).object_hits_updates == old(self).object_hits_updates + other.object_hits_updates,
            final(self).object_los_updates == old(self).object_los_updates + other.object_los_updates,
            final(self).unit_armor_updates == old(self).unit_armor_updates + other.unit_armor_updates,
            final(self).unit_speed_updates == old(self).unit_speed_updates + other.unit_speed_updates,
            final(self).unit_query_populations == old(self).unit_query_populations + other.unit_query_populations,
            final(self).unit_query_misses == old(self).unit_query_misses + other.unit_query_misses,
            final(self).wall_hits_updates == old(self).wall_hits_updates + other.wall_hits_updates,
            final(self).wall_los_updates == old(self).wall_los_updates + other.wall_los_updates,
            final(self).eject_contents_calls == old(self).eject_contents_calls + other.eject_contents_calls,
            final(self).unresolved_calls == old(self).unresolved_calls + other.unresolved_calls,
    {
        self.visited = self.visited + other.visited;
        self.active = self.active + other.active;
        self.construct_time_updates = self.construct_time_updates + other.construct_time_updates;
        self.construct_time_resolved = self.construct_time_resolved + other.construct_time_resolved;
        self.speed_updates = self.speed_updates + other.speed_updates;
        self.armor_updates = self.armor_updates + other.armor_updates;
        self.object_hits_updates = self.object_hits_updates + other.object_hits_updates;
        self.object_los_updates = self.object_los_updates + other.object_los_updates;
        self.unit_armor_updates = self.unit_armor_updates + other.unit_armor_updates;
        self.unit_speed_updates = self.unit_speed_updates + other.unit_speed_updates;
        self.unit_query_populations = self.unit_query_populations + other.unit_query_populations;
        self.unit_query_misses = self.unit_query_misses + other.unit_query_misses;
        self.wall_hits_updates = self.wall_hits_updates + other.wall_hits_updates;
        self.wall_los_updates = self.wall_los_updates + other.wall_los_updates;
        self.eject_contents_calls = self.eject_contents_calls + other.eject_contents_calls;
        self.unresolved_calls = self.unresolved_calls + other.unresolved_calls;
    }
}

/// The hits `Object::update_hits` selects from a type row: the base row, except for the
/// special families `0x32/0x33`, which take type `0x44`, `0x43`, then `0x42` for owner
/// policy bits `0x10`, `0x08`, then `0x04`.
pub open spec fn selected_hits(i: ObjectHitInputs) -> i32 {
    if !i.special_family_32_33 {
        i.base_hits
    } else if i.owner_policy & 0x10 != 0 {
        i.type_44_hits
    } else if i.owner_policy & 0x08 != 0 {
        i.type_43_hits
    } else if i.owner_policy & 0x04 != 0 {
        i.type_42_hits
    } else {
        i.base_hits
    }
}

/// `Object::update_hits(int full)` `0x00647010`, the base implementation at vtable
/// `+0x15C`. Without a type row nothing changes; with one, `myhits` takes the selected hits,
/// the update counter moves (wrapping) and the hits are returned. `full` selects the return
/// value only in the `Wall` override.
pub fn object_update_hits(o: &mut StatObject, _full: bool) -> (r: Option<i32>)
    ensures
        match old(o).hit_inputs {
            None => r is None && *final(o) == *old(o),
            Some(i) => {
                &&& r == Some(selected_hits(i))
                &&& *final(o) == (StatObject {
                    myhits: selected_hits(i),
                    object_hits_updates: old(o).object_hits_updates.wrapping_add(1),
                    ..*old(o)
                })
            },
        },
{
    let i = match o.hit_inputs {
        Some(i) => i,
        None => {
            return None;
        },
    };
    let hits = if !i.special_family_32_33 {
        i.base_hits
    } else if i.owner_policy & 0x10 != 0 {
        i.type_44_hits
    } else if i.owner_policy & 0x08 != 0 {
        i.type_43_hits
    } else if i.owner_policy & 0x04 != 0 {
        i.type_42_hits
    } else {
        i.base_hits
    };
    o.myhits = hits;
    o.object_hits_updates = o.object_hits_updates.wrapping_add(1);
    Some(hits)
}

/// `Object::update_los()` `0x00646FE0`, the base implementation at vtable `+0x160`: an
/// out-of-game owner stores zero, otherwise the type's line of sight is stored.
pub fn object_update_los(o: &mut StatObject) -> (r: Option<i32>)
    ensures
        match old(o).type_los {
            None => r is None && *final(o) == *old(o),
            Some(base) => {
                let los: i8 = if old(o).owner_in_game {
                    base
                } else {
                    0i8
                };
                &&& r == Some(los as i32)
                &&& *final(o) == (StatObject {
                    mylos: los,
                    object_los_updates: old(o).object_los_updates.wrapping_add(1),
                    ..*old(o)
                })
            },
        },
{
    let base = match o.type_los {
        Some(b) => b,
        None => {
            return None;
        },
    };
    o.mylos = if o.owner_in_game {
        base
    } else {
        0
    };
    o.object_los_updates = o.object_los_updates.wrapping_add(1);
    Some(o.mylos as i32)
}

/// Result of the `Wall::update_hits` override; the ejection call is exposed separately.
#[derive(Clone, Copy, PartialEq, Eq, Debug)]
pub struct WallHitOutcome {
    pub returned_hits: i32,
    pub eject_contents: bool,
}

/// The two `Objects` bands `Leader::calc_wall_stats` walks (buildings from index 2000, walls
/// from 3000), and the unit band `Leader::calc_unit_stats` walks.
#[derive(Clone, Debug, Default)]
pub struct OwnerObjects {
    pub band_2000: Vec<StatObject>,
    pub band_3000: Vec<StatObject>,
    pub units: Vec<StatObject>,
}

/// One `Leader::process_taunt` `0x006B8CC0` call the engine would have made.
#[derive(Clone, Copy, PartialEq, Eq, Debug)]
pub struct TauntDispatch {
    pub slot: usize,
    pub kind: i32,
    pub arg: i32,
    /// Which of the eight table entries fired.
    pub entry: usize,
}

// ---------------------------------------------------------------------------------------
// Leader::check_explore 0x006BC860 / Leaders::strategy_all 0x006ED430
// ---------------------------------------------------------------------------------------

/// The `BonusType` queried by `Leader::check_explore`; its one prerequisite is Electronics.
pub const EXPLORE_ALL_BONUS: i32 = 0x2B2;
pub const EXPLORE_ALL_PREREQ: usize = 556;
/// `mov eax, 200` at `0x006BC87E`; divided by `GameAccess::ai_speed`.
pub const EXPLORE_PERIOD_BASE: i32 = 200;
/// Each leader's recount phase advances by 25 frames.
pub const EXPLORE_SLOT_PHASE: i32 = 25;
/// The final `+ 12` in the dividend at `0x006BC890`.
pub const EXPLORE_PHASE_BIAS: i32 = 12;

/// The `WorldData` view consumed by `Leader::check_explore`: region dimensions and the
/// persistent fog plane `seen2`, sampled at `(4*x + 3, 4*y + 3)`.
#[derive(Clone, Copy, Debug)]
pub struct ExploreWorld<'a> {
    pub reg_xs: i32,
    pub reg_ys: i32,
    pub reg_size: i32,
    pub fog_xs: i32,
    pub seen2: &'a [u8],
}

/// What one reached `Leader::check_explore` call did.
#[derive(Clone, Copy, PartialEq, Eq, Debug, Default)]
pub enum ExploreUpdate {
    /// The player-specific phase did not fire; `Leader +0x9D4` is untouched.
    #[default]
    NotDue,
    /// The Electronics/bonus prerequisite makes the whole region grid explored.
    FullMap(i32),
    /// The sampled bits in `WorldData::seen2` were counted.
    Recounted(i32),
    /// A zero or overflowing AI period or an incomplete `seen2` plane.
    MissingFacts,
}

/// Inputs read by the `Leaders::strategy_all` dispatcher and its first child.
#[derive(Clone, Copy, Debug)]
pub struct StrategyInputs<'a> {
    pub frame: i32,
    pub ai_speed: i32,
    pub world: ExploreWorld<'a>,
    pub has_explore_preq: [Option<bool>; 8],
    /// Game semaphore bit 9; gates the tail call.
    pub check_victory_mode: bool,
}

/// One call boundary in `Leaders::strategy_all`, in order.
#[derive(Clone, Copy, PartialEq, Eq, Debug)]
pub enum StrategyCall {
    CheckExplore { slot: usize, update: ExploreUpdate },
    PlanStrategy(usize),
    ComputeScore { slot: usize, force: i32 },
    Diplomacy(usize),
    CheckVictory,
}

/// Measured execution of step 11.
#[derive(Clone, Debug, Default, PartialEq, Eq)]
pub struct StrategyTrace {
    pub processed: [bool; 8],
    pub explore: [ExploreUpdate; 8],
    pub calls: Vec<StrategyCall>,
}

/// The number of entries of a sequence of updates that are missing facts.
pub open spec fn count_missing(s: Seq<ExploreUpdate>) -> nat
    decreases s.len(),
{
    if s.len() == 0 {
        0
    } else {
        count_missing(s.drop_last()) + if s.last() is MissingFacts {
            1nat
        } else {
            0nat
        }
    }
}

impl StrategyTrace {
    /// How many leaders entered the loop.
    pub fn leaders_processed(&self) -> (r: usize)
        ensures
            r == count_true(self.processed@),
    {
        count_set(&self.processed)
    }

    /// How many explore updates are missing facts.
    pub fn unresolved_explore(&self) -> (r: usize)
        ensures
            r == count_missing(self.explore@),
    {
        let mut n: usize = 0;
        let mut i: usize = 0;
        while i < 8
            invariant
                i <= 8,
                n == count_missing(self.explore@.subrange(0, i as int)),
                n <= i,
            decreases 8 - i,
        {
            assert(self.explore@.subrange(0, i + 1).drop_last() =~= self.explore@.subrange(
                0,
                i as int,
            ));
            if matches!(self.explore[i], ExploreUpdate::MissingFacts) {
                n = n + 1;
            }
            i = i + 1;
        }
        assert(self.explore@.subrange(0, 8) =~= self.explore@);
        n
    }
}

// ---------------------------------------------------------------------------------------
// Leaders::end_process_all 0x006ED070
// ---------------------------------------------------------------------------------------

/// One `GameInfo::Player::flags &= 0xf7ff` write from the zero-issues branch.
#[derive(Clone, Copy, PartialEq, Eq, Debug)]
pub struct PopulationWarningClear {
    pub leader_index: usize,
    pub leader_who: i32,
    pub player_index: usize,
}

/// One write to `GameInfo::Player::pop_cap_frame` from the rate-limit branch.
#[derive(Clone, Copy, PartialEq, Eq, Debug)]
pub struct PopulationCapStamp {
    pub leader_index: usize,
    pub player_index: usize,
    pub frame: i32,
}

/// Host facts that the engine guarantees but a lightweight simulation may omit.
#[derive(Clone, Copy, PartialEq, Eq, Debug)]
pub enum EndProcessMissingFact {
    LocalPlayerIndex(i32),
    PopulationLimitIndex(u8),
}

/// Measured execution of step 17.
#[derive(Clone, Debug, Default, PartialEq, Eq)]
pub struct EndProcessTrace {
    pub processed: [bool; 8],
    pub warning_clears: Vec<PopulationWarningClear>,
    pub stamp_writes: Vec<PopulationCapStamp>,
    pub feedback: Vec<PopulationCapFeedback>,
    pub missing_facts: Vec<EndProcessMissingFact>,
}

impl EndProcessTrace {
    /// How many leaders passed the `flags & 2` gate.
    pub fn leaders_processed(&self) -> (r: usize)
        ensures
            r == count_true(self.processed@),
    {
        count_set(&self.processed)
    }
}

// ---------------------------------------------------------------------------------------
// Leader::process_event_frame 0x006EC180
// ---------------------------------------------------------------------------------------

pub const EVENT_RATE_PERIOD: i32 = 50;
pub const EVENT_RATE_SCALE: u16 = 100;
pub const COMBAT_MOOD_QUIET_THRESHOLD: u32 = 300;
pub const COMBAT_MOOD_ACTIVE_THRESHOLD: u32 = 600;
pub const COMBAT_MOOD_FORCE_THRESHOLD: u32 = 2000;
pub const COMBAT_SCORE_BIAS: i32 = 200;
pub const BATTLE_EVENT_COOLDOWN: i32 = 1800;
pub const BATTLE_RATE_PER_AGE: i32 = 125;
pub const BATTLE_IMBALANCE_PER_AGE: i32 = 10;
pub const BATTLE_IMBALANCE_BASE: i32 = 20;
pub const BATTLE_RATE_SENTINEL: u16 = 0xFC18;

/// Non-leader inputs reached by the step-19 body: ages indexed by player `who`, team
/// scores by leader record.
#[derive(Clone, Copy, PartialEq, Eq, Debug)]
pub struct EventFrameInputs {
    pub frame: i32,
    pub age_by_who: [Option<i32>; 8],
    pub team_scores: [Option<i32>; 8],
}

#[derive(Clone, Copy, PartialEq, Eq, Debug)]
pub enum EventFrameMissingFact {
    AgeForWho(i32),
    LocalLeaderSlot(i32),
    OtherLeaderSlot { leader_index: usize, who: i32 },
    TeamScoreForLeader(usize),
}

/// Measured execution of the step-19 dispatcher and body.
#[derive(Clone, Debug, Default, PartialEq, Eq)]
pub struct EventFrameTrace {
    /// Passed the `flags & 1` gate.
    pub dispatched: [bool; 8],
    /// Passed the body's `frame % 50 == 0` gate.
    pub due: [bool; 8],
    pub mood_requests: Vec<CombatMoodRequest>,
    pub achievement_events: Vec<BattleAchievementEvent>,
    pub missing_facts: Vec<EventFrameMissingFact>,
    /// The receipt-complete trace, keeping the order between leader writes, product reads,
    /// host tails and residuals.
    pub exact: step19::Step19Trace,
}

impl EventFrameTrace {
    pub fn leaders_dispatched(&self) -> (r: usize)
        ensures
            r == count_true(self.dispatched@),
    {
        count_set(&self.dispatched)
    }

    pub fn leaders_due(&self) -> (r: usize)
        ensures
            r == count_true(self.due@),
    {
        count_set(&self.due)
    }
}

/// Everything the step-8 driver has done since it was built.
#[derive(Clone, Copy, PartialEq, Eq, Debug, Default)]
pub struct DriverTotals {
    pub frames: u64,
    pub leader_frames: u64,
    pub gathers: u64,
    pub gross_recomputes: u64,
    pub wall_stat_passes: u64,
    pub unit_stat_passes: u64,
    pub elimination_calls: u64,
    pub taunts: u64,
    pub timer_creeps: u64,
    pub whole_resources_credited: [i64; 6],
}

// ---------------------------------------------------------------------------------------
// The stat and exploration bodies, over the leader fields they read.
// ---------------------------------------------------------------------------------------

/// One `LeaderData` record as plain values: every field the leader steps read or write.
/// The economy block is held only by its decoded age, and the f32 attrition-resistance
/// scale is not held at all.
#[derive(Clone, Copy, PartialEq, Eq, Debug)]
pub struct Leader {
    /// `+0x00`.
    pub flags: u32,
    /// `+0x08`.
    pub slot: i32,
    /// `+0x74`, indexed by the other leader's slot.
    pub diplo: [i32; 8],
    /// `+0x394`.
    pub taunt_kind: [i32; 8],
    /// `+0x3B4`.
    pub taunt_arg: [i32; 8],
    /// `+0x3D4`.
    pub taunt_frame: [i32; 8],
    /// `+0x414/+0x418`, `+0x440/+0x444`, `+0x448/+0x44C`, in that order.
    pub timers: [GraceTimer; 3],
    /// `+0x41C`.
    pub retake_scale: i32,
    /// `+0x7E4`.
    pub pop_cap: i32,
    /// `+0x7E8`.
    pub pop_issues: i32,
    /// `+0x9F4`.
    pub frame_counter_b: i32,
    /// `+0x7F0`.
    pub attrition: i32,
    /// `+0x7F8`.
    pub attrition_off: i32,
    /// `+0x7FC`.
    pub anti_attrition_off: i32,
    /// `+0x800`.
    pub neutral_attrition: i32,
    /// `+0x804`.
    pub building_attrition_off: i32,
    /// `+0x9D4`, rebuilt by [`check_explore`].
    pub explored: i32,
    /// `+0xA4C..+0xA66`, processed at step 19.
    pub event_frame: EventFrameState,
    /// `+0x6900`, the conquest gate byte.
    pub conquest_byte: u8,
    /// `+0x6D98` payload.
    pub rare_effective: RareMask,
    /// `+0x6DAC` payload.
    pub rare_a: RareMask,
    /// `+0x6DC0` payload.
    pub rare_b: RareMask,
    /// The decoded age of the economy block.
    pub age: i32,
    /// The gather recompute stamp.
    pub last_calc_frame: i32,
    /// The economy-dirty bit, held apart from `flags`.
    pub econ_dirty: bool,
    /// The decoded unit query answers.
    pub unit_stats: UnitLeaderStatState,
    /// `LeaderData::city_num` (`+0x3F8`).
    pub city_num: i32,
    /// The decoded building query answers.
    pub build_stats: BuildLeaderStatState,
}

/// Eight zeros.
pub open spec fn zeros8() -> [i32; 8] {
    [0i32, 0, 0, 0, 0, 0, 0, 0]
}

/// A leader in no game at all: every field zero but its slot, the empty rare masks and
/// the default query answers.
pub open spec fn fresh_leader(slot: i32) -> Leader {
    Leader {
        flags: 0,
        slot,
        diplo: zeros8(),
        taunt_kind: zeros8(),
        taunt_arg: zeros8(),
        taunt_frame: zeros8(),
        timers: [GraceTimer { value: 0, frozen: 0 }, GraceTimer { value: 0, frozen: 0 }, GraceTimer { value: 0, frozen: 0 }],
        retake_scale: 0,
        pop_cap: 0,
        pop_issues: 0,
        frame_counter_b: 0,
        attrition: 0,
        attrition_off: 0,
        anti_attrition_off: 0,
        neutral_attrition: 0,
        building_attrition_off: 0,
        explored: 0,
        event_frame: EventFrameState {
            frame_battle: 0,
            average_death_rate: 0,
            average_kill_rate: 0,
            average_damage_rate: 0,
            average_hit_rate: 0,
            deaths_current_frame: 0,
            kills_current_frame: 0,
            hits_current_frame: 0,
            damage_current_frame: 0,
            deaths_fifteen_seconds: 0,
            kills_fifteen_seconds: 0,
            hits_fifteen_seconds: 0,
            damage_fifteen_seconds: 0,
        },
        conquest_byte: 0,
        rare_effective: RareMask { bytes: [0u8, 0, 0, 0, 0, 0] },
        rare_a: RareMask { bytes: [0u8, 0, 0, 0, 0, 0] },
        rare_b: RareMask { bytes: [0u8, 0, 0, 0, 0, 0] },
        age: 0,
        last_calc_frame: 0,
        econ_dirty: false,
        unit_stats: UnitLeaderStatState {
            military_epoch: 0,
            tribe_bonuses: 0,
            versailles: false,
            spy_upgrade: 0,
            general_upgrade: 0,
            supply_upgrade: 0,
            patch_version: 8,
        },
        city_num: 0,
        build_stats: BuildLeaderStatState { buildings_created_faster: false, buildings_faster: [false, false, false] },
    }
}

impl Leader {
    /// A leader in no game at all: every flag clear, so no step takes it.
    pub fn new(slot: i32) -> (r: Leader)
        ensures
            r == fresh_leader(slot),
    {
        let z: [i32; 8] = [0, 0, 0, 0, 0, 0, 0, 0];
        let t = GraceTimer { value: 0, frozen: 0 };
        Leader {
            flags: 0,
            slot,
            diplo: z,
            taunt_kind: z,
            taunt_arg: z,
            taunt_frame: z,
            timers: [t, t, t],
            retake_scale: 0,
            pop_cap: 0,
            pop_issues: 0,
            frame_counter_b: 0,
            attrition: 0,
            attrition_off: 0,
            anti_attrition_off: 0,
            neutral_attrition: 0,
            building_attrition_off: 0,
            explored: 0,
            event_frame: EventFrameState {
                frame_battle: 0,
                average_death_rate: 0,
                average_kill_rate: 0,
                average_damage_rate: 0,
                average_hit_rate: 0,
                deaths_current_frame: 0,
                kills_current_frame: 0,
                hits_current_frame: 0,
                damage_current_frame: 0,
                deaths_fifteen_seconds: 0,
                kills_fifteen_seconds: 0,
                hits_fifteen_seconds: 0,
                damage_fifteen_seconds: 0,
            },
            conquest_byte: 0,
            rare_effective: RareMask { bytes: [0, 0, 0, 0, 0, 0] },
            rare_a: RareMask { bytes: [0, 0, 0, 0, 0, 0] },
            rare_b: RareMask { bytes: [0, 0, 0, 0, 0, 0] },
            age: 0,
            last_calc_frame: 0,
            econ_dirty: false,
            unit_stats: UnitLeaderStatState::default(),
            build_stats: BuildLeaderStatState { buildings_created_faster: false, buildings_faster: [false, false, false] },
            city_num: 0,
        }
    }
}

impl Leader {
    /// Set the two bits that put a leader in the outer loop and in every diplomacy scan.
    pub fn activate(&mut self)
        ensures
            *final(self) == (Leader { flags: old(self).flags | (flag::IN_GAME | flag::PROCESS), ..*old(self) }),
    {
        self.flags = self.flags | (flag::IN_GAME | flag::PROCESS);
    }

    /// This leader's relation toward the leader of slot `other_slot`; zero for a slot
    /// outside the array.
    pub fn diplo_toward(&self, other_slot: i32) -> (r: i32)
        ensures
            r == diplo_toward_spec(*self, other_slot),
    {
        if 0 <= other_slot && other_slot < 8 {
            self.diplo[other_slot as usize]
        } else {
            0
        }
    }
}

/// The relation of `leader` toward slot `other`, zero outside the array.
pub open spec fn diplo_toward_spec(leader: Leader, other: i32) -> i32 {
    if 0 <= other < 8 {
        leader.diplo[other as int]
    } else {
        0
    }
}

/// Rare bit `b` of either mask the bodies test: the effective one or mask B.
pub open spec fn either_rare(leader: Leader, b: int) -> bool {
    leader.rare_effective.has_bit(b) || leader.rare_b.has_bit(b)
}

/// `ObjectData::armor()` `0x00647DB0`: the type armor, plus the leader's age times the
/// Dutch bonus for an eligible Dutch merchant, caravan, supply or wagon (not a government
/// hero past patch 8).
pub open spec fn object_armor_spec(input: UnitArmorInputs, leader: Leader, rules: Step8Rules) -> i32 {
    let base = input.type_armor;
    if !input.dutch || rules.dutch_attack_bonus == 0 || !input.dutch_armor_eligible {
        base
    } else if input.type_id != 0x3d && input.type_id != 0x3e && input.type_id != 400 && !input.caravan
        && !input.supply {
        base
    } else if input.patch_version > 8 && input.gov_hero {
        base
    } else {
        leader.age.wrapping_mul(rules.dutch_attack_bonus).wrapping_add(base)
    }
}

/// `ObjectData::armor()` `0x00647DB0` (215 bytes), every early return in order.
pub fn object_data_armor(input: &UnitArmorInputs, leader: &Leader, rules: &Step8Rules) -> (r: i32)
    ensures
        r == object_armor_spec(*input, *leader, *rules),
{
    let base = input.type_armor;
    if !input.dutch || rules.dutch_attack_bonus == 0 || !input.dutch_armor_eligible {
        return base;
    }
    if input.type_id != 0x3d && input.type_id != 0x3e && input.type_id != 400 && !input.caravan
        && !input.supply {
        return base;
    }
    if input.patch_version > 8 && input.gov_hero {
        return base;
    }
    leader.age.wrapping_mul(rules.dutch_attack_bonus).wrapping_add(base)
}

/// `(bonus + 100) * value / 100`, wrapping, divided toward zero.
pub open spec fn speed_percent_spec(value: i32, bonus: i32) -> i32 {
    trunc_div(bonus.wrapping_add(100).wrapping_mul(value) as int, 100) as i32
}

fn speed_percent(value: i32, bonus: i32) -> (r: i32)
    ensures
        r == speed_percent_spec(value, bonus),
{
    quot(bonus.wrapping_add(100).wrapping_mul(value), 100)
}

/// `value + upgrade * value / 4`, the quarter computed with the signed shift fixup.
pub open spec fn quarter_upgrade_spec(value: i32, upgrade: i32) -> i32 {
    let product = upgrade.wrapping_mul(value);
    let delta = product.wrapping_add((product >> 31u32) & 3) >> 2u32;
    value.wrapping_add(delta)
}

fn speed_quarter_upgrade(value: i32, upgrade: i32) -> (r: i32)
    ensures
        r == quarter_upgrade_spec(value, upgrade),
{
    let product = upgrade.wrapping_mul(value);
    let delta = product.wrapping_add((product >> 31u32) & 3) >> 2u32;
    value.wrapping_add(delta)
}

/// The `ObjectData::is` ladder of `Unit::update_speed`: 36/32, 34/32, 32/27 and 30/24
/// of the speed for types 0x68, 0x66, 0x64 and 0x62, with the emitted signed fixups.
pub open spec fn ladder_spec(input: UnitSpeedInputs, speed: i32) -> i32 {
    if input.is_68 {
        let product = speed.wrapping_mul(36);
        product.wrapping_add((product >> 31u32) & 31) >> 5u32
    } else if input.is_66 {
        let product = speed.wrapping_mul(34);
        product.wrapping_add((product >> 31u32) & 31) >> 5u32
    } else if input.is_64 {
        let product = speed.wrapping_mul(32);
        let divided = (trunc_div(product as int, 27) as i32).wrapping_add(product >> 31u32);
        divided.wrapping_sub(divided >> 31u32)
    } else if input.is_62 {
        let product = speed.wrapping_mul(30);
        let divided = (trunc_div(product as int, 24) as i32).wrapping_add(product >> 31u32);
        divided.wrapping_sub(divided >> 31u32)
    } else {
        speed
    }
}

/// The arithmetic body of `Unit::update_speed` `0x006055C0`, in branch order.
pub open spec fn unit_speed_spec(input: UnitSpeedInputs, leader: Leader, rules: Step8Rules) -> i32 {
    let s0 = input.type_moves;
    let s1 = if input.domain == 1 && input.unit_flags & 0x10 != 0 {
        s0.wrapping_add(input.military_epoch.wrapping_mul(rules.military_transport_bonus))
    } else {
        s0
    };
    let s2 = if input.unit_data_flags & 0x200 != 0 {
        s1.wrapping_add(input.military_epoch.wrapping_mul(rules.americans_marine_speed_bonus))
    } else {
        s1
    };
    let s3 = rules.unit_move_speed.wrapping_mul(s2);
    let s4 = if input.has_objmask_2000 && either_rare(leader, 25) {
        speed_percent_spec(s3, rules.whales_ships_move)
    } else {
        s3
    };
    let s5 = ladder_spec(input, s4);
    let s6 = if (input.type_line == 0x1ab || input.type_id == 0x32 || input.type_id == 0x33
        || input.is_42) && input.bantu {
        speed_percent_spec(s5, rules.bantu_units_move)
    } else {
        s5
    };
    let siege = input.type_line == 0x1ae || input.type_line == 0x1af;
    let s7 = if siege && input.french {
        speed_percent_spec(s6, rules.french_siege_move)
    } else {
        s6
    };
    let s8 = if siege && input.versailles {
        speed_percent_spec(s7, rules.versailles_units_move)
    } else {
        s7
    };
    let s9 = if input.domain == 2 && either_rare(leader, 24) {
        speed_percent_spec(s8, rules.aluminum_air_speed)
    } else {
        s8
    };
    let s10 = if input.is_3a {
        quarter_upgrade_spec(s9, input.spy_upgrade)
    } else {
        s9
    };
    let s11 = if input.hero {
        quarter_upgrade_spec(s10, input.general_upgrade)
    } else {
        s10
    };
    let s12 = if input.supply {
        quarter_upgrade_spec(s11, input.supply_upgrade)
    } else {
        s11
    };
    if (input.type_id == 0x32 || input.type_id == 0x33) && input.aztec {
        speed_percent_spec(s12, rules.aztec_move_speed)
    } else {
        s12
    }
}

/// The arithmetic body of `Unit::update_speed` `0x006055C0` after its captain climb.
/// Branch order and signed rounding follow the instructions; the `<< 5` of type 0x64 is a
/// wrapping multiply by 32.
pub fn unit_speed(input: &UnitSpeedInputs, leader: &Leader, rules: &Step8Rules) -> (r: i32)
    ensures
        r == unit_speed_spec(*input, *leader, *rules),
{
    let mut speed = input.type_moves;
    if input.domain == 1 && input.unit_flags & 0x10 != 0 {
        speed = speed.wrapping_add(input.military_epoch.wrapping_mul(rules.military_transport_bonus));
    }
    if input.unit_data_flags & 0x200 != 0 {
        speed = speed.wrapping_add(input.military_epoch.wrapping_mul(rules.americans_marine_speed_bonus));
    }
    speed = rules.unit_move_speed.wrapping_mul(speed);
    if input.has_objmask_2000 && (leader.rare_effective.get(25) || leader.rare_b.get(25)) {
        speed = speed_percent(speed, rules.whales_ships_move);
    }
    // The four `ObjectData::is` calls are an else-if ladder; the signed division fixups
    // are kept rather than simplified to positive-only ratios.
    speed = if input.is_68 {
        let product = speed.wrapping_mul(36);
        product.wrapping_add((product >> 31u32) & 31) >> 5u32
    } else if input.is_66 {
        let product = speed.wrapping_mul(34);
        product.wrapping_add((product >> 31u32) & 31) >> 5u32
    } else if input.is_64 {
        let product = speed.wrapping_mul(32);
        let divided = quot(product, 27).wrapping_add(product >> 31u32);
        divided.wrapping_sub(divided >> 31u32)
    } else if input.is_62 {
        let product = speed.wrapping_mul(30);
        let divided = quot(product, 24).wrapping_add(product >> 31u32);
        divided.wrapping_sub(divided >> 31u32)
    } else {
        speed
    };
    if (input.type_line == 0x1ab || input.type_id == 0x32 || input.type_id == 0x33 || input.is_42)
        && input.bantu {
        speed = speed_percent(speed, rules.bantu_units_move);
    }
    if input.type_line == 0x1ae || input.type_line == 0x1af {
        if input.french {
            speed = speed_percent(speed, rules.french_siege_move);
        }
        if input.versailles {
            speed = speed_percent(speed, rules.versailles_units_move);
        }
    }
    if input.domain == 2 && (leader.rare_effective.get(24) || leader.rare_b.get(24)) {
        speed = speed_percent(speed, rules.aluminum_air_speed);
    }
    if input.is_3a {
        speed = speed_quarter_upgrade(speed, input.spy_upgrade);
    }
    if input.hero {
        speed = speed_quarter_upgrade(speed, input.general_upgrade);
    }
    if input.supply {
        speed = speed_quarter_upgrade(speed, input.supply_upgrade);
    }
    if (input.type_id == 0x32 || input.type_id == 0x33) && input.aztec {
        speed = speed_percent(speed, rules.aztec_move_speed);
    }
    speed
}

/// The unit table after the stored value is copied down the `o_down` chain from `next`,
/// with at most `remaining` steps; `false` when the chain leaves the table or outruns the
/// step budget. `speed` selects the speed fields, otherwise the armor fields.
pub open spec fn spread_spec(units: Seq<StatObject>, next: Option<usize>, remaining: nat, stored: i16, speed: bool) -> (
    Seq<StatObject>,
    bool,
)
    decreases remaining,
{
    match next {
        None => (units, true),
        Some(i) => if remaining == 0 || i >= units.len() {
            (units, false)
        } else {
            let u = units[i as int];
            let u2 = if speed {
                StatObject { myspeed: stored, speed_written: true, ..u }
            } else {
                StatObject { myarmor: stored, armor_written: true, ..u }
            };
            spread_spec(units.update(i as int, u2), u.o_down, (remaining - 1) as nat, stored, speed)
        },
    }
}

/// Copy `stored` down the chain, as [`spread_spec`] says.
fn spread(units: &mut Vec<StatObject>, first: Option<usize>, stored: i16, speed: bool) -> (ok: bool)
    ensures
        (final(units)@, ok) == spread_spec(old(units)@, first, old(units)@.len(), stored, speed),
{
    let mut next = first;
    let mut remaining = units.len();
    let ghost total = units@.len();
    while next.is_some()
        invariant
            units@.len() == total,
            total == old(units)@.len(),
            remaining <= total,
            spread_spec(old(units)@, first, total, stored, speed) == spread_spec(units@, next, remaining as nat, stored, speed),
        decreases remaining,
    {
        let index = match next {
            Some(i) => i,
            None => 0,
        };
        assert(next == Some(index));
        if remaining == 0 || index >= units.len() {
            assert(spread_spec(units@, next, remaining as nat, stored, speed) == (units@, false));
            return false;
        }
        remaining = remaining - 1;
        let mut u = units[index];
        if speed {
            u.myspeed = stored;
            u.speed_written = true;
        } else {
            u.myarmor = stored;
            u.armor_written = true;
        }
        next = u.o_down;
        units[index] = u;
    }
    true
}

/// `Unit::update_speed` from the captain `Leader::calc_unit_stats` selected: the derived
/// speed is stored (truncated to 16 bits) on the captain, counted, and copied down its
/// `o_down` chain. Without the captain or its package nothing changes; a chain that leaves
/// the table ends the copy with `None`, after the stores already made.
pub fn unit_update_speed(units: &mut Vec<StatObject>, captain: usize, leader: &Leader, rules: &Step8Rules) -> (r: Option<i32>)
    ensures
        captain >= old(units)@.len() || old(units)@[captain as int].speed_inputs is None ==> r is None
            && final(units)@ == old(units)@,
        captain < old(units)@.len() && old(units)@[captain as int].speed_inputs is Some ==> {
            let c = old(units)@[captain as int];
            let stored = unit_speed_spec(c.speed_inputs->Some_0, *leader, *rules) as i16;
            let head = old(units)@.update(
                captain as int,
                StatObject {
                    myspeed: stored,
                    speed_written: true,
                    unit_speed_updates: c.unit_speed_updates.wrapping_add(1),
                    ..c
                },
            );
            let (after, ok) = spread_spec(head, c.o_down, old(units)@.len(), stored, true);
            &&& final(units)@ == after
            &&& r == if ok {
                Some(stored as i32)
            } else {
                None
            }
        },
{
    if captain >= units.len() {
        return None;
    }
    let mut c = units[captain];
    let input = match c.speed_inputs {
        Some(i) => i,
        None => {
            return None;
        },
    };
    let stored = unit_speed(&input, leader, rules) as i16;
    c.myspeed = stored;
    c.speed_written = true;
    c.unit_speed_updates = c.unit_speed_updates.wrapping_add(1);
    let first_down = c.o_down;
    units[captain] = c;
    if spread(units, first_down, stored, true) {
        Some(stored as i32)
    } else {
        None
    }
}

/// The armor `Unit::update_armor` stores: the object armor, plus the cattle bonus for the
/// special families while rare bit 31 is held.
pub open spec fn unit_armor_spec(input: UnitArmorInputs, leader: Leader, rules: Step8Rules) -> i32 {
    let armor = object_armor_spec(input, leader, rules);
    if input.special_family_32_33 && either_rare(leader, 31) {
        armor.wrapping_add(rules.cattle_citizen_armor)
    } else {
        armor
    }
}

/// `Unit::update_armor` `0x006054C0` from the captain: stored (truncated to 16 bits) on the
/// captain, counted, and copied down its `o_down` chain, like [`unit_update_speed`].
pub fn unit_update_armor(units: &mut Vec<StatObject>, captain: usize, leader: &Leader, rules: &Step8Rules) -> (r: Option<i32>)
    ensures
        captain >= old(units)@.len() || old(units)@[captain as int].armor_inputs is None ==> r is None
            && final(units)@ == old(units)@,
        captain < old(units)@.len() && old(units)@[captain as int].armor_inputs is Some ==> {
            let c = old(units)@[captain as int];
            let stored = unit_armor_spec(c.armor_inputs->Some_0, *leader, *rules) as i16;
            let head = old(units)@.update(
                captain as int,
                StatObject {
                    myarmor: stored,
                    armor_written: true,
                    unit_armor_updates: c.unit_armor_updates.wrapping_add(1),
                    ..c
                },
            );
            let (after, ok) = spread_spec(head, c.o_down, old(units)@.len(), stored, false);
            &&& final(units)@ == after
            &&& r == if ok {
                Some(stored as i32)
            } else {
                None
            }
        },
{
    if captain >= units.len() {
        return None;
    }
    let mut c = units[captain];
    let input = match c.armor_inputs {
        Some(i) => i,
        None => {
            return None;
        },
    };
    let mut armor = object_data_armor(&input, leader, rules);
    if input.special_family_32_33 && (leader.rare_effective.get(31) || leader.rare_b.get(31)) {
        armor = armor.wrapping_add(rules.cattle_citizen_armor);
    }
    let stored = armor as i16;
    c.myarmor = stored;
    c.armor_written = true;
    c.unit_armor_updates = c.unit_armor_updates.wrapping_add(1);
    let first_down = c.o_down;
    units[captain] = c;
    if spread(units, first_down, stored, false) {
        Some(stored as i32)
    } else {
        None
    }
}

/// `v * 100 / (rule + 100)` in unsigned wrapping dword arithmetic; a rule of exactly
/// `-100` divides by zero, a fault in the engine, and is refused.
pub open spec fn construct_pct_spec(v: u32, rule: i32) -> Option<u32> {
    let d = (rule as u32).wrapping_add(100);
    if d == 0 {
        None
    } else {
        Some((v.wrapping_mul(100) / d) as u32)
    }
}

fn construct_time_pct(v: u32, rule: i32) -> (r: Option<u32>)
    ensures
        r == construct_pct_spec(v, rule),
{
    v.wrapping_mul(100).checked_div((rule as u32).wrapping_add(100))
}

/// Apply a reduction when its gate holds.
pub open spec fn pct_if(v: Option<u32>, gate: bool, rule: i32) -> Option<u32> {
    match v {
        None => None,
        Some(x) => if gate {
            construct_pct_spec(x, rule)
        } else {
            Some(x)
        },
    }
}

fn pct_when(v: Option<u32>, gate: bool, rule: i32) -> (r: Option<u32>)
    ensures
        r == pct_if(v, gate, rule),
{
    match v {
        None => None,
        Some(x) => if gate {
            construct_time_pct(x, rule)
        } else {
            Some(x)
        },
    }
}

/// `Wall::update_construct_time` `0x0063D560`, in emitted order: Maya (not a wonder),
/// buildings created faster (`* 3 >> 2`), Versailles, Tobacco (either mask), British
/// airdefense, Dutch fort (not a wonder), Roman fort (not a wonder), the capital multiplier
/// over a literal 100 when the leader has no city, and `(10 - upgrade) / 10` last.
pub open spec fn construct_time_spec(input: WallConstructTimeInputs, leader: Leader, rules: Step8Rules) -> Option<u32> {
    match construct_reduced_spec(input, leader, rules) {
        None => None,
        Some(x) => {
            let x8 = if leader.city_num == 0 {
                ((rules.capital_build_time as u32).wrapping_mul(x) / 100) as u32
            } else {
                x
            };
            let upgrade = count_true(leader.build_stats.buildings_faster@) as i32;
            Some((((10i32.wrapping_sub(upgrade)) as u32).wrapping_mul(x8) / 10) as u32)
        },
    }
}

/// The construction time after the seven reductions, before the capital multiplier and
/// the upgrade level.
pub open spec fn construct_reduced_spec(input: WallConstructTimeInputs, leader: Leader, rules: Step8Rules) -> Option<u32> {
    let live = leader.unit_stats;
    let v1 = pct_if(Some(input.type_time), tribe_bit(live.tribe_bonuses, 1) && !input.is_wonder, rules.maya_building_speed);
    let v2 = match v1 {
        None => None,
        Some(x) => Some(
            if leader.build_stats.buildings_created_faster {
                x.wrapping_mul(3) >> 2u32
            } else {
                x
            },
        ),
    };
    let v3 = pct_if(v2, live.versailles, rules.versailles_building_speed);
    let v4 = pct_if(v3, either_rare(leader, 13), rules.tobacco_building_speed);
    let v5 = pct_if(v4, tribe_bit(live.tribe_bonuses, 0x0B) && input.is_airdefense, rules.british_aa_speed);
    let v6 = pct_if(v5, tribe_bit(live.tribe_bonuses, 0x16) && input.is_fort && !input.is_wonder, rules.dutch_fort_speed);
    pct_if(v6, tribe_bit(live.tribe_bonuses, 6) && input.is_fort && !input.is_wonder, rules.roman_fort_speed)
}

fn construct_reduced(input: &WallConstructTimeInputs, leader: &Leader, rules: &Step8Rules) -> (r: Option<u32>)
    ensures
        r == construct_reduced_spec(*input, *leader, *rules),
{
    let live = leader.unit_stats;
    // Tribe bonus 1 gates MAYA_BUILDING_SPEED, the evidence that bonus 1 is the Maya;
    // likewise 6, 0x0B and 0x16 below for the Roman, British and Dutch rules.
    let v1 = pct_when(Some(input.type_time), live.has_tribe_bonus(1) && !input.is_wonder, rules.maya_building_speed);
    let v2 = match v1 {
        None => None,
        Some(x) => Some(
            if leader.build_stats.buildings_created_faster {
                x.wrapping_mul(3) >> 2u32
            } else {
                x
            },
        ),
    };
    let v3 = pct_when(v2, live.versailles, rules.versailles_building_speed);
    let tobacco = leader.rare_effective.get(RareMask::TOBACCO) || leader.rare_b.get(RareMask::TOBACCO);
    let v4 = pct_when(v3, tobacco, rules.tobacco_building_speed);
    let v5 = pct_when(v4, live.has_tribe_bonus(0x0B) && input.is_airdefense, rules.british_aa_speed);
    let v6 = pct_when(v5, live.has_tribe_bonus(0x16) && input.is_fort && !input.is_wonder, rules.dutch_fort_speed);
    pct_when(v6, live.has_tribe_bonus(6) && input.is_fort && !input.is_wonder, rules.roman_fort_speed)
}

/// `Wall::update_construct_time` `0x0063D560` (545 bytes): with a type package, the
/// construction time is derived as [`construct_time_spec`] says and stored, unless a
/// reduction divides by zero; without one, or on such a refusal, nothing changes.
pub fn wall_update_construct_time(o: &mut StatObject, leader: &Leader, rules: &Step8Rules) -> (r: Option<u32>)
    ensures
        match old(o).wall_construct_time_inputs {
            None => r is None && *final(o) == *old(o),
            Some(input) => match construct_time_spec(input, *leader, *rules) {
                None => r is None && *final(o) == *old(o),
                Some(v) => r == Some(v) && *final(o) == (StatObject {
                    constr_time: v,
                    construct_time_written: true,
                    ..*old(o)
                }),
            },
        },
{
    let input = match o.wall_construct_time_inputs {
        Some(i) => i,
        None => {
            return None;
        },
    };
    let v7 = construct_reduced(&input, leader, rules);
    let mut v = match v7 {
        Some(x) => x,
        None => {
            return None;
        },
    };
    if leader.city_num == 0 {
        v = (rules.capital_build_time as u32).wrapping_mul(v) / 100;
    }
    let upgrade = leader.build_stats.get_building_speed_upgrade();
    v = (10i32.wrapping_sub(upgrade) as u32).wrapping_mul(v) / 10;
    o.constr_time = v;
    o.construct_time_written = true;
    Some(v)
}

/// The range bonus of `Wall::update_los`: the fort table for a city type, the tower table
/// for a tower, zero otherwise; an upgrade level outside its table is refused.
pub open spec fn range_bonus_spec(input: WallLosInputs, rules: Step8Rules) -> Option<i32> {
    if input.is_city_type {
        if 0 <= input.city_range_upgrade < 5 {
            Some(rules.fort_upgrade_range@[input.city_range_upgrade as int])
        } else {
            None
        }
    } else if input.is_tower_1b7 {
        if 0 <= input.tower_range_upgrade < 4 {
            Some(rules.tower_fort_range@[input.tower_range_upgrade as int])
        } else {
            None
        }
    } else {
        Some(0)
    }
}

/// `Wall::update_los()` `0x0063EEB0`, in signed-byte wrapping arithmetic: zero for an
/// unstarted object or an inactive non-wonder; one for a started, incomplete wonder;
/// otherwise the type line of sight (zero for an out-of-game owner) plus the science
/// product, the range bonus, the colosseum bonus for a city or tower, and the furs bonus;
/// the started cases then add half the footprint width.
pub open spec fn wall_los_spec(o: StatObject, leader: Leader, rules: Step8Rules) -> Option<i8> {
    match o.wall_los_inputs {
        None => None,
        Some(input) => if !o.wall_started || (!o.wall_active && !input.is_wonder) {
            Some(0i8)
        } else {
            let base: Option<i8> = if !o.wall_active {
                Some(1i8)
            } else {
                let los0: Option<i8> = if o.owner_in_game {
                    o.type_los
                } else {
                    Some(0i8)
                };
                match los0 {
                    None => None,
                    Some(l0) => {
                        let l1 = l0.wrapping_add(input.science_level.wrapping_mul(input.type_science_los));
                        match range_bonus_spec(input, rules) {
                            None => None,
                            Some(rb) => {
                                let l2 = l1.wrapping_add(rb as i8);
                                let l3 = if (input.is_city_type || input.is_tower_1b7) && input.colosseum {
                                    l2.wrapping_add(rules.colosseum_fort_range as i8)
                                } else {
                                    l2
                                };
                                Some(
                                    if either_rare(leader, 15) {
                                        l3.wrapping_add(rules.furs_los as i8)
                                    } else {
                                        l3
                                    },
                                )
                            },
                        }
                    },
                }
            };
            match base {
                None => None,
                Some(l) => Some(l.wrapping_add(trunc_div(input.footprint_x as int, 2) as i8)),
            }
        },
    }
}

/// `Wall::update_los()` `0x0063EEB0` (544 bytes): with a package, the line of sight is
/// derived as [`wall_los_spec`] says, stored, marked and counted; without one, or on a
/// refused read, nothing changes.
pub fn wall_update_los(o: &mut StatObject, leader: &Leader, rules: &Step8Rules) -> (r: Option<i32>)
    ensures
        match wall_los_spec(*old(o), *leader, *rules) {
            None => r is None && *final(o) == *old(o),
            Some(los) => r == Some(los as i32) && *final(o) == (StatObject {
                mylos: los,
                wall_los_written: true,
                wall_los_updates: old(o).wall_los_updates.wrapping_add(1),
                ..*old(o)
            }),
        },
{
    let input = match o.wall_los_inputs {
        Some(i) => i,
        None => {
            return None;
        },
    };
    let mut los: i8;
    if !o.wall_started || (!o.wall_active && !input.is_wonder) {
        los = 0;
    } else {
        if !o.wall_active {
            los = 1;
        } else {
            los = if o.owner_in_game {
                match o.type_los {
                    Some(l) => l,
                    None => {
                        return None;
                    },
                }
            } else {
                0
            };
            los = los.wrapping_add(input.science_level.wrapping_mul(input.type_science_los));
            let range_bonus: i32 = if input.is_city_type {
                if input.city_range_upgrade < 0 || input.city_range_upgrade >= 5 {
                    return None;
                }
                rules.fort_upgrade_range[input.city_range_upgrade as usize]
            } else if input.is_tower_1b7 {
                if input.tower_range_upgrade < 0 || input.tower_range_upgrade >= 4 {
                    return None;
                }
                rules.tower_fort_range[input.tower_range_upgrade as usize]
            } else {
                0
            };
            los = los.wrapping_add(range_bonus as i8);
            if (input.is_city_type || input.is_tower_1b7) && input.colosseum {
                los = los.wrapping_add(rules.colosseum_fort_range as i8);
            }
            if leader.rare_effective.get(15) || leader.rare_b.get(15) {
                los = los.wrapping_add(rules.furs_los as i8);
            }
        }
        los = los.wrapping_add(quot(input.footprint_x, 2) as i8);
    }
    o.mylos = los;
    o.wall_los_written = true;
    o.wall_los_updates = o.wall_los_updates.wrapping_add(1);
    Some(los as i32)
}

// ---------------------------------------------------------------------------------------
// Leader::check_explore / Leaders::strategy_all
// ---------------------------------------------------------------------------------------

/// The recount phase of a leader: `slot * 25 + frame + 12` in wrapping dword arithmetic.
pub open spec fn explore_phase(slot: i32, frame: i32) -> i32 {
    slot.wrapping_mul(EXPLORE_SLOT_PHASE).wrapping_add(frame).wrapping_add(EXPLORE_PHASE_BIAS)
}

/// Whether `Leader::check_explore` recomputes on this frame: always on frame zero; else
/// when the phase is a multiple of `200 / ai_speed` (truncated remainder zero). `None`
/// when that period is zero or undefined.
pub open spec fn explore_gate(slot: i32, frame: i32, ai_speed: i32) -> Option<bool> {
    if frame == 0 {
        Some(true)
    } else {
        match EXPLORE_PERIOD_BASE.checked_div(ai_speed) {
            None => None,
            Some(period) => if period == 0 {
                None
            } else {
                Some(explore_phase(slot, frame).checked_rem(period) == Some(0i32))
            },
        }
    }
}

/// The `seen2` byte sampled for region cell `(x, y)`: fog coordinate `(4x + 3, 4y + 3)`
/// in wrapping arithmetic; `None` when the index falls outside the plane.
pub open spec fn explore_sample(seen2: Seq<u8>, fog_xs: i32, x: i32, y: i32) -> Option<u8> {
    let fog_y = y.wrapping_mul(4).wrapping_add(3);
    let fog_x = x.wrapping_mul(4).wrapping_add(3);
    let index = fog_xs.wrapping_mul(fog_y).wrapping_add(fog_x);
    if 0 <= index < seen2.len() {
        Some(seen2[index as int])
    } else {
        None
    }
}

/// The low byte of `1 << (slot & 31)`.
pub open spec fn explore_mask(slot: i32) -> u8 {
    (1u32 << ((slot as u32) & 31u32)) as u8
}

/// The count after the first `x` cells of row `y`, starting from `acc`.
pub open spec fn explore_cols(seen2: Seq<u8>, fog_xs: i32, mask: u8, y: i32, x: nat, acc: i32) -> Option<i32>
    decreases x,
{
    if x == 0 {
        Some(acc)
    } else {
        match explore_cols(seen2, fog_xs, mask, y, (x - 1) as nat, acc) {
            None => None,
            Some(c) => match explore_sample(seen2, fog_xs, (x - 1) as i32, y) {
                None => None,
                Some(bits) => Some(
                    if bits & mask != 0 {
                        c.wrapping_add(1)
                    } else {
                        c
                    },
                ),
            },
        }
    }
}

/// The count after the first `y` rows of `xs` cells each, row by row.
pub open spec fn explore_rows(seen2: Seq<u8>, fog_xs: i32, mask: u8, xs: nat, y: nat) -> Option<i32>
    decreases y,
{
    if y == 0 {
        Some(0i32)
    } else {
        match explore_rows(seen2, fog_xs, mask, xs, (y - 1) as nat) {
            None => None,
            Some(c) => explore_cols(seen2, fog_xs, mask, (y - 1) as i32, xs, c),
        }
    }
}

/// The non-negative part of a dimension.
pub open spec fn explore_extent(n: i32) -> nat {
    if n > 0 {
        n as nat
    } else {
        0
    }
}

/// What `Leader::check_explore` answers, and the explored count it leaves.
pub open spec fn check_explore_spec(
    leader: Leader,
    frame: i32,
    ai_speed: i32,
    has_explore_preq: Option<bool>,
    reg_xs: i32,
    reg_ys: i32,
    reg_size: i32,
    fog_xs: i32,
    seen2: Seq<u8>,
) -> (ExploreUpdate, i32) {
    match explore_gate(leader.slot, frame, ai_speed) {
        None => (ExploreUpdate::MissingFacts, leader.explored),
        Some(false) => (ExploreUpdate::NotDue, leader.explored),
        Some(true) => match has_explore_preq {
            None => (ExploreUpdate::MissingFacts, leader.explored),
            Some(true) => (ExploreUpdate::FullMap(reg_size), reg_size),
            Some(false) => match explore_rows(
                seen2,
                fog_xs,
                explore_mask(leader.slot),
                explore_extent(reg_xs),
                explore_extent(reg_ys),
            ) {
                None => (ExploreUpdate::MissingFacts, leader.explored),
                Some(c) => (ExploreUpdate::Recounted(c), c),
            },
        },
    }
}

/// Once a row scan misses a fact, every longer scan of that row does.
proof fn lemma_cols_missing_stays(seen2: Seq<u8>, fog_xs: i32, mask: u8, y: i32, x: nat, x2: nat, acc: i32)
    requires
        x <= x2,
        explore_cols(seen2, fog_xs, mask, y, x, acc) is None,
    ensures
        explore_cols(seen2, fog_xs, mask, y, x2, acc) is None,
    decreases x2 - x,
{
    if x < x2 {
        lemma_cols_missing_stays(seen2, fog_xs, mask, y, x, (x2 - 1) as nat, acc);
    }
}

/// Once the scan misses a fact, every scan of more rows does.
proof fn lemma_rows_missing_stays(seen2: Seq<u8>, fog_xs: i32, mask: u8, xs: nat, y: nat, y2: nat)
    requires
        y <= y2,
        explore_rows(seen2, fog_xs, mask, xs, y) is None,
    ensures
        explore_rows(seen2, fog_xs, mask, xs, y2) is None,
    decreases y2 - y,
{
    if y < y2 {
        lemma_rows_missing_stays(seen2, fog_xs, mask, xs, y, (y2 - 1) as nat);
    }
}

/// One row of the recount, from `acc`.
fn explore_count_row(world: &ExploreWorld<'_>, mask: u8, y: i32, xs: i32, acc: i32) -> (r: Option<i32>)
    requires
        xs >= 0,
    ensures
        r == explore_cols(world.seen2@, world.fog_xs, mask, y, xs as nat, acc),
{
    let fog_y = y.wrapping_mul(4).wrapping_add(3);
    let mut count = acc;
    let mut x: i32 = 0;
    while x < xs
        invariant
            0 <= x <= xs,
            fog_y == y.wrapping_mul(4).wrapping_add(3),
            explore_cols(world.seen2@, world.fog_xs, mask, y, x as nat, acc) == Some(count),
        decreases xs - x,
    {
        let fog_x = x.wrapping_mul(4).wrapping_add(3);
        let index = world.fog_xs.wrapping_mul(fog_y).wrapping_add(fog_x);
        if index < 0 || index as usize >= world.seen2.len() {
            proof {
                lemma_cols_missing_stays(world.seen2@, world.fog_xs, mask, y, (x + 1) as nat, xs as nat, acc);
            }
            return None;
        }
        let bits = world.seen2[index as usize];
        if bits & mask != 0 {
            count = count.wrapping_add(1);
        }
        x = x + 1;
    }
    Some(count)
}

/// The whole recount: every row of the region grid in turn.
fn explore_count(world: &ExploreWorld<'_>, mask: u8) -> (r: Option<i32>)
    ensures
        r == explore_rows(world.seen2@, world.fog_xs, mask, explore_extent(world.reg_xs), explore_extent(world.reg_ys)),
{
    let ys: i32 = if world.reg_ys > 0 {
        world.reg_ys
    } else {
        0
    };
    let xs: i32 = if world.reg_xs > 0 {
        world.reg_xs
    } else {
        0
    };
    let ghost seen2 = world.seen2@;
    let mut explored: i32 = 0;
    let mut y: i32 = 0;
    while y < ys
        invariant
            0 <= y <= ys,
            0 <= xs,
            seen2 == world.seen2@,
            ys as nat == explore_extent(world.reg_ys),
            xs as nat == explore_extent(world.reg_xs),
            explore_rows(seen2, world.fog_xs, mask, xs as nat, y as nat) == Some(explored),
        decreases ys - y,
    {
        let row = explore_count_row(world, mask, y, xs, explored);
        assert(explore_rows(seen2, world.fog_xs, mask, xs as nat, (y + 1) as nat) == row);
        match row {
            Some(c) => {
                explored = c;
            },
            None => {
                proof {
                    lemma_rows_missing_stays(seen2, world.fog_xs, mask, xs as nat, (y + 1) as nat, ys as nat);
                }
                return None;
            },
        }
        y = y + 1;
    }
    Some(explored)
}

/// `Leader::check_explore` `0x006BC860` (227 bytes). Frame zero always recomputes; later
/// frames only when `(slot * 25 + frame + 12) % (200 / ai_speed) == 0`. With the
/// Electronics prerequisite the whole region grid counts as explored; otherwise one
/// `seen2` byte per region cell is tested against the player's bit. A zero period, an
/// absent prerequisite answer or a sample outside the plane leaves `explored` untouched.
/// The one input on which the remainder faults (`i32::MIN % -1`) is excluded.
pub fn check_explore(
    leader: &mut Leader,
    frame: i32,
    ai_speed: i32,
    has_explore_preq: Option<bool>,
    world: ExploreWorld<'_>,
) -> (r: ExploreUpdate)
    requires
        !(frame != 0 && EXPLORE_PERIOD_BASE.checked_div(ai_speed) == Some(-1i32) && explore_phase(
            old(leader).slot,
            frame,
        ) == i32::MIN),
    ensures
        ({
            let (u, explored) = check_explore_spec(
                *old(leader),
                frame,
                ai_speed,
                has_explore_preq,
                world.reg_xs,
                world.reg_ys,
                world.reg_size,
                world.fog_xs,
                world.seen2@,
            );
            r == u && *final(leader) == (Leader { explored, ..*old(leader) })
        }),
{
    if frame != 0 {
        let period = match EXPLORE_PERIOD_BASE.checked_div(ai_speed) {
            Some(p) => p,
            None => {
                return ExploreUpdate::MissingFacts;
            },
        };
        if period == 0 {
            return ExploreUpdate::MissingFacts;
        }
        let phase = leader.slot.wrapping_mul(EXPLORE_SLOT_PHASE).wrapping_add(frame).wrapping_add(
            EXPLORE_PHASE_BIAS,
        );
        if phase.checked_rem(period) != Some(0i32) {
            return ExploreUpdate::NotDue;
        }
    }
    let has = match has_explore_preq {
        Some(b) => b,
        None => {
            return ExploreUpdate::MissingFacts;
        },
    };
    if has {
        leader.explored = world.reg_size;
        return ExploreUpdate::FullMap(leader.explored);
    }
    let slot_bits = leader.slot as u32;
    let shift = slot_bits & 31u32;
    assert(shift < 32) by (bit_vector)
        requires
            shift == slot_bits & 31u32,
    ;
    let mask = (1u32 << shift) as u8;
    let explored = match explore_count(&world, mask) {
        Some(c) => c,
        None => {
            return ExploreUpdate::MissingFacts;
        },
    };
    leader.explored = explored;
    ExploreUpdate::Recounted(explored)
}

/// Whether `Leaders::strategy_all` takes a leader: both low flag bits set.
pub open spec fn strategy_active(leader: Leader) -> bool {
    leader.flags & (flag::IN_GAME | flag::PROCESS) == (flag::IN_GAME | flag::PROCESS)
}

/// The calls of the first `k` slots, in slot order: for each active slot its explore
/// update, `plan_strategy`, `compute_score(0)` and `diplomacy`.
pub open spec fn strategy_calls(leaders: Seq<Leader>, input: StrategyInputs, k: nat) -> Seq<StrategyCall>
    decreases k,
{
    if k == 0 {
        Seq::empty()
    } else {
        let i = (k - 1) as int;
        let before = strategy_calls(leaders, input, (k - 1) as nat);
        if strategy_active(leaders[i]) {
            let update = check_explore_spec(
                leaders[i],
                input.frame,
                input.ai_speed,
                input.has_explore_preq[i],
                input.world.reg_xs,
                input.world.reg_ys,
                input.world.reg_size,
                input.world.fog_xs,
                input.world.seen2@,
            ).0;
            before + seq![
                StrategyCall::CheckExplore { slot: i as usize, update },
                StrategyCall::PlanStrategy(i as usize),
                StrategyCall::ComputeScore { slot: i as usize, force: 0 },
                StrategyCall::Diplomacy(i as usize),
            ]
        } else {
            before
        }
    }
}

/// The explore update of slot `i`, and the count it leaves.
pub open spec fn slot_explore(leaders: Seq<Leader>, input: StrategyInputs, i: int) -> (ExploreUpdate, i32) {
    check_explore_spec(
        leaders[i],
        input.frame,
        input.ai_speed,
        input.has_explore_preq[i],
        input.world.reg_xs,
        input.world.reg_ys,
        input.world.reg_size,
        input.world.fog_xs,
        input.world.seen2@,
    )
}

/// The step-11 loop over the eight records.
fn strategy_records(leaders: &mut [Leader; 8], input: StrategyInputs<'_>) -> (trace: StrategyTrace)
    requires
        forall|i: int|
            0 <= i < 8 && strategy_active(old(leaders)@[i]) ==> !(input.frame != 0
                && EXPLORE_PERIOD_BASE.checked_div(input.ai_speed) == Some(-1i32) && explore_phase(
                old(leaders)@[i].slot,
                input.frame,
            ) == i32::MIN),
    ensures
        forall|i: int|
            #![trigger final(leaders)@[i]]
            #![trigger trace.processed@[i]]
            #![trigger trace.explore@[i]]
            0 <= i < 8 ==> {
                let l = old(leaders)@[i];
                &&& trace.processed@[i] == strategy_active(l)
                &&& trace.explore@[i] == if strategy_active(l) {
                    slot_explore(old(leaders)@, input, i).0
                } else {
                    ExploreUpdate::NotDue
                }
                &&& final(leaders)@[i] == if strategy_active(l) {
                    Leader { explored: slot_explore(old(leaders)@, input, i).1, ..l }
                } else {
                    l
                }
            },
        trace.calls@ == strategy_calls(old(leaders)@, input, 8) + if input.check_victory_mode {
            seq![StrategyCall::CheckVictory]
        } else {
            Seq::empty()
        },
{
    let mut trace = StrategyTrace {
        processed: [false; 8],
        explore: [ExploreUpdate::NotDue; 8],
        calls: Vec::new(),
    };
    let mut slot: usize = 0;
    while slot < 8
        invariant
            slot <= 8,
            forall|i: int|
                0 <= i < 8 && strategy_active(old(leaders)@[i]) ==> !(input.frame != 0
                    && EXPLORE_PERIOD_BASE.checked_div(input.ai_speed) == Some(-1i32) && explore_phase(
                    old(leaders)@[i].slot,
                    input.frame,
                ) == i32::MIN),
            forall|i: int|
                #![trigger leaders@[i]]
                #![trigger trace.processed@[i]]
                #![trigger trace.explore@[i]]
                0 <= i < slot ==> {
                    let l = old(leaders)@[i];
                    &&& trace.processed@[i] == strategy_active(l)
                    &&& trace.explore@[i] == if strategy_active(l) {
                        slot_explore(old(leaders)@, input, i).0
                    } else {
                        ExploreUpdate::NotDue
                    }
                    &&& leaders@[i] == if strategy_active(l) {
                        Leader { explored: slot_explore(old(leaders)@, input, i).1, ..l }
                    } else {
                        l
                    }
                },
            forall|i: int| slot <= i < 8 ==> leaders@[i] == old(leaders)@[i] && !trace.processed@[i]
                && trace.explore@[i] == ExploreUpdate::NotDue,
            trace.calls@ == strategy_calls(old(leaders)@, input, slot as nat),
        decreases 8 - slot,
    {
        let mut l = leaders[slot];
        if l.flags & (flag::IN_GAME | flag::PROCESS) == (flag::IN_GAME | flag::PROCESS) {
            trace.processed[slot] = true;
            let update = check_explore(&mut l, input.frame, input.ai_speed, input.has_explore_preq[slot], input.world);
            leaders[slot] = l;
            trace.explore[slot] = update;
            trace.calls.push(StrategyCall::CheckExplore { slot, update });
            trace.calls.push(StrategyCall::PlanStrategy(slot));
            trace.calls.push(StrategyCall::ComputeScore { slot, force: 0 });
            trace.calls.push(StrategyCall::Diplomacy(slot));
        }
        proof {
            let k = (slot + 1) as nat;
            assert(strategy_calls(old(leaders)@, input, k) == strategy_calls(old(leaders)@, input, (k - 1) as nat) + if strategy_active(old(leaders)@[slot as int]) {
                seq![
                    StrategyCall::CheckExplore { slot: slot, update: slot_explore(old(leaders)@, input, slot as int).0 },
                    StrategyCall::PlanStrategy(slot),
                    StrategyCall::ComputeScore { slot: slot, force: 0 },
                    StrategyCall::Diplomacy(slot),
                ]
            } else {
                Seq::<StrategyCall>::empty()
            });
        }
        slot = slot + 1;
    }
    if input.check_victory_mode {
        trace.calls.push(StrategyCall::CheckVictory);
    }
    trace
}

// ---------------------------------------------------------------------------------------
// Leaders: the array, its player mirror and its dispatchers
// ---------------------------------------------------------------------------------------

/// The eight leader records with the outside state steps 17 and 19 touch.
#[derive(Clone, Debug, PartialEq, Eq)]
pub struct Leaders {
    pub leaders: [Leader; 8],
    pub end: EndProcessState,
    pub event: EventProcessState,
}

impl Leaders {
    /// Eight inactive leaders whose slot is their array index, the default player table,
    /// and silent music and presentation state.
    pub fn new() -> (r: Leaders)
        ensures
            forall|i: int| 0 <= i < 8 ==> #[trigger] r.leaders@[i] == fresh_leader(i as i32),
            forall|i: int| 0 <= i < 8 ==> #[trigger] r.end.players@[i] == (EndPlayer { flags: 0, who: i as u8, pop_cap_frame: 0 }),
            r.end.local_who == -1,
            r.end.local_play == -1,
            r.end.pop_limit_index == 255,
            r.end.last_feedback@.len() == 0,
            r.event.current_music_mood == 0,
            r.event.next_music_mood == 0,
            r.event.product_outbox.last_calls@.len() == 0,
            r.event.last_mood_requests@.len() == 0,
            r.event.last_achievement_events@.len() == 0,
    {
        Leaders {
            leaders: [
                Leader::new(0),
                Leader::new(1),
                Leader::new(2),
                Leader::new(3),
                Leader::new(4),
                Leader::new(5),
                Leader::new(6),
                Leader::new(7),
            ],
            end: EndProcessState::default(),
            event: EventProcessState {
                current_music_mood: 0,
                next_music_mood: 0,
                product_outbox: EventProductOutbox { last_calls: Vec::new() },
                last_mood_requests: Vec::new(),
                last_achievement_events: Vec::new(),
            },
        }
    }

    /// Copy each leader's `who` into its player record and set or clear only the valid
    /// bit from the leader's in-game bit; every other player flag and the stamp stay.
    pub fn sync_end_players_from_leaders(&mut self)
        ensures
            final(self).leaders == old(self).leaders,
            final(self).event == old(self).event,
            final(self).end.local_who == old(self).end.local_who,
            final(self).end.local_play == old(self).end.local_play,
            final(self).end.pop_limit_index == old(self).end.pop_limit_index,
            final(self).end.last_feedback == old(self).end.last_feedback,
            forall|i: int|
                0 <= i < 8 ==> {
                    let l = old(self).leaders@[i];
                    let p = old(self).end.players@[i];
                    #[trigger] final(self).end.players@[i] == EndPlayer {
                        who: l.slot as u8,
                        flags: if l.flags & flag::IN_GAME != 0 {
                            p.flags | PLAYER_VALID
                        } else {
                            p.flags & !PLAYER_VALID
                        },
                        pop_cap_frame: p.pop_cap_frame,
                    }
                },
    {
        let mut i: usize = 0;
        while i < 8
            invariant
                i <= 8,
                self.leaders == old(self).leaders,
                self.event == old(self).event,
                self.end.local_who == old(self).end.local_who,
                self.end.local_play == old(self).end.local_play,
                self.end.pop_limit_index == old(self).end.pop_limit_index,
                self.end.last_feedback == old(self).end.last_feedback,
                forall|j: int| i <= j < 8 ==> #[trigger] self.end.players@[j] == old(self).end.players@[j],
                forall|j: int|
                    0 <= j < i ==> {
                        let l = old(self).leaders@[j];
                        let p = old(self).end.players@[j];
                        #[trigger] self.end.players@[j] == EndPlayer {
                            who: l.slot as u8,
                            flags: if l.flags & flag::IN_GAME != 0 {
                                p.flags | PLAYER_VALID
                            } else {
                                p.flags & !PLAYER_VALID
                            },
                            pop_cap_frame: p.pop_cap_frame,
                        }
                    },
            decreases 8 - i,
        {
            let l = self.leaders[i];
            let mut p = self.end.players[i];
            p.who = l.slot as u8;
            if l.flags & flag::IN_GAME != 0 {
                p.flags = p.flags | PLAYER_VALID;
            } else {
                p.flags = p.flags & !PLAYER_VALID;
            }
            self.end.players[i] = p;
            i = i + 1;
        }
    }

    /// The leader of `slot`, addressed as `leaders_base + slot * 0x6EEC`; `None` outside the
    /// array.
    pub fn by_slot(&self, slot: i32) -> (r: Option<&Leader>)
        ensures
            r == if 0 <= slot < 8 {
                Some(&self.leaders@[slot as int])
            } else {
                None::<&Leader>
            },
    {
        if 0 <= slot && slot < 8 {
            Some(&self.leaders[slot as usize])
        } else {
            None
        }
    }

    /// Whether some other in-game leader makes `a_slot` see a hostile: a leader on another
    /// slot that counts as hostile and is not mutually allied with `a_slot`.
    pub fn scan_hostiles(&self, a_slot: i32) -> (r: bool)
        ensures
            r == exists|j: int| 0 <= j < 8 && #[trigger] hostile_for(self.leaders@, j, a_slot),
    {
        let mut j: usize = 0;
        while j < 8
            invariant
                j <= 8,
                forall|k: int| 0 <= k < j ==> !#[trigger] hostile_for(self.leaders@, k, a_slot),
            decreases 8 - j,
        {
            let b = self.leaders[j];
            if b.flags & flag::IN_GAME != 0 && a_slot != b.slot {
                let b_slot = b.slot;
                let mutual_ally = b.diplo_toward(a_slot) == DIPLO_ALLIED && match self.by_slot(a_slot) {
                    Some(a) => a.diplo_toward(b_slot) == DIPLO_ALLIED,
                    None => false,
                };
                if !mutual_ally && b.flags & flag::COUNTS_AS_HOSTILE != 0 {
                    assert(hostile_for(self.leaders@, j as int, a_slot));
                    return true;
                }
            }
            assert(!hostile_for(self.leaders@, j as int, a_slot));
            j = j + 1;
        }
        false
    }
}

/// Leader `j` is in the game, on another slot than `a_slot`, counts as hostile, and the
/// two are not allied in both directions (an `a_slot` outside the array has no direction).
pub open spec fn hostile_for(leaders: Seq<Leader>, j: int, a_slot: i32) -> bool {
    let b = leaders[j];
    let mutual = diplo_toward_spec(b, a_slot) == DIPLO_ALLIED && 0 <= a_slot < 8 && diplo_toward_spec(
        leaders[a_slot as int],
        b.slot,
    ) == DIPLO_ALLIED;
    &&& b.flags & flag::IN_GAME != 0
    &&& b.slot != a_slot
    &&& !mutual
    &&& b.flags & flag::COUNTS_AS_HOSTILE != 0
}

// ---------------------------------------------------------------------------------------
// Leaders::end_process_all 0x006ED070
// ---------------------------------------------------------------------------------------

/// A player record whose warning a zero-issue leader of `who` clears: valid, and of that
/// byte-sized `who`.
pub open spec fn warn_match(p: EndPlayer, who: i32) -> bool {
    p.flags & PLAYER_VALID != 0 && p.who as i32 == who
}

/// The clears of the zero-issue scan over the first `n` player records, in order.
pub open spec fn warning_clears_of(players: Seq<EndPlayer>, leader_index: usize, who: i32, n: nat) -> Seq<
    PopulationWarningClear,
>
    decreases n,
{
    if n == 0 {
        Seq::empty()
    } else {
        let before = warning_clears_of(players, leader_index, who, (n - 1) as nat);
        if warn_match(players[n - 1], who) {
            before.push(PopulationWarningClear { leader_index, leader_who: who, player_index: (n - 1) as usize })
        } else {
            before
        }
    }
}

/// The player table after the zero-issue scan: the warning bit cleared on each match.
pub open spec fn cleared_players(players: Seq<EndPlayer>, who: i32) -> Seq<EndPlayer> {
    Seq::new(
        players.len(),
        |p: int|
            if warn_match(players[p], who) {
                EndPlayer { flags: players[p].flags & !PLAYER_POP_CAP_WARNING, ..players[p] }
            } else {
                players[p]
            },
    )
}

/// What one gated leader does in step 17, from the player table as earlier leaders left
/// it: the new table, and the clears, stamps, feedback and missing facts it adds.
pub open spec fn end_leader_spec(
    players: Seq<EndPlayer>,
    leader: Leader,
    leader_index: usize,
    end: EndProcessState,
    frame: i32,
) -> (Seq<EndPlayer>, Seq<PopulationWarningClear>, Seq<PopulationCapStamp>, Seq<PopulationCapFeedback>, Seq<
    EndProcessMissingFact,
>) {
    let who = leader.slot;
    let none_c = Seq::<PopulationWarningClear>::empty();
    let none_s = Seq::<PopulationCapStamp>::empty();
    let none_f = Seq::<PopulationCapFeedback>::empty();
    let none_m = Seq::<EndProcessMissingFact>::empty();
    if leader.pop_issues == 0 {
        (cleared_players(players, who), warning_clears_of(players, leader_index, who, 8), none_s, none_f, none_m)
    } else if who != end.local_who {
        (players, none_c, none_s, none_f, none_m)
    } else if !(0 <= end.local_play < 8) {
        (players, none_c, none_s, none_f, seq![EndProcessMissingFact::LocalPlayerIndex(end.local_play)])
    } else {
        let pi = end.local_play as int;
        if frame.wrapping_sub(players[pi].pop_cap_frame) < POP_CAP_WARNING_MIN_ELAPSED {
            (players, none_c, none_s, none_f, none_m)
        } else {
            let stamped = players.update(pi, EndPlayer { pop_cap_frame: frame, ..players[pi] });
            let stamp = seq![PopulationCapStamp { leader_index, player_index: pi as usize, frame }];
            if end.pop_limit_index >= 6 {
                (stamped, none_c, stamp, none_f, seq![EndProcessMissingFact::PopulationLimitIndex(end.pop_limit_index)])
            } else if leader.pop_cap >= SHIPPED_POP_LIMITS@[end.pop_limit_index as int] {
                (stamped, none_c, stamp, none_f, none_m)
            } else {
                (
                    stamped,
                    none_c,
                    stamp,
                    seq![
                        PopulationCapFeedback {
                            leader_index,
                            leader_who: who,
                            player_index: pi as usize,
                            text_offset: POP_CAP_WARNING_TEXT_OFFSET,
                            sound_category: POP_CAP_WARNING_SOUND,
                        },
                    ],
                    none_m,
                )
            }
        }
    }
}

/// Step 17 over the first `n` leaders, in array order: the player table, then the clears,
/// stamps, feedback and missing facts, each in the order they happened.
pub open spec fn end_fold(leaders: Seq<Leader>, end: EndProcessState, frame: i32, n: nat) -> (Seq<EndPlayer>, Seq<
    PopulationWarningClear,
>, Seq<PopulationCapStamp>, Seq<PopulationCapFeedback>, Seq<EndProcessMissingFact>)
    decreases n,
{
    if n == 0 {
        (end.players@, Seq::empty(), Seq::empty(), Seq::empty(), Seq::empty())
    } else {
        let (p, c, st, f, m) = end_fold(leaders, end, frame, (n - 1) as nat);
        let l = leaders[n - 1];
        if l.flags & flag::PROCESS == 0 {
            (p, c, st, f, m)
        } else {
            let (p2, c2, st2, f2, m2) = end_leader_spec(p, l, (n - 1) as usize, end, frame);
            (p2, c + c2, st + st2, f + f2, m + m2)
        }
    }
}

/// The zero-issue scan: clear the warning on every matching player record, in order.
fn clear_warnings(players: &mut [EndPlayer; 8], leader_index: usize, who: i32, clears: &mut Vec<PopulationWarningClear>)
    ensures
        final(players)@ == cleared_players(old(players)@, who),
        final(clears)@ == old(clears)@ + warning_clears_of(old(players)@, leader_index, who, 8),
{
    let ghost p0 = players@;
    let ghost c0 = clears@;
    let mut k: usize = 0;
    while k < 8
        invariant
            k <= 8,
            p0 == old(players)@,
            c0 == old(clears)@,
            forall|j: int| 0 <= j < k ==> #[trigger] players@[j] == cleared_players(p0, who)[j],
            forall|j: int| k <= j < 8 ==> #[trigger] players@[j] == p0[j],
            clears@ == c0 + warning_clears_of(p0, leader_index, who, k as nat),
        decreases 8 - k,
    {
        let p = players[k];
        if p.flags & PLAYER_VALID != 0 && p.who as i32 == who {
            players[k] = EndPlayer { flags: p.flags & !PLAYER_POP_CAP_WARNING, ..p };
            clears.push(PopulationWarningClear { leader_index, leader_who: who, player_index: k });
        }
        proof {
            assert(c0 + warning_clears_of(p0, leader_index, who, (k + 1) as nat) =~= if warn_match(p0[k as int], who) {
                (c0 + warning_clears_of(p0, leader_index, who, k as nat)).push(
                    PopulationWarningClear { leader_index, leader_who: who, player_index: k },
                )
            } else {
                c0 + warning_clears_of(p0, leader_index, who, k as nat)
            });
        }
        k = k + 1;
    }
    assert(players@ =~= cleared_players(p0, who));
}

/// Step 17 for one gated leader, as [`end_leader_spec`] says.
fn end_leader(end: &mut EndProcessState, leader: &Leader, leader_index: usize, frame: i32, trace: &mut EndProcessTrace)
    ensures
        ({
            let (p, c, st, f, m) = end_leader_spec(old(end).players@, *leader, leader_index, *old(end), frame);
            &&& final(end).players@ == p
            &&& final(end).local_who == old(end).local_who
            &&& final(end).local_play == old(end).local_play
            &&& final(end).pop_limit_index == old(end).pop_limit_index
            &&& final(end).last_feedback@ == old(end).last_feedback@ + f
            &&& final(trace).processed == old(trace).processed
            &&& final(trace).warning_clears@ == old(trace).warning_clears@ + c
            &&& final(trace).stamp_writes@ == old(trace).stamp_writes@ + st
            &&& final(trace).feedback@ == old(trace).feedback@ + f
            &&& final(trace).missing_facts@ == old(trace).missing_facts@ + m
        }),
{
    let leader_who = leader.slot;
    if leader.pop_issues == 0 {
        clear_warnings(&mut end.players, leader_index, leader_who, &mut trace.warning_clears);
        assert(trace.stamp_writes@ == old(trace).stamp_writes@ + Seq::<PopulationCapStamp>::empty());
        assert(trace.feedback@ == old(trace).feedback@ + Seq::<PopulationCapFeedback>::empty());
        assert(end.last_feedback@ == old(end).last_feedback@ + Seq::<PopulationCapFeedback>::empty());
        assert(trace.missing_facts@ == old(trace).missing_facts@ + Seq::<EndProcessMissingFact>::empty());
        return;
    }
    assert(trace.warning_clears@ == old(trace).warning_clears@ + Seq::<PopulationWarningClear>::empty());
    assert(trace.stamp_writes@ == old(trace).stamp_writes@ + Seq::<PopulationCapStamp>::empty());
    assert(trace.feedback@ == old(trace).feedback@ + Seq::<PopulationCapFeedback>::empty());
    assert(end.last_feedback@ == old(end).last_feedback@ + Seq::<PopulationCapFeedback>::empty());
    assert(trace.missing_facts@ == old(trace).missing_facts@ + Seq::<EndProcessMissingFact>::empty());
    if leader_who != end.local_who {
        return;
    }
    if end.local_play < 0 || end.local_play >= 8 {
        trace.missing_facts.push(EndProcessMissingFact::LocalPlayerIndex(end.local_play));
        assert(trace.missing_facts@ == old(trace).missing_facts@ + seq![EndProcessMissingFact::LocalPlayerIndex(end.local_play)]);
        return;
    }
    let player_index = end.local_play as usize;
    let mut player = end.players[player_index];
    if frame.wrapping_sub(player.pop_cap_frame) < POP_CAP_WARNING_MIN_ELAPSED {
        return;
    }
    player.pop_cap_frame = frame;
    end.players[player_index] = player;
    trace.stamp_writes.push(PopulationCapStamp { leader_index, player_index, frame });
    assert(trace.stamp_writes@ == old(trace).stamp_writes@ + seq![PopulationCapStamp { leader_index, player_index, frame }]);
    if end.pop_limit_index >= 6 {
        trace.missing_facts.push(EndProcessMissingFact::PopulationLimitIndex(end.pop_limit_index));
        assert(trace.missing_facts@ == old(trace).missing_facts@ + seq![EndProcessMissingFact::PopulationLimitIndex(end.pop_limit_index)]);
        return;
    }
    let pop_limit = SHIPPED_POP_LIMITS[end.pop_limit_index as usize];
    if leader.pop_cap >= pop_limit {
        return;
    }
    let event = PopulationCapFeedback {
        leader_index,
        leader_who,
        player_index,
        text_offset: POP_CAP_WARNING_TEXT_OFFSET,
        sound_category: POP_CAP_WARNING_SOUND,
    };
    trace.feedback.push(event);
    end.last_feedback.push(event);
    assert(trace.feedback@ == old(trace).feedback@ + seq![event]);
    assert(end.last_feedback@ == old(end).last_feedback@ + seq![event]);
}

/// **Step 17.** `Leaders::end_process_all` `0x006ED070`: each leader with the process bit,
/// in order, either clears the population warning on every valid player record of its
/// `who` (no production issues), or, when it is the local player and the last stamp is at
/// least 450 frames old, stamps the frame and then emits the population-cap feedback while
/// below the selected limit. Missing host facts are recorded, not guessed. Only this call's
/// feedback stays in `last_feedback`.
pub fn end_process_all(ls: &mut Leaders, frame: i32) -> (trace: EndProcessTrace)
    ensures
        ({
            let (p, c, st, f, m) = end_fold(old(ls).leaders@, old(ls).end, frame, 8);
            &&& final(ls).end.players@ == p
            &&& final(ls).end.last_feedback@ == f
            &&& trace.warning_clears@ == c
            &&& trace.stamp_writes@ == st
            &&& trace.feedback@ == f
            &&& trace.missing_facts@ == m
        }),
        forall|i: int| 0 <= i < 8 ==> #[trigger] trace.processed@[i] == (old(ls).leaders@[i].flags & flag::PROCESS != 0),
        final(ls).leaders == old(ls).leaders,
        final(ls).event == old(ls).event,
        final(ls).end.local_who == old(ls).end.local_who,
        final(ls).end.local_play == old(ls).end.local_play,
        final(ls).end.pop_limit_index == old(ls).end.pop_limit_index,
{
    let mut trace = EndProcessTrace {
        processed: [false; 8],
        warning_clears: Vec::new(),
        stamp_writes: Vec::new(),
        feedback: Vec::new(),
        missing_facts: Vec::new(),
    };
    ls.end.last_feedback = Vec::new();
    let ghost end0 = ls.end;
    let mut leader_index: usize = 0;
    while leader_index < 8
        invariant
            leader_index <= 8,
            ls.leaders == old(ls).leaders,
            ls.event == old(ls).event,
            end0.players == old(ls).end.players,
            end0.local_who == old(ls).end.local_who,
            end0.local_play == old(ls).end.local_play,
            end0.pop_limit_index == old(ls).end.pop_limit_index,
            ls.end.local_who == old(ls).end.local_who,
            ls.end.local_play == old(ls).end.local_play,
            ls.end.pop_limit_index == old(ls).end.pop_limit_index,
            ({
                let (p, c, st, f, m) = end_fold(old(ls).leaders@, end0, frame, leader_index as nat);
                &&& ls.end.players@ == p
                &&& ls.end.last_feedback@ == f
                &&& trace.warning_clears@ == c
                &&& trace.stamp_writes@ == st
                &&& trace.feedback@ == f
                &&& trace.missing_facts@ == m
            }),
            forall|i: int| 0 <= i < leader_index ==> #[trigger] trace.processed@[i] == (old(ls).leaders@[i].flags & flag::PROCESS != 0),
            forall|i: int| leader_index <= i < 8 ==> !#[trigger] trace.processed@[i],
        decreases 8 - leader_index,
    {
        let leader = ls.leaders[leader_index];
        if leader.flags & flag::PROCESS != 0 {
            trace.processed[leader_index] = true;
            end_leader(&mut ls.end, &leader, leader_index, frame, &mut trace);
        }
        leader_index = leader_index + 1;
    }
    proof {
        assert(end_fold(old(ls).leaders@, end0, frame, 8) == end_fold(old(ls).leaders@, old(ls).end, frame, 8)) by {
            lemma_end_fold_reads_only(old(ls).leaders@, end0, old(ls).end, frame, 8);
        }
    }
    trace
}

/// The fold reads of the outside state only the player table, the local identity and the
/// limit option.
proof fn lemma_end_fold_reads_only(leaders: Seq<Leader>, e1: EndProcessState, e2: EndProcessState, frame: i32, n: nat)
    requires
        e1.players == e2.players,
        e1.local_who == e2.local_who,
        e1.local_play == e2.local_play,
        e1.pop_limit_index == e2.pop_limit_index,
    ensures
        end_fold(leaders, e1, frame, n) == end_fold(leaders, e2, frame, n),
    decreases n,
{
    if n > 0 {
        lemma_end_fold_reads_only(leaders, e1, e2, frame, (n - 1) as nat);
    }
}

// ---------------------------------------------------------------------------------------
// Leaders::process_event_frames: step 19 over the leader records
// ---------------------------------------------------------------------------------------

/// The step-19 event block of a leader record.
pub open spec fn queue_of(f: EventFrameState) -> step19::EventQueueState {
    step19::EventQueueState {
        frame_battle: f.frame_battle,
        average_death_rate: f.average_death_rate,
        average_kill_rate: f.average_kill_rate,
        average_damage_rate: f.average_damage_rate,
        average_hit_rate: f.average_hit_rate,
        deaths_current_frame: f.deaths_current_frame,
        kills_current_frame: f.kills_current_frame,
        hits_current_frame: f.hits_current_frame,
        damage_current_frame: f.damage_current_frame,
        deaths_fifteen_seconds: f.deaths_fifteen_seconds,
        kills_fifteen_seconds: f.kills_fifteen_seconds,
        hits_fifteen_seconds: f.hits_fifteen_seconds,
        damage_fifteen_seconds: f.damage_fifteen_seconds,
    }
}

/// The leader record's event block holding a step-19 queue.
pub open spec fn frame_of(q: step19::EventQueueState) -> EventFrameState {
    EventFrameState {
        frame_battle: q.frame_battle,
        average_death_rate: q.average_death_rate,
        average_kill_rate: q.average_kill_rate,
        average_damage_rate: q.average_damage_rate,
        average_hit_rate: q.average_hit_rate,
        deaths_current_frame: q.deaths_current_frame,
        kills_current_frame: q.kills_current_frame,
        hits_current_frame: q.hits_current_frame,
        damage_current_frame: q.damage_current_frame,
        deaths_fifteen_seconds: q.deaths_fifteen_seconds,
        kills_fifteen_seconds: q.kills_fifteen_seconds,
        hits_fifteen_seconds: q.hits_fifteen_seconds,
        damage_fifteen_seconds: q.damage_fifteen_seconds,
    }
}

/// What step 19 reads of a leader record.
pub open spec fn slot_of(l: Leader) -> step19::LeaderSlot {
    step19::LeaderSlot { flags: l.flags, who: l.slot, diplos: l.diplo, event_queue: queue_of(l.event_frame) }
}

/// An age as the product stores it: xored with the ages key.
pub open spec fn encrypted_age(age: Option<i32>) -> Option<u32> {
    match age {
        Some(a) => Some((a as u32) ^ step19::AGES_XOR_KEY),
        None => None,
    }
}

/// The product facts step 19 reads: the frame, the console player, the team scores and
/// the encrypted ages.
pub open spec fn event_facts(input: EventFrameInputs, console_who: i32) -> step19::ProductFacts {
    step19::ProductFacts {
        frame: input.frame,
        console_who,
        team_scores: input.team_scores,
        encrypted_ages: [
            encrypted_age(input.age_by_who@[0]),
            encrypted_age(input.age_by_who@[1]),
            encrypted_age(input.age_by_who@[2]),
            encrypted_age(input.age_by_who@[3]),
            encrypted_age(input.age_by_who@[4]),
            encrypted_age(input.age_by_who@[5]),
            encrypted_age(input.age_by_who@[6]),
            encrypted_age(input.age_by_who@[7]),
        ],
    }
}

/// The mood requests among a run of host tails, in order.
pub open spec fn moods_of(s: Seq<step19::HostTailReceipt>) -> Seq<CombatMoodRequest>
    decreases s.len(),
{
    if s.len() == 0 {
        Seq::empty()
    } else {
        let t = s.last();
        moods_of(s.drop_last()) + match t.host_tail {
            step19::HostTail::JukeBoxSetNextMood { requested_mood, force, .. } => seq![
                CombatMoodRequest { leader_index: t.leader_index, mood: requested_mood, force },
            ],
            _ => Seq::empty(),
        }
    }
}

/// The achievement kind of a battle event kind.
pub open spec fn achievement_kind(k: step19::BattleEventKind) -> BattleAchievementKind {
    match k {
        step19::BattleEventKind::KillsOverDeaths => BattleAchievementKind::KillsOverDeaths,
        step19::BattleEventKind::DeathsOverKills => BattleAchievementKind::DeathsOverKills,
    }
}

/// The achievement events among a run of host tails, in order.
pub open spec fn achievements_of(s: Seq<step19::HostTailReceipt>) -> Seq<BattleAchievementEvent>
    decreases s.len(),
{
    if s.len() == 0 {
        Seq::empty()
    } else {
        let t = s.last();
        achievements_of(s.drop_last()) + match t.host_tail {
            step19::HostTail::AchieveAddEvent { kind, who, .. } => seq![
                BattleAchievementEvent { leader_index: t.leader_index, who, kind: achievement_kind(kind) },
            ],
            _ => Seq::empty(),
        }
    }
}

/// The missing fact a residual stands for.
pub open spec fn missing_fact_of(r: step19::OpenResidual) -> EventFrameMissingFact {
    match r {
        step19::OpenResidual::LeaderWhoOutsideArray { who } => EventFrameMissingFact::LocalLeaderSlot(who),
        step19::OpenResidual::OtherWhoOutsideArray { other_leader_index, who } => EventFrameMissingFact::OtherLeaderSlot {
            leader_index: other_leader_index,
            who,
        },
        step19::OpenResidual::TeamScoreUnavailable { queried_leader_index } => EventFrameMissingFact::TeamScoreForLeader(
            queried_leader_index,
        ),
        step19::OpenResidual::EncryptedAgeUnavailable { who_index } => EventFrameMissingFact::AgeForWho(who_index as i32),
    }
}

fn queue_from(f: EventFrameState) -> (q: step19::EventQueueState)
    ensures
        q == queue_of(f),
{
    step19::EventQueueState {
        frame_battle: f.frame_battle,
        average_death_rate: f.average_death_rate,
        average_kill_rate: f.average_kill_rate,
        average_damage_rate: f.average_damage_rate,
        average_hit_rate: f.average_hit_rate,
        deaths_current_frame: f.deaths_current_frame,
        kills_current_frame: f.kills_current_frame,
        hits_current_frame: f.hits_current_frame,
        damage_current_frame: f.damage_current_frame,
        deaths_fifteen_seconds: f.deaths_fifteen_seconds,
        kills_fifteen_seconds: f.kills_fifteen_seconds,
        hits_fifteen_seconds: f.hits_fifteen_seconds,
        damage_fifteen_seconds: f.damage_fifteen_seconds,
    }
}

fn frame_from(q: step19::EventQueueState) -> (f: EventFrameState)
    ensures
        f == frame_of(q),
{
    EventFrameState {
        frame_battle: q.frame_battle,
        average_death_rate: q.average_death_rate,
        average_kill_rate: q.average_kill_rate,
        average_damage_rate: q.average_damage_rate,
        average_hit_rate: q.average_hit_rate,
        deaths_current_frame: q.deaths_current_frame,
        kills_current_frame: q.kills_current_frame,
        hits_current_frame: q.hits_current_frame,
        damage_current_frame: q.damage_current_frame,
        deaths_fifteen_seconds: q.deaths_fifteen_seconds,
        kills_fifteen_seconds: q.kills_fifteen_seconds,
        hits_fifteen_seconds: q.hits_fifteen_seconds,
        damage_fifteen_seconds: q.damage_fifteen_seconds,
    }
}

fn slot_from(l: &Leader) -> (s: step19::LeaderSlot)
    ensures
        s == slot_of(*l),
{
    step19::LeaderSlot { flags: l.flags, who: l.slot, diplos: l.diplo, event_queue: queue_from(l.event_frame) }
}

fn encrypt_age(age: Option<i32>) -> (r: Option<u32>)
    ensures
        r == encrypted_age(age),
{
    match age {
        Some(a) => Some((a as u32) ^ step19::AGES_XOR_KEY),
        None => None,
    }
}

/// The step-19 projections of the host tails: the mood requests and the achievement
/// events, each in order.
fn project_tails(tails: &Vec<step19::HostTailReceipt>) -> (r: (Vec<CombatMoodRequest>, Vec<BattleAchievementEvent>))
    ensures
        r.0@ == moods_of(tails@),
        r.1@ == achievements_of(tails@),
{
    let mut moods: Vec<CombatMoodRequest> = Vec::new();
    let mut events: Vec<BattleAchievementEvent> = Vec::new();
    let mut i: usize = 0;
    while i < tails.len()
        invariant
            i <= tails.len(),
            moods@ == moods_of(tails@.subrange(0, i as int)),
            events@ == achievements_of(tails@.subrange(0, i as int)),
        decreases tails.len() - i,
    {
        assert(tails@.subrange(0, i + 1).drop_last() =~= tails@.subrange(0, i as int));
        let t = tails[i];
        match t.host_tail {
            step19::HostTail::JukeBoxSetNextMood { requested_mood, force, .. } => {
                moods.push(CombatMoodRequest { leader_index: t.leader_index, mood: requested_mood, force });
            },
            step19::HostTail::AchieveAddEvent { kind, who, .. } => {
                let k = match kind {
                    step19::BattleEventKind::KillsOverDeaths => BattleAchievementKind::KillsOverDeaths,
                    step19::BattleEventKind::DeathsOverKills => BattleAchievementKind::DeathsOverKills,
                };
                events.push(BattleAchievementEvent { leader_index: t.leader_index, who, kind: k });
            },
        }
        i = i + 1;
    }
    assert(tails@.subrange(0, tails.len() as int) =~= tails@);
    (moods, events)
}

/// The missing facts the residuals stand for, in order.
fn project_residuals(residuals: &Vec<step19::ResidualReceipt>) -> (r: Vec<EventFrameMissingFact>)
    ensures
        r@ == residuals@.map_values(|x: step19::ResidualReceipt| missing_fact_of(x.residual)),
{
    let mut out: Vec<EventFrameMissingFact> = Vec::new();
    let mut i: usize = 0;
    while i < residuals.len()
        invariant
            i <= residuals.len(),
            out@ == residuals@.subrange(0, i as int).map_values(|x: step19::ResidualReceipt| missing_fact_of(x.residual)),
        decreases residuals.len() - i,
    {
        let f = match residuals[i].residual {
            step19::OpenResidual::LeaderWhoOutsideArray { who } => EventFrameMissingFact::LocalLeaderSlot(who),
            step19::OpenResidual::OtherWhoOutsideArray { other_leader_index, who } => EventFrameMissingFact::OtherLeaderSlot {
                leader_index: other_leader_index,
                who,
            },
            step19::OpenResidual::TeamScoreUnavailable { queried_leader_index } => EventFrameMissingFact::TeamScoreForLeader(
                queried_leader_index,
            ),
            step19::OpenResidual::EncryptedAgeUnavailable { who_index } => EventFrameMissingFact::AgeForWho(who_index as i32),
        };
        out.push(f);
        assert(residuals@.subrange(0, i + 1).map_values(|x: step19::ResidualReceipt| missing_fact_of(x.residual))
            =~= residuals@.subrange(0, i as int).map_values(|x: step19::ResidualReceipt| missing_fact_of(x.residual)).push(f));
        i = i + 1;
    }
    assert(residuals@.subrange(0, residuals.len() as int) =~= residuals@);
    out
}

/// **Step 19 over the leader records.** The event blocks, flags, slots and relations of
/// the eight records, the music moods and the console player go through
/// `Leader::process_event_frame` exactly as [`step19::execute_step19`] runs it; the folded
/// event blocks and the requested mood are written back, and the reached presentation
/// calls and missing facts are projected from its receipts. Only this call's calls and
/// requests stay in the presentation state.
pub fn process_event_frames(ls: &mut Leaders, input: EventFrameInputs) -> (trace: EventFrameTrace)
    ensures
        ({
            let slots0 = Seq::new(8, |i: int| slot_of(old(ls).leaders@[i]));
            let music0 = step19::MusicState {
                current_mood: old(ls).event.current_music_mood,
                next_mood: old(ls).event.next_music_mood,
            };
            let (slots, mu, outs, eff) = step19::step19_run(slots0, music0, event_facts(input, old(ls).end.local_who), 8);
            &&& step19::trace_files(trace.exact, eff)
            &&& forall|i: int|
                0 <= i < 8 ==> {
                    &&& #[trigger] final(ls).leaders@[i] == (Leader {
                        event_frame: frame_of(slots[i].event_queue),
                        ..old(ls).leaders@[i]
                    })
                    &&& trace.exact.visits@[i].outcome == outs[i]
                    &&& trace.dispatched@[i] == (outs[i] is FrameNotDue || outs[i] is Due)
                    &&& trace.due@[i] == outs[i] is Due
                }
            &&& final(ls).event.next_music_mood == mu.next_mood
        }),
        final(ls).event.current_music_mood == old(ls).event.current_music_mood,
        final(ls).end == old(ls).end,
        final(ls).event.product_outbox.last_calls@ == trace.exact.host_tails@,
        trace.mood_requests@ == moods_of(trace.exact.host_tails@),
        final(ls).event.last_mood_requests@ == trace.mood_requests@,
        trace.achievement_events@ == achievements_of(trace.exact.host_tails@),
        final(ls).event.last_achievement_events@ == trace.achievement_events@,
        trace.missing_facts@ == trace.exact.residuals@.map_values(
            |x: step19::ResidualReceipt| missing_fact_of(x.residual),
        ),
{
    let mut state = step19::Step19State {
        leaders: [
            slot_from(&ls.leaders[0]),
            slot_from(&ls.leaders[1]),
            slot_from(&ls.leaders[2]),
            slot_from(&ls.leaders[3]),
            slot_from(&ls.leaders[4]),
            slot_from(&ls.leaders[5]),
            slot_from(&ls.leaders[6]),
            slot_from(&ls.leaders[7]),
        ],
        music: step19::MusicState { current_mood: ls.event.current_music_mood, next_mood: ls.event.next_music_mood },
    };
    let ages = input.age_by_who;
    let facts = step19::ProductFacts {
        frame: input.frame,
        console_who: ls.end.local_who,
        team_scores: input.team_scores,
        encrypted_ages: [
            encrypt_age(ages[0]),
            encrypt_age(ages[1]),
            encrypt_age(ages[2]),
            encrypt_age(ages[3]),
            encrypt_age(ages[4]),
            encrypt_age(ages[5]),
            encrypt_age(ages[6]),
            encrypt_age(ages[7]),
        ],
    };
    proof {
        assert(state.leaders@ =~= Seq::new(8, |i: int| slot_of(old(ls).leaders@[i])));
        assert(facts == event_facts(input, old(ls).end.local_who));
    }
    let exact = step19::execute_step19(&mut state, facts);
    let mut i: usize = 0;
    while i < 8
        invariant
            i <= 8,
            ls.end == old(ls).end,
            ls.event == old(ls).event,
            forall|j: int|
                0 <= j < i ==> #[trigger] ls.leaders@[j] == (Leader {
                    event_frame: frame_of(state.leaders@[j].event_queue),
                    ..old(ls).leaders@[j]
                }),
            forall|j: int| i <= j < 8 ==> #[trigger] ls.leaders@[j] == old(ls).leaders@[j],
        decreases 8 - i,
    {
        let mut l = ls.leaders[i];
        l.event_frame = frame_from(state.leaders[i].event_queue);
        ls.leaders[i] = l;
        i = i + 1;
    }
    ls.event.next_music_mood = state.music.next_mood;
    let mut dispatched = [false; 8];
    let mut due = [false; 8];
    let mut k: usize = 0;
    while k < 8
        invariant
            k <= 8,
            forall|j: int|
                0 <= j < k ==> #[trigger] dispatched@[j] == (exact.visits@[j].outcome is FrameNotDue
                    || exact.visits@[j].outcome is Due),
            forall|j: int| 0 <= j < k ==> #[trigger] due@[j] == exact.visits@[j].outcome is Due,
            forall|j: int| k <= j < 8 ==> !#[trigger] dispatched@[j],
            forall|j: int| k <= j < 8 ==> !#[trigger] due@[j],
        decreases 8 - k,
    {
        match exact.visits[k].outcome {
            step19::LeaderOutcome::FrameNotDue => {
                dispatched[k] = true;
            },
            step19::LeaderOutcome::Due { .. } => {
                dispatched[k] = true;
                due[k] = true;
            },
            _ => {},
        }
        k = k + 1;
    }
    let (moods, events) = project_tails(&exact.host_tails);
    let missing = project_residuals(&exact.residuals);
    ls.event.product_outbox.last_calls = exact.host_tails.clone();
    ls.event.last_mood_requests = moods.clone();
    ls.event.last_achievement_events = events.clone();
    EventFrameTrace {
        dispatched,
        due,
        mood_requests: moods,
        achievement_events: events,
        missing_facts: missing,
        exact,
    }
}

/// **Step 11.** `Leaders::strategy_all` `0x006ED430` (93 bytes): each leader with both low
/// flag bits runs `check_explore` and then reaches the plan, score and diplomacy calls, in
/// slot order; the victory check follows on its semaphore, whether or not any leader ran.
pub fn strategy_all(ls: &mut Leaders, input: StrategyInputs<'_>) -> (trace: StrategyTrace)
    requires
        forall|i: int|
            0 <= i < 8 && strategy_active(old(ls).leaders@[i]) ==> !(input.frame != 0
                && EXPLORE_PERIOD_BASE.checked_div(input.ai_speed) == Some(-1i32) && explore_phase(
                old(ls).leaders@[i].slot,
                input.frame,
            ) == i32::MIN),
    ensures
        forall|i: int|
            #![trigger final(ls).leaders@[i]]
            #![trigger trace.processed@[i]]
            #![trigger trace.explore@[i]]
            0 <= i < 8 ==> {
                let l = old(ls).leaders@[i];
                &&& trace.processed@[i] == strategy_active(l)
                &&& trace.explore@[i] == if strategy_active(l) {
                    slot_explore(old(ls).leaders@, input, i).0
                } else {
                    ExploreUpdate::NotDue
                }
                &&& final(ls).leaders@[i] == if strategy_active(l) {
                    Leader { explored: slot_explore(old(ls).leaders@, input, i).1, ..l }
                } else {
                    l
                }
            },
        trace.calls@ == strategy_calls(old(ls).leaders@, input, 8) + if input.check_victory_mode {
            seq![StrategyCall::CheckVictory]
        } else {
            Seq::empty()
        },
        final(ls).end == old(ls).end,
        final(ls).event == old(ls).event,
{
    strategy_records(&mut ls.leaders, input)
}

// ---------------------------------------------------------------------------------------
// The 3000-band pass of Leader::calc_wall_stats
// ---------------------------------------------------------------------------------------

/// The object after `Wall::update_construct_time`, and whether the call resolved.
#[verifier::opaque]
pub open spec fn construct_time_applied(o: StatObject, leader: Leader, rules: Step8Rules) -> (StatObject, bool) {
    match o.wall_construct_time_inputs {
        None => (o, false),
        Some(input) => match construct_time_spec(input, leader, rules) {
            None => (o, false),
            Some(v) => (StatObject { constr_time: v, construct_time_written: true, ..o }, true),
        },
    }
}

/// The object after `Object::update_hits`, and whether the call resolved.
#[verifier::opaque]
pub open spec fn object_hits_applied(o: StatObject) -> (StatObject, bool) {
    match o.hit_inputs {
        None => (o, false),
        Some(i) => (
            StatObject { myhits: selected_hits(i), object_hits_updates: o.object_hits_updates.wrapping_add(1), ..o },
            true,
        ),
    }
}

/// The object after `Object::update_los`, and whether the call resolved.
#[verifier::opaque]
pub open spec fn object_los_applied(o: StatObject) -> (StatObject, bool) {
    match o.type_los {
        None => (o, false),
        Some(base) => {
            let los: i8 = if o.owner_in_game {
                base
            } else {
                0i8
            };
            (StatObject { mylos: los, object_los_updates: o.object_los_updates.wrapping_add(1), ..o }, true)
        },
    }
}

/// The construction call of the pass: made, and counted on the object, only under
/// construction.
#[verifier::opaque]
pub open spec fn pass_construct(o: StatObject, leader: Leader, rules: Step8Rules) -> (StatObject, Option<bool>) {
    if !o.wall_active {
        let (x, r) = construct_time_applied(
            StatObject { construct_time_updates: (o.construct_time_updates + 1) as u32, ..o },
            leader,
            rules,
        );
        (x, Some(r))
    } else {
        (o, None)
    }
}

/// The hits call of the pass, counted on the object.
#[verifier::opaque]
pub open spec fn pass_hits(o: StatObject) -> (StatObject, bool) {
    object_hits_applied(StatObject { v15c_calls: (o.v15c_calls + 1) as u32, ..o })
}

/// The line-of-sight call of the pass, counted on the object.
#[verifier::opaque]
pub open spec fn pass_los(o: StatObject) -> (StatObject, bool) {
    object_los_applied(StatObject { v160_calls: (o.v160_calls + 1) as u32, ..o })
}

/// One object of the 3000 band: an inactive object is only visited; an active one under
/// construction first has its construction time derived, then every active one has its
/// hits and line of sight updated, each call counted on the object. Also which of the
/// calls resolved (`None` for a construction call not made).
pub open spec fn wall_pass_step(o: StatObject, leader: Leader, rules: Step8Rules) -> (StatObject, Option<bool>, bool, bool) {
    if !o.active {
        (o, None, false, false)
    } else {
        let (o1, ct) = pass_construct(o, leader, rules);
        let (o2, h) = pass_hits(o1);
        let (o3, l) = pass_los(o2);
        (o3, ct, h, l)
    }
}

/// One in a count when `b` holds.
pub open spec fn one_if(b: bool) -> int {
    if b {
        1
    } else {
        0
    }
}

/// The pass counts of one object added to `c`.
pub open spec fn wall_pass_count(c: StatPassCounts, o: StatObject, leader: Leader, rules: Step8Rules) -> StatPassCounts {
    let (_, ct, h, l) = wall_pass_step(o, leader, rules);
    let c1 = StatPassCounts { visited: (c.visited + 1) as u32, ..c };
    if !o.active {
        c1
    } else {
        let made = ct is Some;
        let resolved = ct == Some(true);
        StatPassCounts {
            active: (c1.active + 1) as u32,
            construct_time_updates: (c1.construct_time_updates + one_if(made)) as u32,
            construct_time_resolved: (c1.construct_time_resolved + one_if(resolved)) as u32,
            object_hits_updates: (c1.object_hits_updates + one_if(h)) as u32,
            object_los_updates: (c1.object_los_updates + one_if(l)) as u32,
            unresolved_calls: (c1.unresolved_calls + one_if(made && !resolved) + one_if(!h) + one_if(!l)) as u32,
            ..c1
        }
    }
}

/// The counts of the first `n` objects of a band, from zero.
pub open spec fn wall_pass_counts(band: Seq<StatObject>, leader: Leader, rules: Step8Rules, n: nat) -> StatPassCounts
    decreases n,
{
    if n == 0 {
        zero_counts()
    } else {
        wall_pass_count(wall_pass_counts(band, leader, rules, (n - 1) as nat), band[n - 1], leader, rules)
    }
}

/// All counts zero.
pub open spec fn zero_counts() -> StatPassCounts {
    StatPassCounts {
        visited: 0,
        active: 0,
        construct_time_updates: 0,
        construct_time_resolved: 0,
        speed_updates: 0,
        armor_updates: 0,
        object_hits_updates: 0,
        object_los_updates: 0,
        unit_armor_updates: 0,
        unit_speed_updates: 0,
        unit_query_populations: 0,
        unit_query_misses: 0,
        wall_hits_updates: 0,
        wall_los_updates: 0,
        eject_contents_calls: 0,
        unresolved_calls: 0,
    }
}

/// Every count of the first `n` objects is at most twice `n` (the unresolved count takes
/// at most two per object... three with the construction call).
proof fn lemma_wall_pass_counts_bounded(band: Seq<StatObject>, leader: Leader, rules: Step8Rules, n: nat)
    requires
        n <= band.len(),
        3 * band.len() <= u32::MAX,
    ensures
        ({
            let c = wall_pass_counts(band, leader, rules, n);
            &&& c.visited == n
            &&& c.active <= n
            &&& c.construct_time_updates <= n
            &&& c.construct_time_resolved <= n
            &&& c.object_hits_updates <= n
            &&& c.object_los_updates <= n
            &&& c.unresolved_calls <= 3 * n
            &&& c.speed_updates == 0
            &&& c.armor_updates == 0
            &&& c.unit_armor_updates == 0
            &&& c.unit_speed_updates == 0
            &&& c.unit_query_populations == 0
            &&& c.unit_query_misses == 0
            &&& c.wall_hits_updates == 0
            &&& c.wall_los_updates == 0
            &&& c.eject_contents_calls == 0
        }),
    decreases n,
{
    if n > 0 {
        lemma_wall_pass_counts_bounded(band, leader, rules, (n - 1) as nat);
    }
}

fn apply_construct_time(o: &mut StatObject, leader: &Leader, rules: &Step8Rules) -> (r: bool)
    ensures
        (*final(o), r) == construct_time_applied(*old(o), *leader, *rules),
{
    proof {
        reveal(construct_time_applied);
    }
    wall_update_construct_time(o, leader, rules).is_some()
}

fn apply_object_hits(o: &mut StatObject) -> (r: bool)
    ensures
        (*final(o), r) == object_hits_applied(*old(o)),
{
    proof {
        reveal(object_hits_applied);
    }
    object_update_hits(o, false).is_some()
}

fn apply_object_los(o: &mut StatObject) -> (r: bool)
    ensures
        (*final(o), r) == object_los_applied(*old(o)),
{
    proof {
        reveal(object_los_applied);
    }
    object_update_los(o).is_some()
}

fn apply_pass_construct(o: &mut StatObject, leader: &Leader, rules: &Step8Rules) -> (r: Option<bool>)
    requires
        old(o).construct_time_updates < u32::MAX,
    ensures
        (*final(o), r) == pass_construct(*old(o), *leader, *rules),
{
    proof {
        reveal(pass_construct);
    }
    if !o.wall_active {
        o.construct_time_updates = o.construct_time_updates + 1;
        Some(apply_construct_time(o, leader, rules))
    } else {
        None
    }
}

fn apply_pass_hits(o: &mut StatObject) -> (r: bool)
    requires
        old(o).v15c_calls < u32::MAX,
    ensures
        (*final(o), r) == pass_hits(*old(o)),
{
    proof {
        reveal(pass_hits);
    }
    o.v15c_calls = o.v15c_calls + 1;
    apply_object_hits(o)
}

fn apply_pass_los(o: &mut StatObject) -> (r: bool)
    requires
        old(o).v160_calls < u32::MAX,
    ensures
        (*final(o), r) == pass_los(*old(o)),
{
    proof {
        reveal(pass_los);
    }
    o.v160_calls = o.v160_calls + 1;
    apply_object_los(o)
}

/// The pass calls leave the later call counters alone.
proof fn lemma_pass_frame(o: StatObject, leader: Leader, rules: Step8Rules)
    ensures
        pass_construct(o, leader, rules).0.v15c_calls == o.v15c_calls,
        pass_construct(o, leader, rules).0.v160_calls == o.v160_calls,
        pass_hits(o).0.v160_calls == o.v160_calls,
{
    reveal(pass_construct);
    reveal(pass_hits);
    reveal(construct_time_applied);
    reveal(object_hits_applied);
}

/// One object of the band, as [`wall_pass_step`] says: the object and which calls resolved.
fn wall_pass_object(o: &mut StatObject, leader: &Leader, rules: &Step8Rules) -> (r: (Option<bool>, bool, bool))
    requires
        old(o).construct_time_updates < u32::MAX,
        old(o).v15c_calls < u32::MAX,
        old(o).v160_calls < u32::MAX,
    ensures
        (*final(o), r.0, r.1, r.2) == wall_pass_step(*old(o), *leader, *rules),
{
    if !o.active {
        return (None, false, false);
    }
    proof {
        lemma_pass_frame(*o, *leader, *rules);
    }
    let ct = apply_pass_construct(o, leader, rules);
    proof {
        lemma_pass_frame(*o, *leader, *rules);
    }
    let h = apply_pass_hits(o);
    let l = apply_pass_los(o);
    (ct, h, l)
}

/// One object of the band, as [`wall_pass_step`] and [`wall_pass_count`] say.
fn wall_pass_one(o: &mut StatObject, c: &mut StatPassCounts, leader: &Leader, rules: &Step8Rules)
    requires
        old(o).construct_time_updates < u32::MAX,
        old(o).v15c_calls < u32::MAX,
        old(o).v160_calls < u32::MAX,
        old(c).visited < u32::MAX,
        old(c).active < u32::MAX,
        old(c).construct_time_updates < u32::MAX,
        old(c).construct_time_resolved < u32::MAX,
        old(c).object_hits_updates < u32::MAX,
        old(c).object_los_updates < u32::MAX,
        old(c).unresolved_calls + 3 <= u32::MAX,
    ensures
        *final(o) == wall_pass_step(*old(o), *leader, *rules).0,
        *final(c) == wall_pass_count(*old(c), *old(o), *leader, *rules),
{
    let active = o.active;
    let (ct, h, l) = wall_pass_object(o, leader, rules);
    c.visited = c.visited + 1;
    if active {
        c.active = c.active + 1;
        match ct {
            Some(resolved) => {
                c.construct_time_updates = c.construct_time_updates + 1;
                if resolved {
                    c.construct_time_resolved = c.construct_time_resolved + 1;
                } else {
                    c.unresolved_calls = c.unresolved_calls + 1;
                }
            },
            None => {},
        }
        if h {
            c.object_hits_updates = c.object_hits_updates + 1;
        } else {
            c.unresolved_calls = c.unresolved_calls + 1;
        }
        if l {
            c.object_los_updates = c.object_los_updates + 1;
        } else {
            c.unresolved_calls = c.unresolved_calls + 1;
        }
    }
}

/// The `WallData` band of `Leader::calc_wall_stats` `0x006CF7C0` (the second loop): for each
/// active object, the construction time while under construction (the direct call at
/// `0x006CF908`), then the base `Object` hits and line of sight, each call counted on the
/// object and in the returned counts. The call counters on the objects must have room.
pub fn wall_band_pass(band: &mut Vec<StatObject>, leader: &Leader, rules: &Step8Rules) -> (c: StatPassCounts)
    requires
        3 * old(band)@.len() <= u32::MAX,
        forall|k: int|
            0 <= k < old(band)@.len() ==> (#[trigger] old(band)@[k]).construct_time_updates < u32::MAX
                && old(band)@[k].v15c_calls < u32::MAX && old(band)@[k].v160_calls < u32::MAX,
    ensures
        final(band)@.len() == old(band)@.len(),
        forall|k: int|
            0 <= k < old(band)@.len() ==> #[trigger] final(band)@[k] == wall_pass_step(old(band)@[k], *leader, *rules).0,
        c == wall_pass_counts(old(band)@, *leader, *rules, old(band)@.len()),
{
    let mut c = StatPassCounts {
        visited: 0,
        active: 0,
        construct_time_updates: 0,
        construct_time_resolved: 0,
        speed_updates: 0,
        armor_updates: 0,
        object_hits_updates: 0,
        object_los_updates: 0,
        unit_armor_updates: 0,
        unit_speed_updates: 0,
        unit_query_populations: 0,
        unit_query_misses: 0,
        wall_hits_updates: 0,
        wall_los_updates: 0,
        eject_contents_calls: 0,
        unresolved_calls: 0,
    };
    let ghost b0 = band@;
    let mut i: usize = 0;
    while i < band.len()
        invariant
            i <= band@.len(),
            b0 == old(band)@,
            band@.len() == b0.len(),
            3 * b0.len() <= u32::MAX,
            forall|k: int|
                0 <= k < b0.len() ==> (#[trigger] b0[k]).construct_time_updates < u32::MAX && b0[k].v15c_calls
                    < u32::MAX && b0[k].v160_calls < u32::MAX,
            forall|k: int| 0 <= k < i ==> #[trigger] band@[k] == wall_pass_step(b0[k], *leader, *rules).0,
            forall|k: int| i <= k < b0.len() ==> #[trigger] band@[k] == b0[k],
            c == wall_pass_counts(b0, *leader, *rules, i as nat),
        decreases band@.len() - i,
    {
        proof {
            lemma_wall_pass_counts_bounded(b0, *leader, *rules, i as nat);
        }
        let mut o = band[i];
        wall_pass_one(&mut o, &mut c, leader, rules);
        band[i] = o;
        i = i + 1;
    }
    c
}

// ---------------------------------------------------------------------------------------
// The unit band of Leader::calc_unit_stats
// ---------------------------------------------------------------------------------------

/// The six lineage answers the speed package needs: whether the type is `0x68`, `0x66`,
/// `0x64`, `0x62`, `0x42` and `0x3a`; `None` when one is a missing fact.
pub open spec fn lineage_spec(rows: Seq<Option<UnitTypeStatRow>>, t: i32) -> Option<(bool, bool, bool, bool, bool, bool)> {
    let f = lineage_fuel(rows);
    match (
        unit_is_spec(rows, t, 0x68, f),
        unit_is_spec(rows, t, 0x66, f),
        unit_is_spec(rows, t, 0x64, f),
        unit_is_spec(rows, t, 0x62, f),
        unit_is_spec(rows, t, 0x42, f),
        unit_is_spec(rows, t, 0x3a, f),
    ) {
        (Some(a), Some(b), Some(c), Some(d), Some(e), Some(g)) => Some((a, b, c, d, e, g)),
        _ => None,
    }
}

/// Both packages from a type row, the live object facts, the lineage and the leader.
pub open spec fn packages_of(
    row: UnitTypeStatRow,
    source: UnitQuerySource,
    lineage: (bool, bool, bool, bool, bool, bool),
    leader: Leader,
) -> (UnitSpeedInputs, UnitArmorInputs) {
    let live = leader.unit_stats;
    let supply = row.unit_flags2 & 0x40 != 0;
    (
        UnitSpeedInputs {
            type_moves: row.moves,
            domain: row.domain,
            unit_flags: row.unit_flags,
            unit_data_flags: source.unit_masks2,
            military_epoch: live.military_epoch,
            has_objmask_2000: row.obj_masks & 0x2000 != 0,
            is_68: lineage.0,
            is_66: lineage.1,
            is_64: lineage.2,
            is_62: lineage.3,
            is_42: lineage.4,
            is_3a: lineage.5,
            type_line: row.where_type,
            type_id: row.type_id,
            bantu: tribe_bit(live.tribe_bonuses, 3),
            french: tribe_bit(live.tribe_bonuses, 10),
            versailles: live.versailles,
            spy_upgrade: live.spy_upgrade,
            hero: row.unit_flags2 & 0x20 != 0,
            general_upgrade: live.general_upgrade,
            supply,
            supply_upgrade: live.supply_upgrade,
            aztec: tribe_bit(live.tribe_bonuses, 0),
        },
        UnitArmorInputs {
            type_armor: row.armor,
            dutch: tribe_bit(live.tribe_bonuses, 0x16),
            dutch_armor_eligible: true,
            type_id: row.type_id,
            caravan: row.unit_flags2 & 8 != 0,
            supply,
            patch_version: live.patch_version,
            gov_hero: row.unit_flags & 0x0400_0000 != 0,
            special_family_32_33: row.type_id == 0x32 || row.type_id == 0x33,
        },
    )
}

/// Both query packages of a unit, rebuilt from its type row, the type lineage and the
/// leader's answers; `None` when the row or a lineage fact is missing.
#[verifier::opaque]
pub open spec fn derive_spec(rows: Seq<Option<UnitTypeStatRow>>, source: UnitQuerySource, leader: Leader) -> Option<
    (UnitSpeedInputs, UnitArmorInputs),
> {
    match row_at(rows, source.type_id) {
        None => None,
        Some(row) => match lineage_spec(rows, source.type_id) {
            None => None,
            Some(l) => Some(packages_of(row, source, l, leader)),
        },
    }
}

fn lineage(table: &UnitTypeStatSource, t: i32) -> (r: Option<(bool, bool, bool, bool, bool, bool)>)
    ensures
        r == lineage_spec(table.rows_spec(), t),
{
    let i68 = shipped_unit_is(table, t, 0x68);
    let i66 = shipped_unit_is(table, t, 0x66);
    let i64 = shipped_unit_is(table, t, 0x64);
    let i62 = shipped_unit_is(table, t, 0x62);
    let i42 = shipped_unit_is(table, t, 0x42);
    let i3a = shipped_unit_is(table, t, 0x3a);
    match (i68, i66, i64, i62, i42, i3a) {
        (Some(a), Some(b), Some(c), Some(d), Some(e), Some(g)) => Some((a, b, c, d, e, g)),
        _ => None,
    }
}

fn packages(row: UnitTypeStatRow, source: UnitQuerySource, l: (bool, bool, bool, bool, bool, bool), leader: &Leader) -> (r: (
    UnitSpeedInputs,
    UnitArmorInputs,
))
    ensures
        r == packages_of(row, source, l, *leader),
{
    let live = leader.unit_stats;
    let supply = row.unit_flags2 & 0x40 != 0;
    let speed = UnitSpeedInputs {
        type_moves: row.moves,
        domain: row.domain,
        unit_flags: row.unit_flags,
        unit_data_flags: source.unit_masks2,
        military_epoch: live.military_epoch,
        has_objmask_2000: row.obj_masks & 0x2000 != 0,
        is_68: l.0,
        is_66: l.1,
        is_64: l.2,
        is_62: l.3,
        is_42: l.4,
        is_3a: l.5,
        type_line: row.where_type,
        type_id: row.type_id,
        bantu: live.has_tribe_bonus(3),
        french: live.has_tribe_bonus(10),
        versailles: live.versailles,
        spy_upgrade: live.spy_upgrade,
        hero: row.unit_flags2 & 0x20 != 0,
        general_upgrade: live.general_upgrade,
        supply,
        supply_upgrade: live.supply_upgrade,
        aztec: live.has_tribe_bonus(0),
    };
    let armor = UnitArmorInputs {
        type_armor: row.armor,
        dutch: live.has_tribe_bonus(0x16),
        // The shared `UnitData` body answers true.
        dutch_armor_eligible: true,
        type_id: row.type_id,
        caravan: row.unit_flags2 & 8 != 0,
        supply,
        patch_version: live.patch_version,
        gov_hero: row.unit_flags & 0x0400_0000 != 0,
        special_family_32_33: row.type_id == 0x32 || row.type_id == 0x33,
    };
    (speed, armor)
}

/// Rebuild both query packages of a unit, as [`derive_spec`] says.
pub fn derive_unit_query_packages(table: &UnitTypeStatSource, source: UnitQuerySource, leader: &Leader) -> (r: Option<
    (UnitSpeedInputs, UnitArmorInputs),
>)
    ensures
        r == derive_spec(table.rows_spec(), source, *leader),
{
    proof {
        reveal(derive_spec);
    }
    let row = match table.row(source.type_id) {
        Some(row) => row,
        None => {
            return None;
        },
    };
    match lineage(table, source.type_id) {
        Some(l) => Some(packages(row, source, l, leader)),
        None => None,
    }
}

/// The first override row of `type_id` from position `i` on.
pub open spec fn override_from(ovs: Seq<UnitTypeStatOverride>, type_id: i32, i: nat) -> Option<UnitTypeStatOverride>
    decreases ovs.len() - i,
{
    if i >= ovs.len() {
        None
    } else if ovs[i as int].type_id == type_id {
        Some(ovs[i as int])
    } else {
        override_from(ovs, type_id, i + 1)
    }
}

/// The rows of a source, when there is one.
pub open spec fn source_rows(type_source: Option<&UnitTypeStatSource>) -> Option<Seq<Option<UnitTypeStatRow>>> {
    match type_source {
        Some(t) => Some(t.rows_spec()),
        None => None,
    }
}

/// The query-package refresh of a captain with live type facts: both packages are cleared
/// first, then rebuilt from the source (the first override of its type replacing the moves
/// and armor) and counted as a population, or counted as a miss. `None` for a unit without
/// type facts, which keeps its packages.
#[verifier::opaque]
pub open spec fn query_applied(
    o: StatObject,
    rows: Option<Seq<Option<UnitTypeStatRow>>>,
    ovs: Seq<UnitTypeStatOverride>,
    leader: Leader,
) -> (StatObject, Option<bool>) {
    match o.unit_query_source {
        None => (o, None),
        Some(src) => {
            let cleared = StatObject { speed_inputs: None, armor_inputs: None, ..o };
            let d = match rows {
                None => None,
                Some(r) => derive_spec(r, src, leader),
            };
            match d {
                None => (StatObject { unit_query_misses: cleared.unit_query_misses.wrapping_add(1), ..cleared }, Some(false)),
                Some((sp, ar)) => {
                    let (sp2, ar2) = match override_from(ovs, src.type_id, 0) {
                        Some(ov) => (UnitSpeedInputs { type_moves: ov.moves, ..sp }, UnitArmorInputs { type_armor: ov.armor, ..ar }),
                        None => (sp, ar),
                    };
                    (
                        StatObject {
                            speed_inputs: Some(sp2),
                            armor_inputs: Some(ar2),
                            unit_query_populations: cleared.unit_query_populations.wrapping_add(1),
                            ..cleared
                        },
                        Some(true),
                    )
                },
            }
        },
    }
}

/// `Unit::update_speed` on the table: the table after the call, and whether it resolved.
#[verifier::opaque]
pub open spec fn speed_applied(units: Seq<StatObject>, captain: int, leader: Leader, rules: Step8Rules) -> (Seq<StatObject>, bool) {
    if captain >= units.len() || units[captain].speed_inputs is None {
        (units, false)
    } else {
        let c = units[captain];
        let stored = unit_speed_spec(c.speed_inputs->Some_0, leader, rules) as i16;
        let head = units.update(
            captain,
            StatObject { myspeed: stored, speed_written: true, unit_speed_updates: c.unit_speed_updates.wrapping_add(1), ..c },
        );
        spread_spec(head, c.o_down, units.len(), stored, true)
    }
}

/// `Unit::update_armor` on the table: the table after the call, and whether it resolved.
#[verifier::opaque]
pub open spec fn armor_applied(units: Seq<StatObject>, captain: int, leader: Leader, rules: Step8Rules) -> (Seq<StatObject>, bool) {
    if captain >= units.len() || units[captain].armor_inputs is None {
        (units, false)
    } else {
        let c = units[captain];
        let stored = unit_armor_spec(c.armor_inputs->Some_0, leader, rules) as i16;
        let head = units.update(
            captain,
            StatObject { myarmor: stored, armor_written: true, unit_armor_updates: c.unit_armor_updates.wrapping_add(1), ..c },
        );
        spread_spec(head, c.o_down, units.len(), stored, false)
    }
}

/// The object-local part of one active unit: its line of sight; for a captain then the
/// package refresh, its hits, and the two stat-call counters. Also which calls resolved.
pub open spec fn unit_local(
    o: StatObject,
    rows: Option<Seq<Option<UnitTypeStatRow>>>,
    ovs: Seq<UnitTypeStatOverride>,
    leader: Leader,
) -> (StatObject, bool, Option<bool>, bool) {
    let (o1, l) = pass_los(o);
    if !o.captain {
        (o1, l, None, false)
    } else {
        let (o2, q) = query_applied(o1, rows, ovs, leader);
        let (o3, h) = pass_hits(o2);
        (StatObject { speed_updates: (o3.speed_updates + 1) as u32, armor_updates: (o3.armor_updates + 1) as u32, ..o3 }, l, q, h)
    }
}

/// One unit of the band, from the table and counts as earlier units left them: an inactive
/// unit is only visited; an active one has its object-local part, and a captain then its
/// speed and armor stored and copied down its chain.
pub open spec fn unit_step(
    units: Seq<StatObject>,
    c: StatPassCounts,
    i: int,
    rows: Option<Seq<Option<UnitTypeStatRow>>>,
    ovs: Seq<UnitTypeStatOverride>,
    leader: Leader,
    rules: Step8Rules,
) -> (Seq<StatObject>, StatPassCounts) {
    let o = units[i];
    let c1 = StatPassCounts { visited: (c.visited + 1) as u32, ..c };
    if !o.active {
        (units, c1)
    } else {
        let (o4, l, q, h) = unit_local(o, rows, ovs, leader);
        let u1 = units.update(i, o4);
        let c2 = StatPassCounts {
            active: (c1.active + 1) as u32,
            object_los_updates: (c1.object_los_updates + one_if(l)) as u32,
            unresolved_calls: (c1.unresolved_calls + one_if(!l)) as u32,
            ..c1
        };
        if !o.captain {
            (u1, c2)
        } else {
            let (u2, sp) = speed_applied(u1, i, leader, rules);
            let (u3, ar) = armor_applied(u2, i, leader, rules);
            (
                u3,
                StatPassCounts {
                    unit_query_populations: (c2.unit_query_populations + one_if(q == Some(true))) as u32,
                    unit_query_misses: (c2.unit_query_misses + one_if(q == Some(false))) as u32,
                    object_hits_updates: (c2.object_hits_updates + one_if(h)) as u32,
                    speed_updates: (c2.speed_updates + 1) as u32,
                    armor_updates: (c2.armor_updates + 1) as u32,
                    unit_speed_updates: (c2.unit_speed_updates + one_if(sp)) as u32,
                    unit_armor_updates: (c2.unit_armor_updates + one_if(ar)) as u32,
                    unresolved_calls: (c2.unresolved_calls + one_if(!h) + one_if(!sp) + one_if(!ar)) as u32,
                    ..c2
                },
            )
        }
    }
}

/// The unit band after its first `n` units, with the counts from zero.
pub open spec fn unit_pass_fold(
    units: Seq<StatObject>,
    rows: Option<Seq<Option<UnitTypeStatRow>>>,
    ovs: Seq<UnitTypeStatOverride>,
    leader: Leader,
    rules: Step8Rules,
    n: nat,
) -> (Seq<StatObject>, StatPassCounts)
    decreases n,
{
    if n == 0 {
        (units, zero_counts())
    } else {
        let (u, c) = unit_pass_fold(units, rows, ovs, leader, rules, (n - 1) as nat);
        unit_step(u, c, n - 1, rows, ovs, leader, rules)
    }
}

/// The fields the unit band reads as gates or counts on the object, unchanged.
pub open spec fn counters_same(a: StatObject, b: StatObject) -> bool {
    &&& a.active == b.active
    &&& a.captain == b.captain
    &&& a.v160_calls == b.v160_calls
    &&& a.v15c_calls == b.v15c_calls
    &&& a.speed_updates == b.speed_updates
    &&& a.armor_updates == b.armor_updates
}

proof fn lemma_spread_frame(units: Seq<StatObject>, next: Option<usize>, remaining: nat, stored: i16, speed: bool)
    ensures
        spread_spec(units, next, remaining, stored, speed).0.len() == units.len(),
        forall|k: int|
            0 <= k < units.len() ==> counters_same(#[trigger] spread_spec(units, next, remaining, stored, speed).0[k], units[k]),
    decreases remaining,
{
    match next {
        None => {},
        Some(i) => {
            if remaining == 0 || i >= units.len() {
            } else {
                let u = units[i as int];
                let u2 = if speed {
                    StatObject { myspeed: stored, speed_written: true, ..u }
                } else {
                    StatObject { myarmor: stored, armor_written: true, ..u }
                };
                let v = units.update(i as int, u2);
                lemma_spread_frame(v, u.o_down, (remaining - 1) as nat, stored, speed);
                assert forall|k: int| 0 <= k < units.len() implies counters_same(
                    #[trigger] spread_spec(units, next, remaining, stored, speed).0[k],
                    units[k],
                ) by {
                    assert(counters_same(spread_spec(v, u.o_down, (remaining - 1) as nat, stored, speed).0[k], v[k]));
                }
            }
        },
    }
}

/// Storing a stat on the captain and copying it down keeps every unit's gates and counters.
proof fn lemma_store_frame(units: Seq<StatObject>, i: int, c2: StatObject, next: Option<usize>, stored: i16, speed: bool)
    requires
        0 <= i < units.len(),
        counters_same(c2, units[i]),
    ensures
        spread_spec(units.update(i, c2), next, units.len(), stored, speed).0.len() == units.len(),
        forall|k: int|
            0 <= k < units.len() ==> counters_same(
                #[trigger] spread_spec(units.update(i, c2), next, units.len(), stored, speed).0[k],
                units[k],
            ),
{
    let head = units.update(i, c2);
    lemma_spread_frame(head, next, units.len(), stored, speed);
    assert forall|k: int| 0 <= k < units.len() implies counters_same(
        #[trigger] spread_spec(head, next, units.len(), stored, speed).0[k],
        units[k],
    ) by {
        assert(counters_same(spread_spec(head, next, units.len(), stored, speed).0[k], head[k]));
    }
}

proof fn lemma_speed_frame(units: Seq<StatObject>, i: int, leader: Leader, rules: Step8Rules)
    requires
        0 <= i,
    ensures
        speed_applied(units, i, leader, rules).0.len() == units.len(),
        forall|k: int|
            0 <= k < units.len() ==> counters_same(#[trigger] speed_applied(units, i, leader, rules).0[k], units[k]),
{
    reveal(speed_applied);
    if !(i >= units.len() || units[i].speed_inputs is None) {
        let c = units[i];
        let stored = unit_speed_spec(c.speed_inputs->Some_0, leader, rules) as i16;
        lemma_store_frame(
            units,
            i,
            StatObject { myspeed: stored, speed_written: true, unit_speed_updates: c.unit_speed_updates.wrapping_add(1), ..c },
            c.o_down,
            stored,
            true,
        );
    }
}

proof fn lemma_armor_frame(units: Seq<StatObject>, i: int, leader: Leader, rules: Step8Rules)
    requires
        0 <= i,
    ensures
        armor_applied(units, i, leader, rules).0.len() == units.len(),
        forall|k: int|
            0 <= k < units.len() ==> counters_same(#[trigger] armor_applied(units, i, leader, rules).0[k], units[k]),
{
    reveal(armor_applied);
    if !(i >= units.len() || units[i].armor_inputs is None) {
        let c = units[i];
        let stored = unit_armor_spec(c.armor_inputs->Some_0, leader, rules) as i16;
        lemma_store_frame(
            units,
            i,
            StatObject { myarmor: stored, armor_written: true, unit_armor_updates: c.unit_armor_updates.wrapping_add(1), ..c },
            c.o_down,
            stored,
            false,
        );
    }
}

/// The units after position `i` keep their gates and counters through step `i`.
proof fn lemma_unit_step_frame(
    units: Seq<StatObject>,
    c: StatPassCounts,
    i: int,
    rows: Option<Seq<Option<UnitTypeStatRow>>>,
    ovs: Seq<UnitTypeStatOverride>,
    leader: Leader,
    rules: Step8Rules,
)
    requires
        0 <= i < units.len(),
    ensures
        unit_step(units, c, i, rows, ovs, leader, rules).0.len() == units.len(),
        forall|k: int|
            i < k < units.len() ==> counters_same(#[trigger] unit_step(units, c, i, rows, ovs, leader, rules).0[k], units[k]),
{
    let o = units[i];
    if o.active {
        let (o4, l, q, h) = unit_local(o, rows, ovs, leader);
        let u1 = units.update(i, o4);
        lemma_speed_frame(u1, i, leader, rules);
        let u2 = speed_applied(u1, i, leader, rules).0;
        lemma_armor_frame(u2, i, leader, rules);
        assert forall|k: int| i < k < units.len() implies counters_same(
            #[trigger] unit_step(units, c, i, rows, ovs, leader, rules).0[k],
            units[k],
        ) by {
            assert(counters_same(u1[k], units[k]));
            if o.captain {
                assert(counters_same(u2[k], u1[k]));
                assert(counters_same(armor_applied(u2, i, leader, rules).0[k], u2[k]));
            }
        }
    }
}

/// The fold keeps the table's length, the gates and counters of the units not yet reached,
/// and counts at most one per unit (four unresolved calls) in each field it uses.
proof fn lemma_unit_fold(
    units: Seq<StatObject>,
    rows: Option<Seq<Option<UnitTypeStatRow>>>,
    ovs: Seq<UnitTypeStatOverride>,
    leader: Leader,
    rules: Step8Rules,
    n: nat,
)
    requires
        n <= units.len(),
        4 * units.len() <= u32::MAX,
    ensures
        ({
            let (u, c) = unit_pass_fold(units, rows, ovs, leader, rules, n);
            &&& u.len() == units.len()
            &&& forall|k: int| n <= k < units.len() ==> counters_same(#[trigger] u[k], units[k])
            &&& c.visited == n
            &&& c.active <= n
            &&& c.object_los_updates <= n
            &&& c.unit_query_populations <= n
            &&& c.unit_query_misses <= n
            &&& c.object_hits_updates <= n
            &&& c.speed_updates <= n
            &&& c.armor_updates <= n
            &&& c.unit_speed_updates <= n
            &&& c.unit_armor_updates <= n
            &&& c.unresolved_calls <= 4 * n
        }),
    decreases n,
{
    if n > 0 {
        lemma_unit_fold(units, rows, ovs, leader, rules, (n - 1) as nat);
        let (u, c) = unit_pass_fold(units, rows, ovs, leader, rules, (n - 1) as nat);
        lemma_unit_step_frame(u, c, n - 1, rows, ovs, leader, rules);
        let (u2, c2) = unit_step(u, c, n - 1, rows, ovs, leader, rules);
        assert forall|k: int| n <= k < units.len() implies counters_same(#[trigger] u2[k], units[k]) by {
            assert(counters_same(u2[k], u[k]));
            assert(counters_same(u[k], units[k]));
        }
    }
}

fn apply_speed(units: &mut Vec<StatObject>, captain: usize, leader: &Leader, rules: &Step8Rules) -> (r: bool)
    ensures
        (final(units)@, r) == speed_applied(old(units)@, captain as int, *leader, *rules),
{
    proof {
        reveal(speed_applied);
    }
    unit_update_speed(units, captain, leader, rules).is_some()
}

fn apply_armor(units: &mut Vec<StatObject>, captain: usize, leader: &Leader, rules: &Step8Rules) -> (r: bool)
    ensures
        (final(units)@, r) == armor_applied(old(units)@, captain as int, *leader, *rules),
{
    proof {
        reveal(armor_applied);
    }
    unit_update_armor(units, captain, leader, rules).is_some()
}

/// The first override row of `type_id`, as [`override_from`] says from the start.
fn find_override(ovs: &[UnitTypeStatOverride], type_id: i32) -> (r: Option<UnitTypeStatOverride>)
    ensures
        r == override_from(ovs@, type_id, 0),
{
    let mut i: usize = 0;
    while i < ovs.len()
        invariant
            i <= ovs@.len(),
            override_from(ovs@, type_id, 0) == override_from(ovs@, type_id, i as nat),
        decreases ovs.len() - i,
    {
        if ovs[i].type_id == type_id {
            return Some(ovs[i]);
        }
        i = i + 1;
    }
    None
}

fn apply_query(
    o: &mut StatObject,
    type_source: Option<&UnitTypeStatSource>,
    ovs: &[UnitTypeStatOverride],
    leader: &Leader,
) -> (r: Option<bool>)
    ensures
        (*final(o), r) == query_applied(*old(o), source_rows(type_source), ovs@, *leader),
{
    proof {
        reveal(query_applied);
    }
    let src = match o.unit_query_source {
        Some(s) => s,
        None => {
            return None;
        },
    };
    // Clear first: an unknown replacement type must not replay an older package.
    let cleared = StatObject { speed_inputs: None, armor_inputs: None, ..*o };
    let d = match type_source {
        Some(t) => derive_unit_query_packages(t, src, leader),
        None => None,
    };
    match d {
        Some((sp, ar)) => {
            let (sp2, ar2) = match find_override(ovs, src.type_id) {
                Some(ov) => (UnitSpeedInputs { type_moves: ov.moves, ..sp }, UnitArmorInputs { type_armor: ov.armor, ..ar }),
                None => (sp, ar),
            };
            *o = StatObject {
                speed_inputs: Some(sp2),
                armor_inputs: Some(ar2),
                unit_query_populations: cleared.unit_query_populations.wrapping_add(1),
                ..cleared
            };
            Some(true)
        },
        None => {
            *o = StatObject { unit_query_misses: cleared.unit_query_misses.wrapping_add(1), ..cleared };
            Some(false)
        },
    }
}

/// The calls of the object-local part leave the later counters alone.
proof fn lemma_local_frame(
    o: StatObject,
    rows: Option<Seq<Option<UnitTypeStatRow>>>,
    ovs: Seq<UnitTypeStatOverride>,
    leader: Leader,
)
    ensures
        counters_same(pass_los(o).0, StatObject { v160_calls: (o.v160_calls + 1) as u32, ..o }),
        counters_same(query_applied(o, rows, ovs, leader).0, o),
        counters_same(pass_hits(o).0, StatObject { v15c_calls: (o.v15c_calls + 1) as u32, ..o }),
{
    reveal(pass_los);
    reveal(object_los_applied);
    reveal(query_applied);
    reveal(pass_hits);
    reveal(object_hits_applied);
}

/// The object-local part of one active unit, as [`unit_local`] says.
fn unit_local_exec(
    o: &mut StatObject,
    type_source: Option<&UnitTypeStatSource>,
    ovs: &[UnitTypeStatOverride],
    leader: &Leader,
) -> (r: (bool, Option<bool>, bool))
    requires
        old(o).v160_calls < u32::MAX,
        old(o).v15c_calls < u32::MAX,
        old(o).speed_updates < u32::MAX,
        old(o).armor_updates < u32::MAX,
    ensures
        (*final(o), r.0, r.1, r.2) == unit_local(*old(o), source_rows(type_source), ovs@, *leader),
{
    let ghost o0 = *o;
    proof {
        lemma_local_frame(*o, source_rows(type_source), ovs@, *leader);
    }
    let l = apply_pass_los(o);
    if !o.captain {
        return (l, None, false);
    }
    proof {
        lemma_local_frame(*o, source_rows(type_source), ovs@, *leader);
    }
    let q = apply_query(o, type_source, ovs, leader);
    proof {
        lemma_local_frame(*o, source_rows(type_source), ovs@, *leader);
    }
    let h = apply_pass_hits(o);
    o.speed_updates = o.speed_updates + 1;
    o.armor_updates = o.armor_updates + 1;
    (l, q, h)
}

/// **The unit loop of `Leader::calc_unit_stats` `0x006CF970`**, which runs after the two
/// attrition values: each active unit updates its line of sight; each active captain then
/// refreshes its query packages from its live type facts (cleared first; rebuilt from the
/// source with the first override of its type, or counted as a miss; without a source
/// every refresh is a miss), updates its hits, and stores its speed and armor and copies
/// them down its chain. Every call is counted on the object and in the result. The call
/// counters on the units must have room.
pub fn unit_band_pass(
    units: &mut Vec<StatObject>,
    leader: &Leader,
    rules: &Step8Rules,
    type_source: Option<&UnitTypeStatSource>,
    type_overrides: &[UnitTypeStatOverride],
) -> (c: StatPassCounts)
    requires
        4 * old(units)@.len() <= u32::MAX,
        forall|k: int|
            0 <= k < old(units)@.len() ==> {
                let o = #[trigger] old(units)@[k];
                o.v160_calls < u32::MAX && o.v15c_calls < u32::MAX && o.speed_updates < u32::MAX && o.armor_updates
                    < u32::MAX
            },
    ensures
        (final(units)@, c) == unit_pass_fold(
            old(units)@,
            source_rows(type_source),
            type_overrides@,
            *leader,
            *rules,
            old(units)@.len(),
        ),
{
    let mut c = StatPassCounts {
        visited: 0,
        active: 0,
        construct_time_updates: 0,
        construct_time_resolved: 0,
        speed_updates: 0,
        armor_updates: 0,
        object_hits_updates: 0,
        object_los_updates: 0,
        unit_armor_updates: 0,
        unit_speed_updates: 0,
        unit_query_populations: 0,
        unit_query_misses: 0,
        wall_hits_updates: 0,
        wall_los_updates: 0,
        eject_contents_calls: 0,
        unresolved_calls: 0,
    };
    let ghost b0 = units@;
    let ghost rows = source_rows(type_source);
    let mut i: usize = 0;
    while i < units.len()
        invariant
            b0 == old(units)@,
            rows == source_rows(type_source),
            4 * b0.len() <= u32::MAX,
            forall|k: int|
                0 <= k < b0.len() ==> {
                    let o = #[trigger] b0[k];
                    o.v160_calls < u32::MAX && o.v15c_calls < u32::MAX && o.speed_updates < u32::MAX
                        && o.armor_updates < u32::MAX
                },
            i <= b0.len(),
            units@.len() == b0.len(),
            (units@, c) == unit_pass_fold(b0, rows, type_overrides@, *leader, *rules, i as nat),
        decreases b0.len() - i,
    {
        proof {
            lemma_unit_fold(b0, rows, type_overrides@, *leader, *rules, i as nat);
            assert(counters_same(units@[i as int], b0[i as int]));
        }
        let ghost u0 = units@;
        let ghost c0 = c;
        let mut o = units[i];
        c.visited = c.visited + 1;
        if o.active {
            c.active = c.active + 1;
            let captain = o.captain;
            let (l, q, h) = unit_local_exec(&mut o, type_source, type_overrides, leader);
            units[i] = o;
            if l {
                c.object_los_updates = c.object_los_updates + 1;
            } else {
                c.unresolved_calls = c.unresolved_calls + 1;
            }
            if captain {
                match q {
                    Some(true) => {
                        c.unit_query_populations = c.unit_query_populations + 1;
                    },
                    Some(false) => {
                        c.unit_query_misses = c.unit_query_misses + 1;
                    },
                    None => {},
                }
                if h {
                    c.object_hits_updates = c.object_hits_updates + 1;
                } else {
                    c.unresolved_calls = c.unresolved_calls + 1;
                }
                c.speed_updates = c.speed_updates + 1;
                c.armor_updates = c.armor_updates + 1;
                if apply_speed(units, i, leader, rules) {
                    c.unit_speed_updates = c.unit_speed_updates + 1;
                } else {
                    c.unresolved_calls = c.unresolved_calls + 1;
                }
                if apply_armor(units, i, leader, rules) {
                    c.unit_armor_updates = c.unit_armor_updates + 1;
                } else {
                    c.unresolved_calls = c.unresolved_calls + 1;
                }
            }
        }
        assert((units@, c) == unit_step(u0, c0, i as int, rows, type_overrides@, *leader, *rules));
        proof {
            lemma_unit_fold(b0, rows, type_overrides@, *leader, *rules, (i + 1) as nat);
        }
        i = i + 1;
    }
    c
}

// ---------------------------------------------------------------------------------------
// The leader-local decisions of Leaders::process_all 0x006ED2A0
// ---------------------------------------------------------------------------------------

/// The opening of step 8 for leader `i`: a leader without the process bit is skipped
/// (`None`); otherwise its hostile bit, production-issue count and `+0x9F4` counter are
/// cleared, and the hostile bit is set again when [`Leaders::scan_hostiles`] finds a
/// hostile for its slot (`Some` of whether it did). `Leader::gather` follows it.
pub fn step8_open(ls: &mut Leaders, i: usize) -> (r: Option<bool>)
    requires
        i < 8,
    ensures
        final(ls).end == old(ls).end,
        final(ls).event == old(ls).event,
        forall|k: int| 0 <= k < 8 && k != i ==> #[trigger] final(ls).leaders@[k] == old(ls).leaders@[k],
        ({
            let l = old(ls).leaders@[i as int];
            if l.flags & flag::PROCESS == 0 {
                r is None && final(ls).leaders@[i as int] == l
            } else {
                let cleared = l.flags & !flag::HOSTILE_SEEN;
                let hostile = exists|j: int| 0 <= j < 8 && #[trigger] hostile_for(old(ls).leaders@, j, l.slot);
                &&& r == Some(hostile)
                &&& final(ls).leaders@[i as int] == (Leader {
                    flags: if hostile {
                        cleared | flag::HOSTILE_SEEN
                    } else {
                        cleared
                    },
                    pop_issues: 0,
                    frame_counter_b: 0,
                    ..l
                })
            }
        }),
{
    let l = ls.leaders[i];
    if l.flags & flag::PROCESS == 0 {
        return None;
    }
    let hostile = ls.scan_hostiles(l.slot);
    let cleared = l.flags & !flag::HOSTILE_SEEN;
    let flags = if hostile {
        cleared | flag::HOSTILE_SEEN
    } else {
        cleared
    };
    ls.leaders[i] = Leader { flags, pop_issues: 0, frame_counter_b: 0, ..l };
    Some(hostile)
}

/// The stat-pass edges of step 8, after `Leader::gather`: each dirty bit that is set is
/// cleared before its pass, so a pass that dirties again runs again next frame. Returns
/// whether the wall pass and whether the unit pass are due.
pub fn step8_take_stat_edges(leader: &mut Leader) -> (r: (bool, bool))
    ensures
        r.0 == (old(leader).flags & flag::WALL_STATS_DIRTY != 0),
        r.1 == (old(leader).flags & flag::UNIT_STATS_DIRTY != 0),
        *final(leader) == (Leader { flags: old(leader).flags & !(flag::WALL_STATS_DIRTY | flag::UNIT_STATS_DIRTY), ..*old(leader) }),
{
    let f = leader.flags;
    let wall = f & flag::WALL_STATS_DIRTY != 0;
    let unit = f & flag::UNIT_STATS_DIRTY != 0;
    let cleared = f & !(flag::WALL_STATS_DIRTY | flag::UNIT_STATS_DIRTY);
    leader.flags = cleared;
    (wall, unit)
}

/// One grace timer after the refresh beat: a negative, unfrozen value creeps one frame
/// toward zero.
pub open spec fn crept(t: GraceTimer) -> GraceTimer {
    if t.value < 0 && t.frozen == 0 {
        GraceTimer { value: (t.value + 1) as i32, ..t }
    } else {
        t
    }
}

/// Whether the frame is on the timer refresh beat: a non-zero ratio that divides the frame
/// (truncated remainder zero).
pub open spec fn on_refresh_beat(frame: i32, ratio: i32) -> bool {
    ratio != 0 && frame.checked_rem(ratio) == Some(0i32)
}

/// The taunt entries of the first `n` table positions whose stamp is the frame, in table
/// order; none on frame zero.
pub open spec fn taunts_due(leader: Leader, slot: usize, frame: i32, n: nat) -> Seq<TauntDispatch>
    decreases n,
{
    if n == 0 || frame == 0 {
        Seq::empty()
    } else {
        let k = (n - 1) as int;
        taunts_due(leader, slot, frame, (n - 1) as nat) + if leader.taunt_frame@[k] == frame {
            seq![TauntDispatch { slot, kind: leader.taunt_kind@[k], arg: leader.taunt_arg@[k], entry: k as usize }]
        } else {
            Seq::empty()
        }
    }
}

/// The close of step 8 for the leader of record `slot`, after its stat passes and the
/// elimination check: on the refresh beat the three grace timers creep (the count of those
/// that did is returned); on a frame other than zero every taunt entry stamped with the
/// frame is dispatched, in table order; the pending bit is cleared last. The one frame on
/// which the beat's remainder faults (`i32::MIN % -1`) is excluded.
pub fn step8_close(leader: &mut Leader, slot: usize, frame: i32, rules: &Step8Rules) -> (r: (u8, Vec<TauntDispatch>))
    requires
        !(rules.timer_refresh_ratio == -1 && frame == i32::MIN),
    ensures
        ({
            let l = *old(leader);
            let beat = on_refresh_beat(frame, rules.timer_refresh_ratio);
            let t = l.timers@;
            &&& final(leader).timers@ == if beat {
                seq![crept(t[0]), crept(t[1]), crept(t[2])]
            } else {
                t
            }
            &&& r.0 == if beat {
                (if t[0].value < 0 && t[0].frozen == 0 {
                    1int
                } else {
                    0
                }) + (if t[1].value < 0 && t[1].frozen == 0 {
                    1int
                } else {
                    0
                }) + (if t[2].value < 0 && t[2].frozen == 0 {
                    1int
                } else {
                    0
                })
            } else {
                0
            }
            &&& r.1@ == taunts_due(l, slot, frame, 8)
            &&& final(leader).flags == l.flags & !flag::PENDING
            &&& *final(leader) == (Leader { timers: final(leader).timers, flags: l.flags & !flag::PENDING, ..l })
        }),
{
    let mut crept_count: u8 = 0;
    let ratio = rules.timer_refresh_ratio;
    if ratio != 0 && frame.checked_rem(ratio) == Some(0i32) {
        let mut k: usize = 0;
        while k < 3
            invariant
                k <= 3,
                crept_count <= k,
                leader.flags == old(leader).flags,
                *leader == (Leader { timers: leader.timers, ..*old(leader) }),
                forall|j: int| 0 <= j < k ==> #[trigger] leader.timers@[j] == crept(old(leader).timers@[j]),
                forall|j: int| k <= j < 3 ==> #[trigger] leader.timers@[j] == old(leader).timers@[j],
                crept_count == (if k > 0 && old(leader).timers@[0].value < 0 && old(leader).timers@[0].frozen == 0 {
                    1int
                } else {
                    0
                }) + (if k > 1 && old(leader).timers@[1].value < 0 && old(leader).timers@[1].frozen == 0 {
                    1int
                } else {
                    0
                }) + (if k > 2 && old(leader).timers@[2].value < 0 && old(leader).timers@[2].frozen == 0 {
                    1int
                } else {
                    0
                }),
            decreases 3 - k,
        {
            let t = leader.timers[k];
            if t.value < 0 && t.frozen == 0 {
                leader.timers[k] = GraceTimer { value: t.value + 1, ..t };
                crept_count = crept_count + 1;
            }
            k = k + 1;
        }
        assert(leader.timers@ =~= seq![
            crept(old(leader).timers@[0]),
            crept(old(leader).timers@[1]),
            crept(old(leader).timers@[2]),
        ]);
    }
    let mut taunts: Vec<TauntDispatch> = Vec::new();
    if frame != 0 {
        let mut k: usize = 0;
        while k < 8
            invariant
                k <= 8,
                frame != 0,
                leader.taunt_frame == old(leader).taunt_frame,
                leader.taunt_kind == old(leader).taunt_kind,
                leader.taunt_arg == old(leader).taunt_arg,
                taunts@ == taunts_due(*old(leader), slot, frame, k as nat),
            decreases 8 - k,
        {
            if leader.taunt_frame[k] == frame {
                taunts.push(TauntDispatch { slot, kind: leader.taunt_kind[k], arg: leader.taunt_arg[k], entry: k });
            }
            k = k + 1;
        }
    }
    leader.flags = leader.flags & !flag::PENDING;
    (crept_count, taunts)
}

} // verus!
