use don_sim::leaders::{
    object_update_hits, object_update_los, offsets, rule_offsets, BuildLeaderStatState,
    ObjectHitInputs, RareMask, StatObject, Step8Rules, LEADERS_BASE_VA, LEADERS_END_VA,
    LEADER_STRIDE, NUM_LEADER_SLOTS, RARE_MASK_BYTES,
};

#[test]
fn the_array_is_eight_leaders_of_stride_0x6eec() {
    assert_eq!(
        (LEADERS_END_VA - LEADERS_BASE_VA) / LEADER_STRIDE,
        NUM_LEADER_SLOTS as u32
    );
    assert_eq!(
        LEADERS_BASE_VA + LEADER_STRIDE * NUM_LEADER_SLOTS as u32,
        LEADERS_END_VA
    );
    // 0x00E3A7A4 is the address `Leader::process_elimination` reads for slot 0's
    // capital stamp; it must be the base plus TIMER0_VALUE.
    assert_eq!(LEADERS_BASE_VA + offsets::TIMER0_VALUE as u32, 0x00E3A7A4);
    // and 0x00E3A7AC is Game::retake_capital's per-leader scale.
    assert_eq!(LEADERS_BASE_VA + offsets::RETAKE_SCALE as u32, 0x00E3A7AC);
}

#[test]
fn taunt_table_offsets_match_the_cursor_arithmetic() {
    assert_eq!(offsets::TAUNT_ARG - offsets::TAUNT_KIND, 0x20);
    assert_eq!(offsets::TAUNT_FRAME - offsets::TAUNT_ARG, 0x20);
    assert_eq!(0x20 / 4, NUM_LEADER_SLOTS);
}

#[test]
fn object_hit_update_uses_retail_special_family_priority() {
    let mut o = StatObject {
        hit_inputs: Some(ObjectHitInputs {
            base_hits: 100,
            special_family_32_33: true,
            type_42_hits: 420,
            type_43_hits: 430,
            type_44_hits: 440,
            owner_policy: 0x1c,
        }),
        ..Default::default()
    };
    assert_eq!(object_update_hits(&mut o, false), Some(440));
    assert_eq!(o.myhits, 440);

    o.hit_inputs.as_mut().unwrap().owner_policy = 0x0c;
    assert_eq!(object_update_hits(&mut o, false), Some(430));
    o.hit_inputs.as_mut().unwrap().owner_policy = 0x04;
    assert_eq!(object_update_hits(&mut o, false), Some(420));
    o.hit_inputs.as_mut().unwrap().owner_policy = 0;
    assert_eq!(object_update_hits(&mut o, false), Some(100));
}

#[test]
fn object_los_update_zeros_an_out_of_game_owner() {
    let mut o = StatObject {
        type_los: Some(7),
        owner_in_game: false,
        mylos: 99,
        ..Default::default()
    };
    assert_eq!(object_update_los(&mut o), Some(0));
    assert_eq!(o.mylos, 0);
    o.owner_in_game = true;
    assert_eq!(object_update_los(&mut o), Some(7));
    assert_eq!(o.mylos, 7);
}

#[test]
fn building_speed_upgrade_counts_all_three_preqs_not_a_consecutive_run() {
    let mut s = BuildLeaderStatState::default();
    assert_eq!(s.get_building_speed_upgrade(), 0);
    s.buildings_faster = [true, false, true];
    assert_eq!(s.get_building_speed_upgrade(), 2);
    s.buildings_faster = [false, false, true];
    assert_eq!(s.get_building_speed_upgrade(), 1);
    s.buildings_faster = [true, true, true];
    assert_eq!(s.get_building_speed_upgrade(), 3);
}

#[test]
fn titanium_bit_is_byte_three_mask_0x40() {
    let m = RareMask::from_bits(&[RareMask::TITANIUM]);
    assert_eq!(m.bytes[3], 0x40);
    assert_eq!(RARE_MASK_BYTES * 8 - 4, RareMask::BITS);
}

#[test]
fn rules_load_from_a_value_block_by_offset() {
    let mut block = [0i32; 848];
    block[rule_offsets::TIMER_REFRESH_RATIO / 4] = 5;
    block[rule_offsets::ATTRITION_IMPROVED / 4] = 1;
    block[rule_offsets::ATTRITION_IMPROVED / 4 + 3] = 8;
    block[rule_offsets::TITANIUM_ATTRITION / 4] = 50;
    block[rule_offsets::CATTLE_CITIZEN_ARMOR / 4] = 1;
    block[rule_offsets::DUTCH_ATTACK_BONUS / 4] = 1;
    block[rule_offsets::UNIT_MOVE_SPEED / 4] = 1;
    block[rule_offsets::AZTEC_MOVE_SPEED / 4] = 17;
    block[rule_offsets::SENATE_HP_BONUS / 4] = 35;
    block[rule_offsets::FORT_UPGRADE_RANGE / 4 + 4] = 4;
    let r = Step8Rules::from_block(&block);
    assert_eq!(r.timer_refresh_ratio, 5);
    assert_eq!(r.attrition_improved[0], 1);
    assert_eq!(r.attrition_improved[3], 8);
    assert_eq!(r.titanium_attrition, 50);
    assert_eq!(r.cattle_citizen_armor, 1);
    assert_eq!(r.dutch_attack_bonus, 1);
    assert_eq!(r.unit_move_speed, 1);
    assert_eq!(r.aztec_move_speed, 17);
    assert_eq!(r.senate_hp_bonus, 35);
    assert_eq!(r.fort_upgrade_range[4], 4);
    // A short block zero-extends rather than panicking.
    assert_eq!(Step8Rules::from_block(&[]).timer_refresh_ratio, 0);
}

#[test]
fn shipped_rules_round_trip_through_a_block() {
    let s = Step8Rules::shipped();
    let mut block = [0i32; 848];
    block[rule_offsets::TIMER_REFRESH_RATIO / 4] = s.timer_refresh_ratio;
    for i in 0..4 {
        block[rule_offsets::ATTRITION_IMPROVED / 4 + i] = s.attrition_improved[i];
        block[rule_offsets::ATTRITION_UPGRADE / 4 + i] = s.attrition_upgrade[i];
    }
    block[rule_offsets::COLOSSEUM_ATTRITION / 4] = s.colosseum_attrition;
    block[rule_offsets::KREMLIN_ATTRITION / 4] = s.kremlin_attrition;
    block[rule_offsets::LIBERTY_ATTRITION / 4] = s.liberty_attrition;
    block[rule_offsets::RUSSIAN_ATTRITION / 4] = s.russian_attrition;
    block[rule_offsets::MONGOL_ATTRITION / 4] = s.mongol_attrition;
    block[rule_offsets::TITANIUM_ATTRITION / 4] = s.titanium_attrition;
    block[rule_offsets::CATTLE_CITIZEN_ARMOR / 4] = s.cattle_citizen_armor;
    block[rule_offsets::DUTCH_ATTACK_BONUS / 4] = s.dutch_attack_bonus;
    block[rule_offsets::CTW_ATTRITION / 4] = s.ctw_attrition;
    block[rule_offsets::UNIT_MOVE_SPEED / 4] = s.unit_move_speed;
    block[rule_offsets::MILITARY_TRANSPORT_BONUS / 4] = s.military_transport_bonus;
    block[rule_offsets::VERSAILLES_UNITS_MOVE / 4] = s.versailles_units_move;
    block[rule_offsets::AZTEC_MOVE_SPEED / 4] = s.aztec_move_speed;
    block[rule_offsets::BANTU_UNITS_MOVE / 4] = s.bantu_units_move;
    block[rule_offsets::FRENCH_SIEGE_MOVE / 4] = s.french_siege_move;
    block[rule_offsets::AMERICANS_MARINE_SPEED_BONUS / 4] = s.americans_marine_speed_bonus;
    block[rule_offsets::ALUMINUM_AIR_SPEED / 4] = s.aluminum_air_speed;
    block[rule_offsets::WHALES_SHIPS_MOVE / 4] = s.whales_ships_move;
    block[rule_offsets::BUILDING_HP_UPGRADE / 4] = s.building_hp_upgrade;
    for i in 0..5 {
        block[rule_offsets::CAPITAL_BUILDING_HP / 4 + i] = s.capital_building_hp[i];
        block[rule_offsets::FORT_UPGRADE_RANGE / 4 + i] = s.fort_upgrade_range[i];
    }
    for i in 0..4 {
        block[rule_offsets::TOWER_FORT_RANGE / 4 + i] = s.tower_fort_range[i];
    }
    block[rule_offsets::COLOSSEUM_FORT_RANGE / 4] = s.colosseum_fort_range;
    block[rule_offsets::TIKAL_TEMPLE_HP / 4] = s.tikal_temple_hp;
    block[rule_offsets::RED_FORT_FORT_HPS / 4] = s.red_fort_fort_hps;
    block[rule_offsets::TAJ_BUILDING_HP / 4] = s.taj_building_hp;
    block[rule_offsets::MAYA_BUILDING_HP / 4] = s.maya_building_hp;
    block[rule_offsets::NUBIAN_HIT_POINTS / 4] = s.nubian_hit_points;
    block[rule_offsets::ROMAN_FORT_HP / 4] = s.roman_fort_hp;
    block[rule_offsets::FURS_LOS / 4] = s.furs_los;
    block[rule_offsets::CTW_MISSIONARIES_BONUS / 4] = s.ctw_missionaries_bonus;
    block[rule_offsets::SENATE_HP_BONUS / 4] = s.senate_hp_bonus;
    block[rule_offsets::MAYA_BUILDING_SPEED / 4] = s.maya_building_speed;
    block[rule_offsets::VERSAILLES_BUILDING_SPEED / 4] = s.versailles_building_speed;
    block[rule_offsets::TOBACCO_BUILDING_SPEED / 4] = s.tobacco_building_speed;
    block[rule_offsets::BRITISH_AA_SPEED / 4] = s.british_aa_speed;
    block[rule_offsets::DUTCH_FORT_SPEED / 4] = s.dutch_fort_speed;
    block[rule_offsets::ROMAN_FORT_SPEED / 4] = s.roman_fort_speed;
    block[rule_offsets::CAPITAL_BUILD_TIME / 4] = s.capital_build_time;
    assert_eq!(Step8Rules::from_block(&block), s);
}
