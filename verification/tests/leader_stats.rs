use don_sim::leader_strategy_runtime::call_stage_map;
use don_sim::leaders::{
    check_explore, flag, object_data_armor, strategy_all, unit_speed, unit_update_armor,
    unit_update_speed, wall_band_pass, wall_update_construct_time, wall_update_los, ExploreUpdate, ExploreWorld,
    Leader, Leaders, ObjectHitInputs, RareMask, StatObject, Step8Rules, StrategyCall, StrategyInputs,
    UnitArmorInputs, UnitSpeedInputs, WallConstructTimeInputs, WallLosInputs,
};

fn strategy_input(seen2: &[u8]) -> StrategyInputs<'_> {
    StrategyInputs {
        frame: 1,
        ai_speed: 1,
        world: ExploreWorld {
            reg_xs: 2,
            reg_ys: 2,
            reg_size: 4,
            fog_xs: 8,
            seen2,
        },
        has_explore_preq: [Some(false); 8],
        check_victory_mode: false,
    }
}

#[test]
fn strategy_all_uses_flags_3_and_preserves_exact_call_order() {
    let seen2 = [0u8; 64];
    let mut ls = Leaders::new();
    ls.leaders[0].flags = flag::IN_GAME;
    ls.leaders[1].flags = flag::PROCESS;
    ls.leaders[2].activate();
    ls.leaders[4].activate();

    let mut input = strategy_input(&seen2);
    input.check_victory_mode = true;
    let trace = strategy_all(&mut ls, input);

    assert_eq!(trace.leaders_processed(), 2);
    assert_eq!(
        trace.calls,
        vec![
            StrategyCall::CheckExplore {
                slot: 2,
                update: ExploreUpdate::NotDue,
            },
            StrategyCall::PlanStrategy(2),
            StrategyCall::ComputeScore { slot: 2, force: 0 },
            StrategyCall::Diplomacy(2),
            StrategyCall::CheckExplore {
                slot: 4,
                update: ExploreUpdate::NotDue,
            },
            StrategyCall::PlanStrategy(4),
            StrategyCall::ComputeScore { slot: 4, force: 0 },
            StrategyCall::Diplomacy(4),
            StrategyCall::CheckVictory,
        ]
    );
}

#[test]
fn check_explore_recounts_the_exact_seen2_samples_on_its_phase() {
    let mut seen2 = [0u8; 64];
    for index in [27usize, 31, 59] {
        seen2[index] |= 1 << 2;
    }
    seen2[63] |= 1 << 1;
    let world = strategy_input(&seen2).world;
    let mut leader = Leader::new(2);
    leader.explored = 91;

    assert_eq!(
        check_explore(&mut leader, 137, 1, Some(false), world),
        ExploreUpdate::NotDue
    );
    assert_eq!(leader.explored, 91);
    assert_eq!(
        check_explore(&mut leader, 138, 1, Some(false), world),
        ExploreUpdate::Recounted(3)
    );
    assert_eq!(leader.explored, 3);
}

#[test]
fn check_explore_frame_zero_full_map_and_refresh_are_mutation_pinned() {
    let mut leader = Leader::new(3);
    let full_seen = [1u8 << 3; 64];
    let empty_seen = [0u8; 64];

    let full_world = strategy_input(&full_seen).world;
    assert_eq!(
        check_explore(&mut leader, 0, 0, Some(true), full_world),
        ExploreUpdate::FullMap(4),
        "frame zero never divides by ai_speed"
    );
    assert_eq!(leader.explored, 4);

    let empty_world = strategy_input(&empty_seen).world;
    assert_eq!(
        check_explore(&mut leader, 0, 1, Some(false), empty_world),
        ExploreUpdate::Recounted(0)
    );
    assert_eq!(leader.explored, 0, "the old full-map value cannot replay");

    leader.explored = 17;
    let missing_world = ExploreWorld {
        seen2: &empty_seen[..8],
        ..empty_world
    };
    assert_eq!(
        check_explore(&mut leader, 0, 1, Some(false), missing_world),
        ExploreUpdate::MissingFacts
    );
    assert_eq!(leader.explored, 17, "incomplete host state is fail-closed");

    assert_eq!(
        check_explore(&mut leader, 0, 1, None, empty_world),
        ExploreUpdate::MissingFacts,
        "an absent has_preq answer cannot be treated as false"
    );
    assert_eq!(leader.explored, 17);
}

#[test]
fn strategy_all_victory_gate_is_independent_of_active_leaders() {
    let seen2 = [0u8; 64];
    let mut ls = Leaders::new();
    let mut input = strategy_input(&seen2);
    input.check_victory_mode = true;
    let trace = strategy_all(&mut ls, input);
    assert_eq!(trace.leaders_processed(), 0);
    assert_eq!(trace.calls, vec![StrategyCall::CheckVictory]);
}

#[test]
fn check_explore_zero_period_is_missing_facts_and_full_map_survives_strategy_all() {
    // 200 / 201 truncates to a zero period: nothing can be due.
    let seen2 = [0u8; 64];
    let world = strategy_input(&seen2).world;
    let mut leader = Leader::new(0);
    leader.explored = 5;
    assert_eq!(
        check_explore(&mut leader, 3, 201, Some(true), world),
        ExploreUpdate::MissingFacts
    );
    assert_eq!(
        check_explore(&mut leader, 3, 0, Some(true), world),
        ExploreUpdate::MissingFacts
    );
    assert_eq!(leader.explored, 5);

    // On frame zero every active leader recomputes; with the prerequisite its count is
    // the region size, and the inactive ones keep theirs.
    let mut ls = Leaders::new();
    ls.leaders[1].activate();
    ls.leaders[6].explored = 9;
    let mut input = strategy_input(&seen2);
    input.frame = 0;
    input.has_explore_preq = [Some(true); 8];
    let trace = strategy_all(&mut ls, input);
    assert_eq!(trace.explore[1], ExploreUpdate::FullMap(4));
    assert_eq!(trace.explore[0], ExploreUpdate::NotDue);
    assert_eq!(ls.leaders[1].explored, 4);
    assert_eq!(ls.leaders[6].explored, 9);
    assert_eq!(trace.unresolved_explore(), 0);
}

#[test]
fn wall_los_override_keeps_started_wonder_byte_arithmetic_and_rare_order() {
    let mut leader = Leader::new(0);
    leader.rare_b.set(15, true); // Furs
    let mut rules = Step8Rules::shipped();
    rules.colosseum_fort_range = 4;
    rules.furs_los = 5;
    let input = WallLosInputs {
        science_level: 2,
        type_science_los: 3,
        is_city_type: true,
        city_range_upgrade: 2,
        colosseum: true,
        footprint_x: 3,
        ..Default::default()
    };
    let mut o = StatObject {
        wall_started: true,
        wall_active: true,
        owner_in_game: true,
        type_los: Some(5),
        wall_los_inputs: Some(input),
        ..Default::default()
    };
    assert_eq!(wall_update_los(&mut o, &leader, &rules), Some(23));
    assert!(o.wall_los_written);

    // An unstarted object takes the hard-zero return before footprint/type bonuses.
    o.wall_started = false;
    assert_eq!(wall_update_los(&mut o, &leader, &rules), Some(0));

    // A started but incomplete wonder begins at LOS 1, then still takes x_size / 2.
    o.wall_started = true;
    o.wall_active = false;
    o.wall_los_inputs.as_mut().unwrap().is_wonder = true;
    assert_eq!(wall_update_los(&mut o, &leader, &rules), Some(2));
    o.wall_los_inputs.as_mut().unwrap().is_wonder = false;
    assert_eq!(wall_update_los(&mut o, &leader, &rules), Some(0));
}

#[test]
fn wall_los_refuses_an_upgrade_outside_its_table_and_counts_each_store() {
    let leader = Leader::new(0);
    let rules = Step8Rules::shipped();
    let mut o = StatObject {
        wall_started: true,
        wall_active: true,
        owner_in_game: true,
        type_los: Some(5),
        wall_los_inputs: Some(WallLosInputs {
            is_city_type: true,
            city_range_upgrade: 5,
            ..Default::default()
        }),
        ..Default::default()
    };
    assert_eq!(wall_update_los(&mut o, &leader, &rules), None);
    assert!(!o.wall_los_written);
    assert_eq!(o.wall_los_updates, 0);

    o.wall_los_inputs = None;
    assert_eq!(wall_update_los(&mut o, &leader, &rules), None);

    o.wall_los_inputs = Some(WallLosInputs::default());
    assert_eq!(wall_update_los(&mut o, &leader, &rules), Some(5));
    assert_eq!(wall_update_los(&mut o, &leader, &rules), Some(5));
    assert_eq!(o.wall_los_updates, 2);
    assert_eq!(o.mylos, 5);
}

fn construct_base(leader: &Leader, rules: &Step8Rules, package: WallConstructTimeInputs) -> u32 {
    let mut o = StatObject {
        wall_construct_time_inputs: Some(package),
        ..Default::default()
    };
    let v = wall_update_construct_time(&mut o, leader, rules).unwrap();
    assert!(o.construct_time_written);
    assert_eq!(o.constr_time, v);
    v
}

#[test]
fn construct_time_applies_every_reduction_in_emitted_order() {
    let rules = Step8Rules::shipped();
    let package = WallConstructTimeInputs {
        type_time: 100_000,
        ..Default::default()
    };
    let base = |leader: &Leader, package: WallConstructTimeInputs| -> u32 {
        construct_base(leader, &rules, package)
    };

    let mut leader = Leader::new(0);
    leader.city_num = 1;
    assert_eq!(base(&leader, package), 100_000);

    leader.city_num = 0;
    assert_eq!(base(&leader, package), 300_000);
    leader.city_num = 1;

    leader.unit_stats.set_tribe_bonus(1, true);
    assert_eq!(base(&leader, package), 100_000 * 100 / 120);
    assert_eq!(
        base(
            &leader,
            WallConstructTimeInputs {
                is_wonder: true,
                ..package
            }
        ),
        100_000
    );
    leader.unit_stats.set_tribe_bonus(1, false);

    leader.build_stats.buildings_created_faster = true;
    assert_eq!(base(&leader, package), 100_000 * 3 / 4);
    leader.build_stats.buildings_created_faster = false;

    leader.unit_stats.versailles = true;
    assert_eq!(
        base(
            &leader,
            WallConstructTimeInputs {
                is_wonder: true,
                ..package
            }
        ),
        100_000 * 100 / 100
    );
    leader.unit_stats.versailles = false;

    leader.rare_b.set(RareMask::TOBACCO, true);
    assert_eq!(base(&leader, package), 100_000 * 100 / 110);
    leader.rare_b.set(RareMask::TOBACCO, false);
    leader.rare_effective.set(RareMask::TOBACCO, true);
    assert_eq!(base(&leader, package), 100_000 * 100 / 110);
    leader.rare_effective.set(RareMask::TOBACCO, false);

    leader.unit_stats.set_tribe_bonus(0x0B, true);
    assert_eq!(base(&leader, package), 100_000);
    let aa = WallConstructTimeInputs {
        is_airdefense: true,
        ..package
    };
    assert_eq!(base(&leader, aa), 100_000 * 100 / 133);
    assert_eq!(
        base(
            &leader,
            WallConstructTimeInputs {
                is_wonder: true,
                ..aa
            }
        ),
        100_000 * 100 / 133
    );
    leader.unit_stats.set_tribe_bonus(0x0B, false);

    let fort = WallConstructTimeInputs {
        is_fort: true,
        ..package
    };
    leader.unit_stats.set_tribe_bonus(6, true);
    assert_eq!(base(&leader, package), 100_000);
    assert_eq!(base(&leader, fort), 100_000 * 100 / 150);
    assert_eq!(
        base(
            &leader,
            WallConstructTimeInputs {
                is_wonder: true,
                ..fort
            }
        ),
        100_000
    );
    leader.unit_stats.set_tribe_bonus(6, false);

    leader.build_stats.buildings_faster = [true, true, false];
    assert_eq!(base(&leader, package), (10 - 2) * 100_000 / 10);

    leader.city_num = 0;
    leader.unit_stats.set_tribe_bonus(6, true);
    let expect = {
        let v = 100_000u32 * 100 / 150;
        let v = 300 * v / 100;
        (10 - 2) * v / 10
    };
    assert_eq!(base(&leader, fort), expect);
}

#[test]
fn construct_time_refuses_a_missing_package_and_a_minus_100_rule() {
    let mut leader = Leader::new(0);
    let mut rules = Step8Rules::shipped();
    let mut o = StatObject {
        constr_time: 4242,
        ..Default::default()
    };
    assert_eq!(wall_update_construct_time(&mut o, &leader, &rules), None);
    assert_eq!(o.constr_time, 4242);
    assert!(!o.construct_time_written);

    // A reduction of exactly -100% would divide by zero.
    rules.roman_fort_speed = -100;
    leader.unit_stats.set_tribe_bonus(6, true);
    o.wall_construct_time_inputs = Some(WallConstructTimeInputs {
        type_time: 900,
        is_fort: true,
        ..Default::default()
    });
    assert_eq!(wall_update_construct_time(&mut o, &leader, &rules), None);
    assert_eq!(o.constr_time, 4242);

    // A fresh leader has no city, so the capital multiplier applies: 900 -> 2700.
    leader.unit_stats.set_tribe_bonus(6, false);
    assert_eq!(wall_update_construct_time(&mut o, &leader, &rules), Some(2700));
    assert_eq!(o.constr_time, 2700);
}

#[test]
fn unit_armor_applies_cattle_bonus_and_propagates_down_the_captain_chain() {
    let mut leader = Leader::new(0);
    leader.rare_effective.set(31, true);
    let rules = Step8Rules::shipped();
    let mut units = vec![
        StatObject {
            captain: true,
            armor_inputs: Some(UnitArmorInputs {
                type_armor: 12,
                special_family_32_33: true,
                ..Default::default()
            }),
            o_down: Some(1),
            ..Default::default()
        },
        StatObject {
            o_down: Some(2),
            ..Default::default()
        },
        StatObject {
            o_down: None,
            ..Default::default()
        },
    ];

    assert_eq!(unit_update_armor(&mut units, 0, &leader, &rules), Some(13));
    assert_eq!(units.iter().map(|u| u.myarmor).collect::<Vec<_>>(), [13; 3]);
    assert!(units.iter().all(|u| u.armor_written));
    assert_eq!(units[0].unit_armor_updates, 1);
    assert_eq!(units[1].unit_armor_updates, 0);

    leader.rare_effective.set(31, false);
    for u in units.iter_mut() {
        u.armor_written = false;
    }
    assert_eq!(unit_update_armor(&mut units, 0, &leader, &rules), Some(12));
    assert_eq!(units.iter().map(|u| u.myarmor).collect::<Vec<_>>(), [12; 3]);
}

#[test]
fn unit_updates_stop_on_a_chain_that_leaves_the_table() {
    let leader = Leader::new(0);
    let rules = Step8Rules::shipped();
    let mut units = vec![
        StatObject {
            armor_inputs: Some(UnitArmorInputs {
                type_armor: 7,
                ..Default::default()
            }),
            o_down: Some(1),
            ..Default::default()
        },
        StatObject {
            o_down: Some(9),
            ..Default::default()
        },
    ];
    assert_eq!(unit_update_armor(&mut units, 0, &leader, &rules), None);
    assert_eq!(units[0].myarmor, 7);
    assert_eq!(units[1].myarmor, 7);

    // No captain, or a captain without its package: nothing moves.
    let before = units.clone();
    assert_eq!(unit_update_armor(&mut units, 5, &leader, &rules), None);
    assert_eq!(unit_update_speed(&mut units, 0, &leader, &rules), None);
    assert_eq!(units, before);

    // A chain that loops back is cut by the step budget.
    let mut ring = vec![
        StatObject {
            speed_inputs: Some(UnitSpeedInputs {
                type_moves: 10,
                ..Default::default()
            }),
            o_down: Some(1),
            ..Default::default()
        },
        StatObject {
            o_down: Some(0),
            ..Default::default()
        },
    ];
    assert_eq!(unit_update_speed(&mut ring, 0, &leader, &rules), None);
    assert!(ring.iter().all(|u| u.speed_written));
}

#[test]
fn unit_speed_executes_the_retail_modifier_order() {
    let mut leader = Leader::new(0);
    leader.rare_effective.set(25, true); // whales
    let mut rules = Step8Rules::zeroed();
    rules.unit_move_speed = 2;
    rules.military_transport_bonus = 3;
    rules.americans_marine_speed_bonus = 2;
    rules.whales_ships_move = 20;
    rules.bantu_units_move = 25;
    rules.aztec_move_speed = 10;
    let input = UnitSpeedInputs {
        type_moves: 80,
        domain: 1,
        unit_flags: 0x10,
        unit_data_flags: 0x200,
        military_epoch: 2,
        has_objmask_2000: true,
        is_68: true,
        is_3a: true,
        type_id: 0x32,
        bantu: true,
        spy_upgrade: 1,
        hero: true,
        general_upgrade: 2,
        supply: true,
        supply_upgrade: 1,
        aztec: true,
        ..Default::default()
    };

    assert_eq!(unit_speed(&input, &leader, &rules), 778);

    leader.rare_effective.set(25, false);
    assert_eq!(unit_speed(&input, &leader, &rules), 649);
    leader.rare_b.set(25, true);
    assert_eq!(unit_speed(&input, &leader, &rules), 778);
    let no_mask = UnitSpeedInputs {
        has_objmask_2000: false,
        ..input
    };
    assert_eq!(unit_speed(&no_mask, &leader, &rules), 649);
}

#[test]
fn unit_speed_pins_type_precedence_signed_rounding_and_siege_air_order() {
    let leader = Leader::new(0);
    let rules = Step8Rules::shipped();
    let all = UnitSpeedInputs {
        type_moves: -32,
        is_68: true,
        is_66: true,
        is_64: true,
        is_62: true,
        ..Default::default()
    };
    assert_eq!(unit_speed(&all, &leader, &rules), -36);
    assert_eq!(
        unit_speed(
            &UnitSpeedInputs {
                is_68: false,
                ..all
            },
            &leader,
            &rules
        ),
        -34
    );
    assert_eq!(
        unit_speed(
            &UnitSpeedInputs {
                is_68: false,
                is_66: false,
                ..all
            },
            &leader,
            &rules
        ),
        -37
    );
    assert_eq!(
        unit_speed(
            &UnitSpeedInputs {
                is_68: false,
                is_66: false,
                is_64: false,
                ..all
            },
            &leader,
            &rules,
        ),
        -40
    );

    let mut air_leader = Leader::new(0);
    air_leader.rare_b.set(24, true); // aluminum
    let siege_air = UnitSpeedInputs {
        type_moves: 100,
        domain: 2,
        type_line: 0x1ae,
        french: true,
        versailles: true,
        ..Default::default()
    };
    assert_eq!(unit_speed(&siege_air, &air_leader, &rules), 187);
}

#[test]
fn unit_speed_stores_i16_and_propagates_down_the_captain_chain() {
    let leader = Leader::new(0);
    let rules = Step8Rules::shipped();
    let mut units = vec![
        StatObject {
            speed_inputs: Some(UnitSpeedInputs {
                type_moves: 40_000,
                ..Default::default()
            }),
            o_down: Some(1),
            ..Default::default()
        },
        StatObject {
            o_down: Some(2),
            ..Default::default()
        },
        StatObject::default(),
    ];
    let stored = 40_000i32 as i16;
    assert_eq!(
        unit_update_speed(&mut units, 0, &leader, &rules),
        Some(stored as i32)
    );
    assert_eq!(
        units.iter().map(|u| u.myspeed).collect::<Vec<_>>(),
        [stored; 3]
    );
    assert!(units.iter().all(|u| u.speed_written));
    assert_eq!(units[0].unit_speed_updates, 1);
    assert_eq!(units[1].unit_speed_updates, 0);
}

#[test]
fn object_armor_dutch_age_bonus_keeps_all_retail_early_returns() {
    let mut leader = Leader::new(0);
    leader.age = 5;
    let rules = Step8Rules::shipped();
    let mut input = UnitArmorInputs {
        type_armor: 3,
        dutch: true,
        dutch_armor_eligible: true,
        type_id: 0x3d,
        patch_version: 8,
        ..Default::default()
    };
    assert_eq!(object_data_armor(&input, &leader, &rules), 8);

    input.patch_version = 9;
    input.gov_hero = true;
    assert_eq!(object_data_armor(&input, &leader, &rules), 3);
    input.gov_hero = false;
    input.type_id = 7;
    assert_eq!(object_data_armor(&input, &leader, &rules), 3);
    input.caravan = true;
    assert_eq!(object_data_armor(&input, &leader, &rules), 8);
}

#[test]
fn wall_band_pass_charges_missing_packages_and_runs_the_base_bodies() {
    let leader = Leader::new(0);
    let rules = Step8Rules::shipped();
    let under_construction = StatObject {
        active: true,
        wall_active: false,
        constr_time: 4242,
        ..Default::default()
    };
    let mut band = vec![under_construction, StatObject::default()];
    let c = wall_band_pass(&mut band, &leader, &rules);
    assert_eq!(c.visited, 2);
    assert_eq!(c.active, 1);
    assert_eq!(c.construct_time_updates, 1);
    assert_eq!(c.construct_time_resolved, 0);
    // The construction call, the hits body and the line-of-sight body all miss.
    assert_eq!(c.unresolved_calls, 3);
    assert_eq!(band[0].constr_time, 4242);
    assert_eq!(band[0].construct_time_updates, 1);
    assert_eq!((band[0].v15c_calls, band[0].v160_calls), (1, 1));
    assert_eq!(band[1], StatObject::default());

    band[0].wall_construct_time_inputs = Some(WallConstructTimeInputs {
        type_time: 900,
        ..Default::default()
    });
    band[0].hit_inputs = Some(ObjectHitInputs {
        base_hits: 70,
        ..Default::default()
    });
    band[0].type_los = Some(4);
    let c = wall_band_pass(&mut band, &leader, &rules);
    assert_eq!(c.construct_time_resolved, 1);
    assert_eq!(c.object_hits_updates, 1);
    assert_eq!(c.object_los_updates, 1);
    assert_eq!(c.unresolved_calls, 0);
    // A fresh leader has no city: 900 -> 2700.
    assert_eq!(band[0].constr_time, 2700);
    assert_eq!(band[0].myhits, 70);
    assert_eq!(band[0].mylos, 0, "an owner out of the game sees nothing");

    // An active, finished object never reaches the construction call.
    band[0].wall_active = true;
    let mut total = c;
    let c = wall_band_pass(&mut band, &leader, &rules);
    assert_eq!(c.construct_time_updates, 0);
    total.add(c);
    assert_eq!(total.visited, 4);
    assert_eq!(total.construct_time_updates, 1);
}

#[test]
fn stage_map_counts_each_child_the_dispatcher_reached() {
    let seen2 = [0u8; 64];
    let mut ls = Leaders::new();
    ls.leaders[3].activate();
    ls.leaders[6].activate();
    let mut input = strategy_input(&seen2);
    input.check_victory_mode = true;
    let trace = strategy_all(&mut ls, input);
    let map = call_stage_map(&trace);
    assert_eq!(map.check_explore, 2);
    assert_eq!(map.plan_strategy, 2);
    assert_eq!(map.compute_score, 2);
    assert_eq!(map.diplomacy, 2);
    assert!(map.check_victory);

    input.check_victory_mode = false;
    let quiet = strategy_all(&mut Leaders::new(), input);
    let map = call_stage_map(&quiet);
    assert_eq!((map.check_explore, map.plan_strategy, map.diplomacy), (0, 0, 0));
    assert!(!map.check_victory);
}
