use don_sim::leaders::{
    derive_unit_query_packages, unit_band_pass, Leader, ObjectHitInputs, StatObject, Step8Rules,
    UnitArmorInputs, UnitQuerySource, UnitSpeedInputs, UnitTypeStatOverride, UnitTypeStatSource,
    UnitTypeStatSourceProvenance, SUPPORTED_UNIT_TYPE_STAT_TSV_SHA256, UNIT_TYPE_STAT_END,
    UNIT_TYPE_STAT_FIRST,
};

const EXE: [u8; 32] = [0x30; 32];

/// A full capture whose rows 50, 59, 100 and 103 carry the values of the shipped table and
/// whose other rows are plain roots.
fn unit_type_stat_source_fixture() -> UnitTypeStatSource {
    let mut tsv = String::from(
        "type_id\tfrom\twhere\tobj_masks\tarmor\tdomain\tgraft\tunit_flags\tunit_flags2\tmoves\n",
    );
    for type_id in UNIT_TYPE_STAT_FIRST..UNIT_TYPE_STAT_END {
        let line = match type_id {
            50 => "50\t-1\t414\t0\t0\t0\t-1\t0\t0\t25".to_string(),
            59 => "59\t-1\t427\t0\t0\t0\t-1\t0\t0\t26".to_string(),
            100 => "100\t-1\t427\t0\t4\t0\t-1\t0\t0\t32".to_string(),
            103 => "103\t100\t427\t0\t4\t0\t102\t0\t0\t32".to_string(),
            t => format!("{t}\t-1\t414\t0\t0\t0\t-1\t0\t0\t25"),
        };
        tsv.push_str(&line);
        tsv.push('\n');
    }
    let provenance = UnitTypeStatSourceProvenance {
        executable_sha256: EXE,
        table_sha256: SUPPORTED_UNIT_TYPE_STAT_TSV_SHA256,
    };
    UnitTypeStatSource::from_live_tsv(&tsv, provenance, EXE).unwrap()
}

#[test]
fn shipped_unit_packages_rebuild_type_families_and_live_leader_queries() {
    let table = unit_type_stat_source_fixture();
    let mut leader = Leader::new(0);
    leader.unit_stats.military_epoch = 4;
    leader.unit_stats.set_tribe_bonus(0, true);
    leader.unit_stats.set_tribe_bonus(3, true);
    leader.unit_stats.set_tribe_bonus(10, true);
    leader.unit_stats.set_tribe_bonus(0x16, true);
    leader.unit_stats.versailles = true;
    leader.unit_stats.spy_upgrade = 1;
    leader.unit_stats.general_upgrade = 2;
    leader.unit_stats.supply_upgrade = 3;

    let (speed, armor) = derive_unit_query_packages(
        &table,
        UnitQuerySource {
            type_id: 103,
            unit_masks2: 0x200,
        },
        &leader,
    )
    .unwrap();
    assert_eq!(speed.type_moves, 32);
    assert_eq!(speed.type_line, 427);
    assert_eq!(speed.unit_data_flags, 0x200);
    assert!(speed.is_66, "graft target 102 must match");
    assert!(speed.is_64, "recursive from target 100 must match");
    assert!(!speed.is_68);
    assert!(speed.aztec && speed.bantu && speed.french && speed.versailles);
    assert_eq!(speed.military_epoch, 4);
    assert_eq!(speed.spy_upgrade, 1);
    assert_eq!(speed.general_upgrade, 2);
    assert_eq!(speed.supply_upgrade, 3);
    assert_eq!(armor.type_armor, 4);
    assert!(armor.dutch && armor.dutch_armor_eligible);
    assert_eq!(armor.patch_version, 8);

    assert!(derive_unit_query_packages(
        &table,
        UnitQuerySource {
            type_id: 805,
            unit_masks2: 0
        },
        &leader
    )
    .is_none());
}

fn captain(type_id: i32) -> StatObject {
    StatObject {
        active: true,
        captain: true,
        owner_in_game: true,
        hit_inputs: Some(ObjectHitInputs {
            base_hits: 100,
            ..Default::default()
        }),
        type_los: Some(3),
        unit_query_source: Some(UnitQuerySource {
            type_id,
            unit_masks2: 0,
        }),
        ..Default::default()
    }
}

#[test]
fn automatic_unit_packages_refresh_and_missing_types_cannot_replay_stale_stats() {
    let table = unit_type_stat_source_fixture();
    let leader = Leader::new(0);
    let rules = Step8Rules::shipped();
    let mut units = vec![captain(0x32)];

    let c = unit_band_pass(&mut units, &leader, &rules, Some(&table), &[]);
    let unit = &units[0];
    assert_eq!((unit.myspeed, unit.myarmor), (25, 0));
    assert_eq!(c.unit_query_populations, 1);
    assert_eq!(c.unit_query_misses, 0);
    assert_eq!(c.unresolved_calls, 0);

    units[0].unit_query_source.as_mut().unwrap().type_id = 59;
    let c = unit_band_pass(&mut units, &leader, &rules, Some(&table), &[]);
    assert_eq!((units[0].myspeed, units[0].myarmor), (26, 0));
    assert_eq!(c.unit_query_populations, 1);
    assert_eq!(c.unresolved_calls, 0);

    let unit = &mut units[0];
    unit.unit_query_source.as_mut().unwrap().type_id = 805;
    unit.myspeed = 91;
    unit.myarmor = 92;
    unit.speed_written = false;
    unit.armor_written = false;
    let c = unit_band_pass(&mut units, &leader, &rules, Some(&table), &[]);
    let unit = &units[0];
    assert_eq!((unit.myspeed, unit.myarmor), (91, 92));
    assert!(!unit.speed_written && !unit.armor_written);
    assert!(unit.speed_inputs.is_none() && unit.armor_inputs.is_none());
    assert_eq!(c.unit_query_populations, 0);
    assert_eq!(c.unit_query_misses, 1);
    assert_eq!(c.unresolved_calls, 2);
}

#[test]
fn absent_unit_type_source_clears_packages_and_preserves_walked_stats() {
    let leader = Leader::new(0);
    let mut units = vec![StatObject {
        speed_inputs: Some(UnitSpeedInputs::default()),
        armor_inputs: Some(UnitArmorInputs::default()),
        myspeed: 91,
        myarmor: 92,
        ..captain(50)
    }];

    let counts = unit_band_pass(&mut units, &leader, &Step8Rules::shipped(), None, &[]);
    let unit = &units[0];
    assert_eq!((unit.myspeed, unit.myarmor), (91, 92));
    assert!(unit.speed_inputs.is_none() && unit.armor_inputs.is_none());
    assert!(!unit.speed_written && !unit.armor_written);
    assert_eq!(counts.unit_query_populations, 0);
    assert_eq!(counts.unit_query_misses, 1);
    assert_eq!(counts.unresolved_calls, 2);
}

#[test]
fn unit_band_override_replaces_moves_and_armor_and_counts_each_call() {
    let table = unit_type_stat_source_fixture();
    let leader = Leader::new(0);
    let rules = Step8Rules::shipped();
    let follower = StatObject {
        active: true,
        ..Default::default()
    };
    let mut units = vec![
        StatObject {
            o_down: Some(1),
            ..captain(59)
        },
        follower,
        StatObject::default(),
    ];
    let overrides = [
        UnitTypeStatOverride {
            type_id: 59,
            moves: 40,
            armor: 6,
        },
        UnitTypeStatOverride {
            type_id: 59,
            moves: 1,
            armor: 1,
        },
    ];
    let c = unit_band_pass(&mut units, &leader, &rules, Some(&table), &overrides);
    assert_eq!((units[0].myspeed, units[0].myarmor), (40, 6));
    assert_eq!((units[1].myspeed, units[1].myarmor), (40, 6), "copied down the chain");
    assert_eq!(c.visited, 3);
    assert_eq!(c.active, 2);
    // The follower has no line-of-sight type: one unresolved call.
    assert_eq!(c.object_los_updates, 1);
    assert_eq!(c.unresolved_calls, 1);
    assert_eq!((c.speed_updates, c.armor_updates), (1, 1));
    assert_eq!((c.unit_speed_updates, c.unit_armor_updates), (1, 1));
    assert_eq!(units[0].speed_updates, 1);
    assert_eq!(units[0].v160_calls, 1);
    assert_eq!(units[1].v160_calls, 1);
    assert_eq!(units[1].v15c_calls, 0, "only a captain updates its hits");
    assert_eq!(units[0].myhits, 100);
}
