use don_sim::leader_strategy_runtime::{
    queued_units, QueuedBuild, QueuedTypeFacts, QueuedUnitEntry, StrategyLeaderState,
    StrategyRuntimeError, StrategySnapshot, StrategySnapshotError, SNAPSHOT_BYTES,
    SNAPSHOT_MAGIC,
};
use don_sim::leader_tech_sync::{
    synchronize_production_tech_views, LeaderTechSyncError, LeaderTechViews,
    ProductionTechLeader, ProductionTechRuntime, RETAIL_TECH_BITS,
};
use don_sim::lifecycle_opcode_cohort::{
    find_capital, CapitalCityPool, CapitalIdentity, CapitalPass, CapitalRowImage,
    FindCapitalError, FindCapitalImage, FindCapitalReceipt, FindCapitalRequest,
};

/// A fresh game's duplicate views: no techs, zero ages.
fn fresh_views() -> LeaderTechViews {
    LeaderTechViews {
        step8_ages: vec![0; 8],
        facade_ages: vec![0; 8],
        victory_has_tech: vec![vec![false; RETAIL_TECH_BITS]; 8],
    }
}

/// A fresh production state: no techs, zero ages.
fn fresh_runtime() -> ProductionTechRuntime {
    ProductionTechRuntime {
        leaders: vec![ProductionTechLeader { tech: vec![false; RETAIL_TECH_BITS], ages: 0 }; 8],
    }
}

#[test]
fn committed_production_state_updates_every_duplicate_owner() {
    let mut views = fresh_views();
    let mut runtime = fresh_runtime();
    runtime.leaders[0].tech[100] = true;
    runtime.leaders[0].ages = 3;

    let receipt = synchronize_production_tech_views(&mut views, &runtime, 0).unwrap();
    assert_eq!(receipt.changed_tech_bits, 1);
    assert_eq!(receipt.ages_after, 3);
    assert!(views.victory_has_tech[0][100]);
    assert_eq!(views.step8_ages[0], 3);
    assert_eq!(views.facade_ages[0], 3);
}

#[test]
fn malformed_destination_refuses_without_partial_publication() {
    let mut views = fresh_views();
    let mut runtime = fresh_runtime();
    runtime.leaders[0].tech[100] = true;
    runtime.leaders[0].ages = 3;
    views.victory_has_tech[0].pop();
    views.step8_ages[0] = 11;
    views.facade_ages[0] = 12;
    let tech_before = views.victory_has_tech[0].clone();

    assert_eq!(
        synchronize_production_tech_views(&mut views, &runtime, 0),
        Err(LeaderTechSyncError::VictoryTechLength {
            slot: 0,
            expected: RETAIL_TECH_BITS,
            actual: RETAIL_TECH_BITS - 1,
        })
    );
    assert_eq!(views.victory_has_tech[0], tech_before);
    assert_eq!(views.step8_ages[0], 11);
    assert_eq!(views.facade_ages[0], 12);
}

#[test]
fn tech_sync_refuses_missing_slots_and_republishes_nothing_new() {
    let mut views = fresh_views();
    let runtime = ProductionTechRuntime { leaders: Vec::new() };
    assert_eq!(
        synchronize_production_tech_views(&mut views, &runtime, 0),
        Err(LeaderTechSyncError::MissingProductionLeader { slot: 0, available: 0 })
    );
    assert_eq!(
        synchronize_production_tech_views(&mut views, &runtime, 8),
        Err(LeaderTechSyncError::SlotOutOfRange { slot: 8 })
    );
    let mut runtime = fresh_runtime();
    runtime.leaders[2].tech = vec![true; 900];
    let first = synchronize_production_tech_views(&mut views, &runtime, 2).unwrap();
    assert_eq!(first.changed_tech_bits, RETAIL_TECH_BITS);
    let second = synchronize_production_tech_views(&mut views, &runtime, 2).unwrap();
    assert_eq!(second.changed_tech_bits, 0);
}

fn sample_snapshot() -> StrategySnapshot {
    let mut leaders = [StrategyLeaderState::default(); 8];
    for (i, l) in leaders.iter_mut().enumerate() {
        let i = i as i32;
        *l = StrategyLeaderState {
            leader_flags: 3,
            leader_flags2: -i,
            who: i,
            production_step: 10 + i,
            prod_script_run: 1,
            script_step: 2,
            control: 100 * i,
            explored: -7,
            effective_pop: i32::MIN + i,
        };
    }
    StrategySnapshot { leaders }
}

#[test]
fn strategy_snapshot_round_trips_and_refuses_damage() {
    let s = sample_snapshot();
    let bytes = s.encode();
    assert_eq!(bytes.len(), SNAPSHOT_BYTES);
    assert_eq!(&bytes[..8], &SNAPSHOT_MAGIC[..]);
    assert_eq!(&bytes[8..12], &[1, 0, 0, 0]);
    // leader 0's leader_flags, little-endian.
    assert_eq!(&bytes[12..16], &[3, 0, 0, 0]);
    assert_eq!(StrategySnapshot::decode(&bytes), Ok(s.clone()));

    assert_eq!(
        StrategySnapshot::decode(&bytes[..299]),
        Err(StrategySnapshotError::Length { expected: 300, actual: 299 })
    );
    let mut bad = bytes.clone();
    bad[0] ^= 1;
    assert_eq!(StrategySnapshot::decode(&bad), Err(StrategySnapshotError::Magic));
    let mut bad = bytes.clone();
    bad[8] = 2;
    assert_eq!(StrategySnapshot::decode(&bad), Err(StrategySnapshotError::Version(2)));
}

#[test]
fn strategy_owned_adler_changes_with_an_owned_field() {
    let s = StrategySnapshot { leaders: [StrategyLeaderState::default(); 8] };
    // Eight all-zero images of 0x9e4 bytes: a stays 1, b grows by 1 per byte.
    let n: u32 = 8 * 0x9e4;
    assert_eq!(s.owned_adler32(), (n % 65521) << 16 | 1);
    let mut t = s.clone();
    t.leaders[3].explored = 1;
    assert_ne!(t.owned_adler32(), s.owned_adler32());
}

fn image(rows: [Vec<CapitalRowImage>; 8], flags: [i32; 8]) -> FindCapitalImage {
    FindCapitalImage { rows, leader_flags: flags }
}

fn row(city_flags: u16, was_capital_flags: u8) -> CapitalRowImage {
    CapitalRowImage { city_flags, was_capital_flags }
}

#[test]
fn capital_lookup_receipts_validate_only_the_lookup_answer() {
    let mut rows: [Vec<CapitalRowImage>; 8] = Default::default();
    rows[2] = vec![row(0x01, 0), row(0x11, 0)];
    rows[5] = vec![row(0x01, 0), row(0x01, 1 << 2)];
    let img = image(rows, [3; 8]);
    let request = FindCapitalRequest { who: 2, skip_city: -1, skip_who: -1 };
    let own = FindCapitalReceipt {
        request,
        image: img.clone(),
        result: CapitalIdentity { city: 1, who: 2 },
        pass: CapitalPass::Own,
        visited: 2,
        departing_leader_active_guard: true,
    };
    assert!(own.validates());

    // Skipping the own capital falls through to the former capital held by leader 5.
    let skip = FindCapitalRequest { who: 2, skip_city: 1, skip_who: 2 };
    let former = FindCapitalReceipt {
        request: skip,
        image: img.clone(),
        result: CapitalIdentity { city: 1, who: 5 },
        pass: CapitalPass::Former,
        visited: 4,
        departing_leader_active_guard: true,
    };
    assert!(former.validates());
    let mut wrong = former.clone();
    wrong.visited = 3;
    assert!(!wrong.validates());

    // Without the departing leader's guard there is no second pass.
    let mut unguarded = img.clone();
    unguarded.leader_flags[2] = 1;
    let fallback = FindCapitalReceipt {
        request: skip,
        image: unguarded,
        result: CapitalIdentity { city: -1, who: 2 },
        pass: CapitalPass::Fallback,
        visited: 2,
        departing_leader_active_guard: false,
    };
    assert!(fallback.validates());
    let mut out = own.clone();
    out.request.who = 8;
    assert!(!out.validates());
}

#[test]
fn find_capital_checks_every_mark_then_looks_below_the_marks() {
    let mut slots: [Vec<CapitalRowImage>; 8] = Default::default();
    slots[2] = vec![row(0x01, 0), row(0x11, 0), row(0x11, 0)];
    slots[5] = vec![row(0x01, 1 << 2)];
    let mut pool = CapitalCityPool { city_mark: [0; 8], slots };
    pool.city_mark[2] = 1; // the capital at row 1 is beyond the mark
    pool.city_mark[5] = 1;
    let flags = [3; 8];
    let request = FindCapitalRequest { who: 2, skip_city: -1, skip_who: -1 };

    let r = find_capital(&pool, &flags, request).unwrap();
    assert_eq!(r.result, CapitalIdentity { city: 0, who: 5 });
    assert_eq!(r.pass, CapitalPass::Former);
    assert_eq!(r.image.rows[2].len(), 1);
    assert!(r.validates());

    pool.city_mark[2] = 3;
    let r = find_capital(&pool, &flags, request).unwrap();
    assert_eq!((r.result, r.pass, r.visited), (CapitalIdentity { city: 1, who: 2 }, CapitalPass::Own, 2));

    pool.city_mark[7] = 1;
    assert_eq!(
        find_capital(&pool, &flags, request),
        Err(FindCapitalError::CityMarkOutOfRange { who: 7, mark: 1, installed: 0 })
    );
    pool.city_mark[7] = 0;
    pool.city_mark[0] = -1;
    assert_eq!(
        find_capital(&pool, &flags, request),
        Err(FindCapitalError::CityMarkOutOfRange { who: 0, mark: -1, installed: 0 })
    );
    assert_eq!(
        find_capital(&pool, &flags, FindCapitalRequest { who: 8, ..request }),
        Err(FindCapitalError::LeaderOutOfRange { who: 8 })
    );
}

fn unit_type(cost: i32) -> Option<QueuedTypeFacts> {
    Some(QueuedTypeFacts {
        is_unit: true,
        can_make: true,
        prerequisites_held: true,
        control_cost: cost,
    })
}

fn build(who: u8, active: bool, queued: usize, entries: Vec<i32>) -> QueuedBuild {
    QueuedBuild {
        who,
        valid: true,
        active,
        queued,
        entries,
    }
}

#[test]
fn queued_units_counts_only_logical_entries_of_admitted_unit_types() {
    let mut types = vec![None; 10];
    types[2] = unit_type(5);
    types[3] = Some(QueuedTypeFacts {
        prerequisites_held: false,
        ..unit_type(7).unwrap()
    });
    types[4] = Some(QueuedTypeFacts {
        is_unit: false,
        ..unit_type(9).unwrap()
    });
    types[5] = unit_type(11);
    let builds = vec![
        build(1, true, 3, vec![2, 3, 4, 5]),
        build(1, false, 1, vec![9]),
        build(1, true, 1, vec![5, 2]),
    ];
    let r = queued_units(&[0, 1, 2], &builds, &types, 1).unwrap();
    assert_eq!(r.builds_visited, vec![2000, 2001, 2002]);
    assert_eq!(r.active_builds, 2);
    assert_eq!(r.logical_entries, 4);
    assert_eq!(r.total_control_cost, 5 + 11);
    assert_eq!(
        r.admitted,
        vec![
            QueuedUnitEntry {
                build_object: 2000,
                queue_slot: 0,
                type_index: 2,
                control_cost: 5
            },
            QueuedUnitEntry {
                build_object: 2002,
                queue_slot: 0,
                type_index: 5,
                control_cost: 11
            },
        ]
    );
}

#[test]
fn queued_units_refuses_structural_failures_in_order() {
    let types = vec![unit_type(1); 4];
    let builds = vec![build(1, true, 1, vec![0]), build(2, true, 0, vec![])];
    assert_eq!(
        queued_units(&[0], &builds, &types, 8),
        Err(StrategyRuntimeError::OwnerOutsideLeaderTable { owner: 8 })
    );
    assert_eq!(
        queued_units(&[0, 7], &builds, &types, 1),
        Err(StrategyRuntimeError::MissingBuildRow { owner: 1, row: 7 })
    );
    assert_eq!(
        queued_units(&[1], &builds, &types, 1),
        Err(StrategyRuntimeError::BuildOwnerMismatch {
            owner: 1,
            row: 1,
            actual: 2
        })
    );
    let long = vec![build(1, true, 2, vec![0])];
    assert_eq!(
        queued_units(&[0], &long, &types, 1),
        Err(StrategyRuntimeError::QueueLengthExceedsStorage {
            owner: 1,
            build_object: 2000,
            queued: 2,
            stored: 1
        })
    );
    let missing = vec![build(1, true, 2, vec![1, -3])];
    assert_eq!(
        queued_units(&[0], &missing, &types, 1),
        Err(StrategyRuntimeError::MissingType {
            owner: 1,
            build_object: 2000,
            type_index: -3
        })
    );
}
