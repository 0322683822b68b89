use don_sim::leader_unit_think_pending::{
    commit_unit_think_leader_pending, prepare_unit_think_leader_pending,
    UnitThinkLeaderPendingError, UnitThinkLeaderPendingSource,
};

fn source() -> UnitThinkLeaderPendingSource {
    UnitThinkLeaderPendingSource {
        revision: 7,
        composition_digest: [0xa5; 32],
        owner: 0,
        unit_o: 3,
        unit_type: 50,
    }
}

#[test]
fn exact_or_commits_both_mirrors_and_is_idempotent() {
    let mut victory = 7i32;
    let mut step8 = 7u32;
    let prepared = prepare_unit_think_leader_pending(source(), 8, victory, step8, 0, 0).unwrap();
    let receipt =
        commit_unit_think_leader_pending(source(), prepared, &mut victory, &mut step8, 0, 0)
            .unwrap();
    assert_eq!(receipt.flags_before, 7);
    assert_eq!(receipt.flags_after, 0x0008_0007);
    assert!(receipt.changed);
    assert_eq!(victory as u32, receipt.flags_after);
    assert_eq!(step8, receipt.flags_after);

    let prepared = prepare_unit_think_leader_pending(source(), 8, victory, step8, 2, 2).unwrap();
    let receipt =
        commit_unit_think_leader_pending(source(), prepared, &mut victory, &mut step8, 2, 2)
            .unwrap();
    assert!(!receipt.changed);
    assert!(receipt.unit_ai_disabled);
}

#[test]
fn source_and_before_image_mutations_refuse_without_a_partial_store() {
    let mut victory = 7i32;
    let mut step8 = 7u32;
    let prepared = prepare_unit_think_leader_pending(source(), 8, victory, step8, 0, 0).unwrap();

    let mut changed_source = source();
    changed_source.revision += 1;
    assert!(matches!(
        commit_unit_think_leader_pending(changed_source, prepared, &mut victory, &mut step8, 0, 0,),
        Err(UnitThinkLeaderPendingError::SourceMismatch { .. })
    ));
    assert_eq!((victory, step8), (7, 7));

    victory |= 0x100;
    assert!(matches!(
        commit_unit_think_leader_pending(source(), prepared, &mut victory, &mut step8, 0, 0),
        Err(UnitThinkLeaderPendingError::StaleBeforeImage { .. })
    ));
    assert_eq!(step8, 7);

    victory = 7;
    step8 |= 0x200;
    assert!(matches!(
        commit_unit_think_leader_pending(source(), prepared, &mut victory, &mut step8, 0, 0),
        Err(UnitThinkLeaderPendingError::StaleBeforeImage { .. })
    ));
    assert_eq!(victory, 7);
}

#[test]
fn malformed_authority_and_mirror_drift_fail_closed() {
    let mut invalid = source();
    invalid.revision = 0;
    assert_eq!(
        prepare_unit_think_leader_pending(invalid, 8, 7, 7, 0, 0),
        Err(UnitThinkLeaderPendingError::MissingRevision)
    );
    invalid = source();
    invalid.composition_digest = [0; 32];
    assert_eq!(
        prepare_unit_think_leader_pending(invalid, 8, 7, 7, 0, 0),
        Err(UnitThinkLeaderPendingError::MissingCompositionDigest)
    );
    invalid = source();
    invalid.owner = 8;
    assert_eq!(
        prepare_unit_think_leader_pending(invalid, 8, 7, 7, 0, 0),
        Err(UnitThinkLeaderPendingError::OwnerOutOfRange { owner: 8 })
    );
    invalid = source();
    invalid.unit_type = 52;
    assert_eq!(
        prepare_unit_think_leader_pending(invalid, 8, 7, 7, 0, 0),
        Err(UnitThinkLeaderPendingError::UnsupportedActor {
            unit_o: 3,
            unit_type: 52,
        })
    );
    assert!(matches!(
        prepare_unit_think_leader_pending(source(), 8, 7, 3, 0, 0),
        Err(UnitThinkLeaderPendingError::MirrorDisagreement { .. })
    ));
    assert!(matches!(
        prepare_unit_think_leader_pending(source(), 8, 7, 7, 0, 2),
        Err(UnitThinkLeaderPendingError::Flags2MirrorDisagreement { .. })
    ));
    assert_eq!(
        prepare_unit_think_leader_pending(source(), 8, 1, 1, 0, 0),
        Err(UnitThinkLeaderPendingError::InactiveOwner { flags: 1 })
    );
}
