use don_sim::leader_set_diplo::{
    plan_accepted_deal_resources, plan_declaration_payments, plan_set_diplo,
    AcceptedDealResourceStep, AcceptedDealResources, DealResourcePlanError,
    DeclarationPaymentError, DeclarationPaymentImage, EjectionUnitFact, ForeignRelationKind,
    Relation, SetDiploAuthority, SetDiploImage, SetDiploMutation, SetDiploPlanError,
    SetDiploPresentation, SetDiploReceipt, SetDiploRequest, SetDiploStep,
    SetDiploTransactionRequest, SetDiploTransactionStatus, VICTORY_BIT_22,
};
use don_sim::leaders_diplomacy_opening_frontier::{
    execute_diplomacy_opening, target_period, target_phase_word, DiplomacyOpeningState,
    GameFacts, GateOutcome, OpenResidual, OpeningError, PolicyTrigger, TargetOutcome, TargetSkip,
    AGENDA_PENDING, LEADER_ACTIVE, LEADER_HUMAN,
};

/// Eight leaders naming themselves, all at peace, every fact present.
fn full_image() -> SetDiploImage {
    let mut image = SetDiploImage::default();
    for i in 0..8 {
        let l = &mut image.leaders[i];
        l.who = Some(i as i32);
        l.leader_flags = Some(0);
        l.leader_flags2 = Some(0);
        l.diplos = [Some(Relation::Peace); 8];
        l.shared_vision = Some(0);
        l.has_shared_vision_preq = Some(true);
        l.ejection_units = Some(Vec::new());
        l.valid_armies = Some([false; 16]);
    }
    image.local_who = Some(0);
    image.console_treaty_one = [Some(true); 8];
    image.global_shared_vision = Some(false);
    image
}

#[test]
fn set_diplo_missing_identity_is_refused() {
    let image = SetDiploImage::default();
    let request = SetDiploRequest { actor: 0, target: 1, state: Relation::War };
    assert_eq!(
        plan_set_diplo(&image, request),
        Err(SetDiploPlanError::MissingIdentity { slot: 0 })
    );
    let request = SetDiploRequest { actor: 8, target: 1, state: Relation::War };
    assert_eq!(
        plan_set_diplo(&image, request),
        Err(SetDiploPlanError::LeaderOutOfRange { value: 8 })
    );
}

#[test]
fn set_diplo_unchanged_declaration_has_no_effect() {
    let image = full_image();
    let plan = plan_set_diplo(&image, SetDiploRequest { actor: 1, target: 2, state: Relation::Peace })
        .unwrap();
    assert_eq!(plan.old_state, Relation::Peace);
    assert_eq!(plan.after, image);
    assert!(plan.steps.is_empty());
}

#[test]
fn set_diplo_alliance_writes_both_rows_grants_vision_and_wins() {
    let image = full_image();
    let request = SetDiploRequest { actor: 1, target: 2, state: Relation::Ally };
    let plan = plan_set_diplo(&image, request).unwrap();
    assert_eq!(plan.after.leaders[1].diplos[2], Some(Relation::Ally));
    assert_eq!(plan.after.leaders[2].diplos[1], Some(Relation::Ally));
    assert_eq!(plan.after.leaders[1].shared_vision, Some(1 << 2));
    assert_eq!(plan.after.leaders[2].shared_vision, Some(1 << 1));
    // No other leader is active (`flags & 3 == 3`), so the actor wins.
    assert_eq!(plan.after.victory_mask & VICTORY_BIT_22, VICTORY_BIT_22);
    assert!(plan.after.interface_dirty);
    assert_eq!(
        plan.steps,
        vec![
            SetDiploStep::Presentation(SetDiploPresentation::ForeignRelation {
                actor: 1,
                target: 2,
                kind: ForeignRelationKind::Alliance,
            }),
            SetDiploStep::Presentation(SetDiploPresentation::Sound { id: 0x135 }),
            SetDiploStep::Mutation(SetDiploMutation::WriteDeclaration {
                from: 1,
                to: 2,
                state: Relation::Ally,
            }),
            SetDiploStep::Mutation(SetDiploMutation::WriteDeclaration {
                from: 2,
                to: 1,
                state: Relation::Ally,
            }),
            SetDiploStep::Mutation(SetDiploMutation::GrantSharedVision { viewer: 1, source: 2 }),
            SetDiploStep::Mutation(SetDiploMutation::GrantSharedVision { viewer: 2, source: 1 }),
            SetDiploStep::Authority(SetDiploAuthority::Victory {
                winner: 1,
                victory_type: 0,
                instant: 0,
            }),
            SetDiploStep::Mutation(SetDiploMutation::SetVictoryBit22),
            SetDiploStep::Mutation(SetDiploMutation::MarkInterfaceDirty),
        ]
    );
}

#[test]
fn set_diplo_an_independent_active_leader_blocks_victory() {
    let mut image = full_image();
    image.leaders[5].leader_flags = Some(3);
    let plan = plan_set_diplo(&image, SetDiploRequest { actor: 1, target: 2, state: Relation::Ally })
        .unwrap();
    assert_eq!(plan.after.victory_mask, 0);
    assert!(!plan
        .steps
        .iter()
        .any(|s| matches!(s, SetDiploStep::Authority(SetDiploAuthority::Victory { .. }))));
}

#[test]
fn set_diplo_breaking_an_alliance_clears_vision_and_ejects_units() {
    let mut image = full_image();
    image.leaders[1].diplos[2] = Some(Relation::Ally);
    image.leaders[2].diplos[1] = Some(Relation::Ally);
    image.leaders[1].shared_vision = Some(0xff);
    image.leaders[2].shared_vision = Some(0xff);
    image.leaders[1].leader_flags = Some(1);
    image.leaders[1].valid_armies = Some({
        let mut a = [false; 16];
        a[3] = true;
        a
    });
    image.leaders[1].ejection_units = Some(vec![
        EjectionUnitFact {
            object_id: 40,
            is_unit: true,
            carrier_who: Some(2),
            come_out_return: Some(0),
            domain: Some(2),
            has_air_patrol_order: Some(false),
        },
        EjectionUnitFact {
            object_id: 41,
            is_unit: true,
            carrier_who: Some(2),
            come_out_return: Some(1),
            domain: None,
            has_air_patrol_order: None,
        },
        EjectionUnitFact {
            object_id: 42,
            is_unit: true,
            carrier_who: Some(3),
            come_out_return: None,
            domain: None,
            has_air_patrol_order: None,
        },
    ]);
    image.local_who = Some(1);
    let request = SetDiploRequest { actor: 1, target: 2, state: Relation::Peace };
    let plan = plan_set_diplo(&image, request).unwrap();
    assert_eq!(plan.old_state, Relation::Ally);
    assert_eq!(plan.after.leaders[1].shared_vision, Some(0xff & !(1 << 2)));
    assert_eq!(plan.after.leaders[2].shared_vision, Some(0xff & !(1 << 1)));
    assert_eq!(
        plan.steps[..5].to_vec(),
        vec![
            SetDiploStep::Mutation(SetDiploMutation::ClearSharedVision { viewer: 1, source: 2 }),
            SetDiploStep::Mutation(SetDiploMutation::ClearSharedVision { viewer: 2, source: 1 }),
            SetDiploStep::Authority(SetDiploAuthority::ComeOut { owner: 1, object_id: 40 }),
            SetDiploStep::Authority(SetDiploAuthority::AddAirStrafeOrder {
                owner: 1,
                object_id: 40,
                queue_pos: 2,
            }),
            SetDiploStep::Authority(SetDiploAuthority::ComeOut { owner: 1, object_id: 41 }),
        ]
    );
    assert!(plan.steps.contains(&SetDiploStep::Authority(SetDiploAuthority::ForceArmyProcess {
        owner: 1,
        army_slot: 3,
        forced: 1,
    })));
    assert_eq!(
        plan.steps.last(),
        Some(&SetDiploStep::Mutation(SetDiploMutation::MarkInterfaceDirty))
    );

    // A missing come-out answer for a contained unit is a typed refusal.
    image.leaders[1].ejection_units.as_mut().unwrap()[0].come_out_return = None;
    assert!(matches!(
        plan_set_diplo(&image, request),
        Err(SetDiploPlanError::MissingEjectionFact { owner: 1, object_id: 40, .. })
    ));
}

#[test]
fn set_diplo_receipts_validate_only_the_planned_authority() {
    let image = full_image();
    let change = SetDiploRequest { actor: 1, target: 2, state: Relation::Ally };
    let request = SetDiploTransactionRequest { before: image.clone(), change };
    let plan = plan_set_diplo(&image, change).unwrap();
    let authority: Vec<SetDiploAuthority> = plan
        .steps
        .iter()
        .filter_map(|s| match s {
            SetDiploStep::Authority(a) => Some(*a),
            _ => None,
        })
        .collect();
    let receipt = SetDiploReceipt {
        request: request.clone(),
        status: SetDiploTransactionStatus::Applied,
        plan: Some(plan.clone()),
        authority: authority.clone(),
    };
    assert!(receipt.validates(&request));
    let mut short = receipt.clone();
    short.authority.clear();
    assert!(!short.validates(&request));
    assert!(SetDiploReceipt::unavailable(request.clone()).validates(&request));

    let bad = SetDiploTransactionRequest { before: SetDiploImage::default(), change };
    assert!(!SetDiploReceipt::unavailable(bad.clone()).validates(&bad));
}

#[test]
fn accepted_deal_refunds_then_transfers_scaled_tribute() {
    let mut deal = AcceptedDealResources::default();
    for l in deal.leaders.iter_mut() {
        l.type_available = [Some(true); 6];
        l.tribute_scale_percent = Some(50);
        l.escrow = [10; 6];
    }
    deal.declaration_costs[0][1][0] = 7;
    deal.offers[1][0][0] = 50;
    deal.offers[0][1][0] = -5;
    let plan = plan_accepted_deal_resources(&deal, 0, 1).unwrap();
    // Refund of 7, then (50 * 50 + 50) / 100 = 25 scaled from the proposer.
    assert_eq!(plan.after.leaders[0].buckets[0], 7 + 25);
    assert_eq!(plan.after.declaration_costs[0][1][0], 0);
    // The proposer's escrow went to 10 - 50 and was clamped.
    assert_eq!(plan.after.leaders[1].escrow[0], 0);
    assert_eq!(plan.after.leaders[1].sent_raw, 50);
    assert_eq!(plan.after.leaders[0].received_scaled, 25);
    assert_eq!(
        plan.steps[4],
        AcceptedDealResourceStep::CreditScaledTribute { from: 1, to: 0, good: 0, raw: 50, scaled: 25 }
    );
    assert_eq!(
        plan_accepted_deal_resources(&deal, 9, 1),
        Err(DealResourcePlanError::LeaderOutOfRange { value: 9 })
    );
    deal.leaders[1].tribute_scale_percent = None;
    assert_eq!(
        plan_accepted_deal_resources(&deal, 0, 1),
        Err(DealResourcePlanError::MissingTributeScale { who: 1 })
    );
}

#[test]
fn declaration_payments_debit_and_floor_both_buckets() {
    let mut image = DeclarationPaymentImage::default();
    image.type_available = [Some(true), Some(false), Some(true), Some(true), Some(true), Some(true)];
    image.costs = [Some(30), None, Some(5), Some(0), Some(0), Some(0)];
    image.authoritative_buckets = [50, 0, 7, 0, 0, 0];
    image.leader_buckets = [40, 0, 100, 0, 0, 0];
    let plan = plan_declaration_payments(&image, 2).unwrap();
    assert_eq!(plan.after.authoritative_buckets[0], 0);
    assert_eq!(plan.after.leader_buckets[0], 0);
    assert_eq!(plan.after.authoritative_buckets[2], 0);
    assert_eq!(plan.after.leader_buckets[2], 90);
    assert_eq!(plan.steps.len(), 2 * 5 * 2);
    image.costs[3] = None;
    assert_eq!(
        plan_declaration_payments(&image, 1),
        Err(DeclarationPaymentError::MissingCost { good: 3 })
    );
    assert_eq!(plan_declaration_payments(&image, 0).unwrap().after, image);
}

fn opening_state() -> DiplomacyOpeningState {
    let mut s = DiplomacyOpeningState::default();
    s.owner.who = 1;
    for i in 0..8 {
        s.leaders[i].who = i as i32;
        s.leaders[i].flags = 3;
        s.owner.treaties[i] = 1;
    }
    s
}

#[test]
fn diplomacy_opening_gates_and_errors_leave_state_alone() {
    let mut s = opening_state();
    s.owner.who = 9;
    assert_eq!(
        execute_diplomacy_opening(&mut s, GameFacts::default()),
        Err(OpeningError::OwnerWhoOutsideArray { who: 9 })
    );
    let mut s = opening_state();
    s.leaders[1].flags |= LEADER_HUMAN;
    let before = s.clone();
    let trace = execute_diplomacy_opening(&mut s, GameFacts::default()).unwrap();
    assert_eq!(trace.gate, GateOutcome::HumanOwner);
    assert_eq!(s, before);
    let mut s = opening_state();
    let trace =
        execute_diplomacy_opening(&mut s, GameFacts { ai_off: true, ..GameFacts::default() }).unwrap();
    assert_eq!(trace.gate, GateOutcome::AiDisabled);
}

#[test]
fn diplomacy_opening_clears_the_first_pending_agenda_and_stops() {
    let mut s = opening_state();
    s.leaders[3].flags = 0;
    s.owner.agendas[4] = AGENDA_PENDING | 0x10;
    s.owner.agendas[5] = AGENDA_PENDING;
    s.leaders[6].score = 9;
    // The frame misses every cadence before target 4.
    let trace = execute_diplomacy_opening(&mut s, GameFacts { frame: 1, ..GameFacts::default() })
        .unwrap();
    assert_eq!(trace.gate, GateOutcome::Entered);
    let scan = trace.scan.as_ref().unwrap();
    assert_eq!(scan.ally_reads.len(), 7);
    assert_eq!(scan.strongest_slot, 6);
    assert_eq!(scan.strongest_score, 9);
    assert_eq!(scan.stronger_than_owner, 1);
    assert_eq!(trace.targets.len(), 5);
    assert_eq!(trace.targets[1].outcome, TargetOutcome::Skipped(TargetSkip::OwnerSlot));
    assert_eq!(trace.targets[3].outcome, TargetOutcome::Skipped(TargetSkip::ProcessFlagClear));
    assert_eq!(
        trace.targets[4].outcome,
        TargetOutcome::ReachedPolicy {
            trigger: PolicyTrigger::PendingAgenda,
            agenda_before: AGENDA_PENDING | 0x10,
            agenda_after: 0x10,
        }
    );
    assert_eq!(s.owner.agendas[4], 0x10);
    assert_eq!(s.owner.agendas[5], AGENDA_PENDING);
    assert_eq!(
        trace.residual,
        Some(OpenResidual::DownstreamPolicy { target_index: 4, first_unowned_va: 0x006b_cb2c })
    );
    assert_eq!(LEADER_ACTIVE, 2);
}

#[test]
fn diplomacy_cadence_periods_and_phase_words() {
    assert_eq!(target_period(0, 0, 0, 0), 0x200);
    assert_eq!(target_period(0, 0, 0, 8), 0x800);
    assert_eq!(target_period(0, 1, 1, 8), 0x4000);
    assert_eq!(target_period(1, 1, 1, 8), 0x800);
    assert_eq!(target_period(0, 1, 0, 0), 0x800);
    // (2 + 8 * 1) * (0x800 >> 6) = 10 * 32.
    assert_eq!(target_phase_word(5, 1, 2, 0x800), 5 + 320);
    assert_eq!(target_phase_word(u32::MAX, 0, 1, 0x40), 0);
}
