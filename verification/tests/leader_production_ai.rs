use don_sim::leader_production_ai::flags;
use don_sim::leader_production_ai::flags2;
use don_sim::leader_production_ai::va;
use don_sim::leader_production_ai::{
    plan_phase, plan_strategy, production_ai, AiEnv, PlanArm, ProductionGate, ProductionState,
    Stage, Stall, INFINITE_RESOURCES, SCRIPT_BLOCK_ON_THIS, SCRIPT_DONE,
};

fn env(frame: i32) -> AiEnv {
    AiEnv {
        frame,
        ai_speed: 1,
        ai_off: false,
        starting_resources: Some(0),
    }
}

#[test]
fn plan_strategy_phase_has_no_check_explore_bias() {
    // check_explore fires when (who*25 + frame + 12) % 200 == 0, i.e. frame 188 for
    // slot 0. plan_strategy has no such bias, so 188 is emphatically not its phase.
    assert_eq!(plan_phase(0, env(188)), Some(188));
    assert_eq!(plan_phase(0, env(200)), Some(0));
    assert_eq!(plan_phase(2, env(150)), Some(0));
}

#[test]
fn a_zero_ai_speed_is_a_missing_fact_not_a_period() {
    let mut st = ProductionState::default();
    let trace = plan_strategy(
        &mut st,
        0,
        0,
        AiEnv {
            ai_speed: 0,
            frame: 7,
            ..env(7)
        },
    );
    assert_eq!(trace.phase, None);
    assert_eq!(trace.arm, PlanArm::MissingPeriod { ai_speed: 0 });
    assert!(trace.charges());
}

#[test]
fn the_sub_phase_arm_reaches_nothing_and_is_not_charged() {
    let mut st = ProductionState::default();
    let before = st;
    let trace = plan_strategy(&mut st, 0, 0, env(7));
    assert_eq!(trace.arm, PlanArm::NotDue { phase: 7 });
    assert!(!trace.charges());
    assert_eq!(st, before, "the idle arm leaves the leader untouched");
}

#[test]
fn one_leader_takes_the_planning_body_once_per_two_hundred_frames() {
    let mut charged = 0;
    let mut body = 0;
    let mut fast_lane = 0;
    for frame in 1..=200 {
        let mut st = ProductionState::default();
        let trace = plan_strategy(&mut st, 0, 0, env(frame));
        if trace.charges() {
            charged += 1;
        }
        match trace.arm {
            PlanArm::PlanningBody { .. } => body += 1,
            PlanArm::MissingMakeList => fast_lane += 1,
            _ => {}
        }
    }
    assert_eq!(body, 1, "phase == 0 exactly once per period");
    assert_eq!(fast_lane, 6, "phase in {{30,60,90,120,150,180}}");
    assert_eq!(charged, 7);
}

#[test]
fn the_tech_window_is_the_unsigned_compare_at_0x006b96a6() {
    let mut st = ProductionState::default();
    st.make_list_head = Some(0x21f);
    let trace = plan_strategy(&mut st, 0, 0, env(30));
    assert_eq!(trace.arm, PlanArm::TechQueueHeadRejected { head: 0x21f });
    assert!(!trace.charges());

    st.make_list_head = Some(0x274);
    let trace = plan_strategy(&mut st, 0, 0, env(30));
    assert_eq!(
        trace.arm,
        PlanArm::TechQueueReached {
            head: 0x274,
            first_call_va: va::CAN_PAY
        }
    );
    assert!(trace.charges());

    st.make_list_head = Some(0x275);
    let trace = plan_strategy(&mut st, 0, 0, env(30));
    assert_eq!(trace.arm, PlanArm::TechQueueHeadRejected { head: 0x275 });

    // The `lea`/`ja` pair is unsigned, so a negative head is far above the window.
    st.make_list_head = Some(-1);
    let trace = plan_strategy(&mut st, 0, 0, env(30));
    assert_eq!(trace.arm, PlanArm::TechQueueHeadRejected { head: -1 });
}

#[test]
fn a_running_cycle_ignores_the_phase_entirely() {
    let mut st = ProductionState::default();
    st.production_step = 2;
    st.queued_units = Some(4);
    st.control = 10;
    // frame 7 is a sub-phase miss; the production arm must run anyway.
    let trace = plan_strategy(&mut st, 0, 0, env(7));
    assert_eq!(trace.phase, Some(7));
    let PlanArm::ProductionAi(production) = trace.arm else {
        panic!("a non-zero production_step must delegate");
    };
    assert_eq!(production.gate, ProductionGate::Entered);
    assert_eq!(production.step_before, 2);
    assert_eq!(production.step_after, 3);
    assert_eq!(production.effective_pop, Some(15));
    assert_eq!(st.effective_pop, 15);
    assert_eq!(
        production.stages,
        vec![Stage::ProductionAiSetup, Stage::MakeListClear]
    );
    assert!(production.stalls.is_empty());
}

#[test]
fn every_refusal_resets_the_step_and_reaches_nothing() {
    for (flags, flags2_bits, ai_off, expect) in [
        (flags::HUMAN, 0, false, ProductionGate::Human),
        (0, 0, true, ProductionGate::AiOff),
        (
            0,
            flags2::PRODUCTION_AI_DISABLED,
            false,
            ProductionGate::ProductionAiDisabled,
        ),
    ] {
        let mut st = ProductionState {
            production_step: 5,
            flags2: flags2_bits,
            queued_units: Some(3),
            ..ProductionState::default()
        };
        let trace = production_ai(
            &mut st,
            flags,
            0,
            AiEnv {
                ai_off,
                ..env(1)
            },
        );
        assert_eq!(trace.gate, expect);
        assert_eq!(st.production_step, 0, "0x006C1B96 resets the counter");
        assert!(trace.stages.is_empty());
        assert!(!trace.charges());
        assert_eq!(st.effective_pop, 0, "effective_pop is untouched on refusal");
    }
}

#[test]
fn a_human_with_the_companion_bit_still_runs_the_cycle() {
    let mut st = ProductionState {
        production_step: 2,
        queued_units: Some(0),
        ..ProductionState::default()
    };
    let trace = production_ai(
        &mut st,
        flags::HUMAN | flags::PRODUCTION_DESPITE_HUMAN,
        0,
        env(1),
    );
    assert_eq!(trace.gate, ProductionGate::Entered);
    assert_eq!(st.production_step, 3);
}

#[test]
fn a_step_outside_the_jump_table_resets_to_zero() {
    for step in [-3, 12, 99] {
        let mut st = ProductionState {
            production_step: step,
            queued_units: Some(1),
            ..ProductionState::default()
        };
        let trace = production_ai(&mut st, 0, 0, env(1));
        assert_eq!(trace.gate, ProductionGate::StepOutsideTable { step });
        assert_eq!(st.production_step, 0);
        assert!(!trace.charges());
    }
}

#[test]
fn step_one_is_skipped_when_the_script_is_already_retired() {
    let mut st = ProductionState {
        production_step: 1,
        prod_script_run: 0,
        queued_units: Some(0),
        ..ProductionState::default()
    };
    let trace = production_ai(&mut st, 0, 0, env(1));
    assert_eq!(st.production_step, 3, "1 -> 2 pre-check, then the step-2 arm");
    assert!(trace.stages.contains(&Stage::ProductionAiSetup));
}

#[test]
fn infinite_resources_skips_the_script_and_arms_the_shared_tail() {
    let mut st = ProductionState {
        production_step: 1,
        prod_script_run: 1,
        queued_units: Some(0),
        ..ProductionState::default()
    };
    let infinite = AiEnv {
        starting_resources: Some(INFINITE_RESOURCES),
        ..env(1)
    };
    let trace = production_ai(&mut st, 0, 0, infinite);
    assert_eq!(st.production_step, 3);
    assert!(trace.stages.contains(&Stage::ProductionAiSetup));

    // Step 3's arm then also runs make_stuff + MakeList::clear.
    let trace = production_ai(&mut st, 0, 0, infinite);
    assert_eq!(st.production_step, 4);
    assert_eq!(
        trace.stages,
        vec![Stage::FoundCities, Stage::MakeStuff, Stage::MakeListClear]
    );
}

#[test]
fn a_blocking_script_resets_the_cycle_and_script_done_retires_it() {
    let mut st = ProductionState {
        production_step: 1,
        prod_script_run: 1,
        queued_units: Some(0),
        script_result: Some(SCRIPT_BLOCK_ON_THIS),
        ..ProductionState::default()
    };
    production_ai(&mut st, 0, 0, env(1));
    assert_eq!(st.production_step, 0, "BLOCK_ON_THIS starves stages 2..11");
    assert_eq!(st.prod_script_run, 1, "and does not retire the script");

    st.production_step = 1;
    st.script_result = Some(SCRIPT_DONE);
    production_ai(&mut st, 0, 0, env(1));
    assert_eq!(st.production_step, 2);
    assert_eq!(st.prod_script_run, 0, "the one-way latch");
}

#[test]
fn an_unanswered_script_stalls_at_step_one_without_guessing() {
    let mut st = ProductionState {
        production_step: 1,
        prod_script_run: 1,
        queued_units: Some(0),
        ..ProductionState::default()
    };
    let trace = production_ai(&mut st, 0, 0, env(1));
    assert_eq!(st.production_step, 1, "the arm did not advance");
    assert_eq!(
        trace.stalls,
        vec![Stall::ScriptResult {
            at_va: va::GET_RET_INT
        }]
    );
    assert!(trace.charges());
}

#[test]
fn step_eight_ends_the_cycle_only_when_make_stuff_found_nothing() {
    let mut st = ProductionState {
        production_step: 8,
        queued_units: Some(0),
        make_stuff_result: Some(0),
        ..ProductionState::default()
    };
    production_ai(&mut st, 0, 0, env(1));
    assert_eq!(st.production_step, 0, "cycle ends at eight");

    st.production_step = 8;
    st.make_stuff_result = Some(1);
    production_ai(&mut st, 0, 0, env(1));
    assert_eq!(st.production_step, 9, "work remained, so 9..11 get a turn");
}

#[test]
fn the_whole_twelve_stage_cycle_walks_two_through_eleven() {
    let mut st = ProductionState {
        production_step: 2,
        queued_units: Some(0),
        make_stuff_result: Some(1),
        ..ProductionState::default()
    };
    let mut seen = Vec::new();
    for _ in 0..10 {
        if st.production_step == 0 {
            break;
        }
        let trace = production_ai(&mut st, 0, 0, env(1));
        assert_eq!(trace.gate, ProductionGate::Entered);
        seen.extend(trace.stages.iter().copied());
    }
    assert_eq!(st.production_step, 0, "step 11 ends the cycle");
    assert_eq!(
        seen,
        vec![
            Stage::ProductionAiSetup,
            Stage::MakeListClear,
            Stage::FoundCities,
            Stage::ResearchTechs,
            Stage::UpgradeUnits,
            Stage::CreateUnits,
            Stage::CreateBuildings,
            Stage::MakeStuff,
            Stage::CreateUnits,
            Stage::CreateBuildings,
            Stage::MakeStuff,
        ],
        "steps 6 and 9 are the same arm, and so are 7 and 10"
    );
}

#[test]
fn an_unanswered_starting_resources_stalls_instead_of_choosing_a_branch() {
    let mut st = ProductionState {
        production_step: 3,
        queued_units: Some(0),
        ..ProductionState::default()
    };
    let trace = production_ai(
        &mut st,
        0,
        0,
        AiEnv {
            starting_resources: None,
            ..env(1)
        },
    );
    assert_eq!(
        trace.stalls,
        vec![Stall::StartingResources { at_va: 0x006c_1ae9 }]
    );
    assert!(trace.charges());
    assert_eq!(st.production_step, 4, "the arm's own store still happened");
}

#[test]
fn an_absent_queued_units_answer_leaves_effective_pop_alone() {
    let mut st = ProductionState {
        production_step: 2,
        control: 9,
        effective_pop: 1234,
        ..ProductionState::default()
    };
    let trace = production_ai(&mut st, 0, 0, env(1));
    assert_eq!(trace.effective_pop, None);
    assert_eq!(st.effective_pop, 1234, "no invented population");
    assert_eq!(
        trace.stalls,
        vec![Stall::QueuedUnits {
            at_va: va::QUEUED_UNITS
        }]
    );
}

#[test]
fn stage_names_are_the_retail_callees() {
    assert_eq!(Stage::RunProductionScript { script_step: 1, pers_arg: None, who_plus_one: 1 }.name(), "RunTimeEnv::run_script");
    assert_eq!(Stage::MakeListClear.name(), "MakeList::clear");
    assert_eq!(Stage::MakeStuff.name(), "Leader::make_stuff");
}
