use don_sim::leaders_end_process_step17::{
    execute_step17, HostTail, LeaderOutcome as Outcome17, LeaderSlot as Slot17, LocalMutation,
    OpenResidual as Residual17, PlayerRecord, ProductFacts as Facts17, Step17State,
    LEADERS_BASE_VA, LEADER_STRIDE, SHIPPED_POP_LIMITS,
};
use don_sim::leaders_process_event_frame_step19::{
    execute_step19, mood, BattleEventKind, EventQueueState, HostTail as Tail19,
    LeaderOutcome as Outcome19, LeaderSlot as Slot19, MusicState, OpenResidual as Residual19,
    ProductFacts as Facts19, ProductRead, Step19State, AGES_XOR_KEY, BATTLE_RATE_SENTINEL,
};

fn facts17(frame: i32, console_who: i32, console_play: i32, index: u8) -> Facts17<'static> {
    Facts17 {
        frame,
        console_who,
        console_play,
        pop_limit_index: index,
        population_limits: &SHIPPED_POP_LIMITS,
    }
}

#[test]
fn step17_gated_leaders_file_nothing() {
    let mut state = Step17State::default();
    let before = state.clone();
    let trace = execute_step17(&mut state, facts17(1000, 0, 0, 0));
    assert_eq!(state, before);
    assert_eq!(trace.total_sequenced_effects, 0);
    for (i, visit) in trace.visits.iter().enumerate() {
        assert_eq!(visit.leader_index, i);
        assert_eq!(visit.leader_va, LEADERS_BASE_VA + i as u32 * LEADER_STRIDE);
        assert_eq!(visit.outcome, Outcome17::ProcessFlagClear);
    }
}

#[test]
fn step17_zero_issue_scan_stores_even_a_clear_bit() {
    let mut state = Step17State::default();
    state.leaders[0] = Slot17 { flags: 2, who: 3, pop_cap: 0, pop_issues: 0 };
    state.players[1] = PlayerRecord { pop_cap_frame: 0, flags: 0x0801, who: 3 };
    state.players[2] = PlayerRecord { pop_cap_frame: 0, flags: 0x0001, who: 3 };
    state.players[4] = PlayerRecord { pop_cap_frame: 0, flags: 0x0800, who: 3 };
    let trace = execute_step17(&mut state, facts17(0, -1, -1, 0));
    assert_eq!(state.players[1].flags, 0x0001);
    assert_eq!(state.players[2].flags, 0x0001);
    // Not valid: untouched.
    assert_eq!(state.players[4].flags, 0x0800);
    assert_eq!(trace.visits[0].outcome, Outcome17::WarningScan { stores: 2 });
    assert_eq!(trace.local_mutations.len(), 2);
    assert_eq!(trace.local_mutations[0].sequence, 0);
    assert_eq!(
        trace.local_mutations[1].mutation,
        LocalMutation::PlayerFlags { leader_index: 0, player_index: 2, before: 1, after: 1 }
    );
    assert_eq!(trace.total_sequenced_effects, 2);
}

#[test]
fn step17_due_local_leader_stamps_reads_then_reaches_the_tail() {
    let mut state = Step17State::default();
    state.leaders[1] = Slot17 { flags: 2, who: 5, pop_cap: 60, pop_issues: 3 };
    state.players[2].pop_cap_frame = 100;
    let trace = execute_step17(&mut state, facts17(1000, 5, 2, 1));
    assert_eq!(state.players[2].pop_cap_frame, 1000);
    assert_eq!(trace.visits[1].outcome, Outcome17::PresentationTailReached { limit: 75 });
    assert_eq!(trace.local_mutations[0].sequence, 0);
    assert_eq!(trace.product_reads[0].sequence, 1);
    assert_eq!(trace.product_reads[0].value, 75);
    let sequences: Vec<u16> = trace.host_tails.iter().map(|t| t.sequence).collect();
    assert_eq!(sequences, vec![2, 3, 4]);
    assert!(matches!(
        trace.host_tails[1].host_tail,
        HostTail::MessageWinAddFeedback { duration: -1, .. }
    ));
    assert_eq!(trace.total_sequenced_effects, 5);
}

#[test]
fn step17_rate_limit_uses_wrapping_elapsed_frames() {
    let mut state = Step17State::default();
    state.leaders[0] = Slot17 { flags: 2, who: 0, pop_cap: 0, pop_issues: 1 };
    state.players[0].pop_cap_frame = 100;
    let trace = execute_step17(&mut state, facts17(549, 0, 0, 0));
    assert_eq!(trace.visits[0].outcome, Outcome17::FeedbackRateLimited { elapsed: 449 });
    assert_eq!(state.players[0].pop_cap_frame, 100);

    state.players[0].pop_cap_frame = i32::MAX;
    let trace = execute_step17(&mut state, facts17(i32::MIN + 10, 0, 0, 0));
    assert_eq!(trace.visits[0].outcome, Outcome17::FeedbackRateLimited { elapsed: 11 });
}

#[test]
fn step17_missing_facts_become_residuals_after_the_stamp() {
    let mut state = Step17State::default();
    state.leaders[0] = Slot17 { flags: 2, who: 0, pop_cap: 0, pop_issues: 1 };
    let trace = execute_step17(&mut state, facts17(450, 0, 9, 0));
    assert_eq!(trace.visits[0].outcome, Outcome17::LocalPlayerUnavailable);
    assert_eq!(trace.residuals[0].residual, Residual17::ConsolePlayOutsidePlayerArray { play: 9 });

    let trace = execute_step17(&mut state, facts17(450, 0, 0, 6));
    assert_eq!(state.players[0].pop_cap_frame, 450);
    assert_eq!(trace.visits[0].outcome, Outcome17::PopulationLimitUnavailable);
    assert_eq!(trace.local_mutations[0].sequence, 0);
    assert_eq!(trace.residuals[0].sequence, 1);
    assert_eq!(
        trace.residuals[0].residual,
        Residual17::PopulationLimitRowUnavailable { index: 6, supplied_rows: 6 }
    );
}

#[test]
fn step17_at_limit_and_non_local_leaders_stop_early() {
    let mut state = Step17State::default();
    state.leaders[0] = Slot17 { flags: 2, who: 0, pop_cap: 200, pop_issues: 1 };
    state.leaders[1] = Slot17 { flags: 2, who: 1, pop_cap: 0, pop_issues: 1 };
    let trace = execute_step17(&mut state, facts17(1000, 0, 0, 5));
    assert_eq!(trace.visits[0].outcome, Outcome17::AtOrAbovePopulationLimit { limit: 200 });
    assert_eq!(trace.visits[1].outcome, Outcome17::NonLocalPopulationIssue);
    assert!(trace.host_tails.is_empty());
}

fn in_game(who: i32) -> Slot19 {
    Slot19 { flags: 1, who, diplos: [0; 8], event_queue: EventQueueState::default() }
}

#[test]
fn step19_off_period_frames_are_not_due() {
    let mut state = Step19State::default();
    state.leaders[0] = in_game(0);
    let trace = execute_step19(&mut state, Facts19 { frame: 51, ..Facts19::default() });
    assert_eq!(trace.visits[0].outcome, Outcome19::FrameNotDue);
    assert_eq!(trace.visits[1].outcome, Outcome19::InGameFlagClear);
    assert_eq!(trace.total_sequenced_effects, 0);
    // A negative multiple of 50 is due.
    let trace = execute_step19(&mut state, Facts19 { frame: -100, ..Facts19::default() });
    assert!(matches!(trace.visits[0].outcome, Outcome19::Due { .. }));
}

#[test]
fn step19_fold_scales_averages_and_clears_current_counters() {
    let mut state = Step19State::default();
    let mut slot = in_game(0);
    slot.event_queue.kills_current_frame = 2;
    slot.event_queue.average_kill_rate = 100;
    slot.event_queue.average_death_rate = 80;
    slot.event_queue.kills_fifteen_seconds = 7;
    state.leaders[0] = slot;
    let trace = execute_step19(&mut state, Facts19::default());
    let q = state.leaders[0].event_queue;
    // (200 + 100) / 2 and 80 * 7 / 8.
    assert_eq!(q.average_kill_rate, 150);
    assert_eq!(q.average_death_rate, 70);
    assert_eq!(q.kills_fifteen_seconds, 9);
    assert_eq!(q.current_events(), [0, 0, 0, 0]);
    // No age was supplied: one residual, and no battle event.
    assert_eq!(
        trace.visits[0].outcome,
        Outcome19::Due { requested_mood: None, battle_event: None, residuals: 1 }
    );
    assert_eq!(trace.residuals[0].residual, Residual19::EncryptedAgeUnavailable { who_index: 0 });
    assert_eq!(trace.local_mutations.len(), 2);
    assert_eq!(trace.local_mutations[1].sequence, 2);
}

#[test]
fn step19_lopsided_battle_sets_sentinels_and_stamps_the_frame() {
    let mut state = Step19State::default();
    let mut slot = in_game(2);
    slot.event_queue.average_death_rate = 400;
    slot.event_queue.average_kill_rate = 0;
    state.leaders[0] = slot;
    let mut product = Facts19 { frame: 5000, ..Facts19::default() };
    product.encrypted_ages[2] = Some(AGES_XOR_KEY ^ 1);
    let trace = execute_step19(&mut state, product);
    assert_eq!(
        trace.visits[0].outcome,
        Outcome19::Due {
            requested_mood: None,
            battle_event: Some(BattleEventKind::DeathsOverKills),
            residuals: 0
        }
    );
    let q = state.leaders[0].event_queue;
    assert_eq!(q.average_death_rate, BATTLE_RATE_SENTINEL);
    assert_eq!(q.average_kill_rate, BATTLE_RATE_SENTINEL);
    assert_eq!(q.frame_battle, 5000);
    assert!(matches!(
        trace.product_reads[0].read,
        ProductRead::EncryptedAge { decoded: 1, who_index: 2, .. }
    ));
    assert!(matches!(
        trace.host_tails[0].host_tail,
        Tail19::AchieveAddEvent { who: 2, kind: BattleEventKind::DeathsOverKills, .. }
    ));
    assert_eq!(BattleEventKind::DeathsOverKills.code(), 1);
}

#[test]
fn step19_quiet_console_leader_requests_the_quiet_mood() {
    let mut state = Step19State::default();
    state.leaders[0] = in_game(0);
    state.music = MusicState { current_mood: mood::WINNING, next_mood: mood::LOSING };
    let mut product = Facts19 { frame: 0, console_who: 0, ..Facts19::default() };
    product.encrypted_ages[0] = Some(AGES_XOR_KEY);
    let trace = execute_step19(&mut state, product);
    assert_eq!(state.music.next_mood, mood::QUIET);
    assert_eq!(state.music.current_mood, mood::WINNING);
    assert!(matches!(
        trace.host_tails[0].host_tail,
        Tail19::JukeBoxSetNextMood { requested_mood: 2, force: true, .. }
    ));
    assert!(matches!(
        trace.visits[0].outcome,
        Outcome19::Due { requested_mood: Some(2), residuals: 0, .. }
    ));
}
