use don_sim::leaders::{
    combat_mood, end_process_all, flag, process_event_frames, BattleAchievementEvent,
    BattleAchievementKind, CombatMoodRequest, EndPlayer, EndProcessMissingFact,
    EventFrameInputs, EventFrameMissingFact, EventFrameState, Leaders, PopulationCapFeedback,
    PopulationCapStamp, PopulationWarningClear, BATTLE_RATE_SENTINEL, DIPLO_ALLIED,
    PLAYER_POP_CAP_WARNING, PLAYER_VALID,
};

#[test]
fn end_process_player_sync_preserves_warning_state_and_refreshes_identity() {
    let mut ls = Leaders::new();
    ls.leaders[0].slot = 7;
    ls.leaders[0].flags = flag::IN_GAME;
    ls.end.players[0].flags = PLAYER_POP_CAP_WARNING | 0x4000;
    ls.end.players[0].pop_cap_frame = 123;
    ls.end.players[1].flags = PLAYER_VALID | PLAYER_POP_CAP_WARNING;

    ls.sync_end_players_from_leaders();

    assert_eq!(ls.end.players[0].who, 7);
    assert_eq!(
        ls.end.players[0].flags,
        PLAYER_VALID | PLAYER_POP_CAP_WARNING | 0x4000
    );
    assert_eq!(ls.end.players[0].pop_cap_frame, 123);
    assert_eq!(
        ls.end.players[1].flags, PLAYER_POP_CAP_WARNING,
        "an inactive leader clears only Player::VALID"
    );
}

#[test]
fn end_process_zero_issues_clears_only_valid_matching_players() {
    let mut ls = Leaders::new();
    ls.leaders[0].flags = flag::IN_GAME;
    ls.leaders[0].slot = 5;
    ls.leaders[2].flags = flag::PROCESS;
    ls.leaders[2].slot = 5;
    ls.end.players[1] = EndPlayer {
        flags: PLAYER_VALID | PLAYER_POP_CAP_WARNING | 0x4000,
        who: 5,
        pop_cap_frame: 0,
    };
    ls.end.players[3] = EndPlayer {
        flags: PLAYER_POP_CAP_WARNING,
        who: 5,
        pop_cap_frame: 0,
    };
    ls.end.players[4] = EndPlayer {
        flags: PLAYER_VALID | PLAYER_POP_CAP_WARNING,
        who: 6,
        pop_cap_frame: 0,
    };

    let trace = end_process_all(&mut ls, 77);

    assert_eq!(trace.leaders_processed(), 1);
    assert!(!trace.processed[0], "IN_GAME alone is not the outer gate");
    assert_eq!(
        trace.warning_clears,
        vec![PopulationWarningClear {
            leader_index: 2,
            leader_who: 5,
            player_index: 1,
        }]
    );
    assert_eq!(ls.end.players[1].flags, PLAYER_VALID | 0x4000);
    assert_eq!(ls.end.players[3].flags, PLAYER_POP_CAP_WARNING);
    assert_eq!(
        ls.end.players[4].flags,
        PLAYER_VALID | PLAYER_POP_CAP_WARNING
    );
}

#[test]
fn end_process_feedback_boundary_is_exactly_450_frames() {
    let mut ls = Leaders::new();
    ls.leaders[3].flags = flag::PROCESS;
    ls.leaders[3].slot = 3;
    ls.leaders[3].pop_issues = 1;
    ls.leaders[3].pop_cap = 99;
    ls.end.local_who = 3;
    ls.end.local_play = 2;
    ls.end.pop_limit_index = 2; // 100

    let early = end_process_all(&mut ls, 449);
    assert!(early.stamp_writes.is_empty());
    assert!(early.feedback.is_empty());
    assert_eq!(ls.end.players[2].pop_cap_frame, 0);

    let due = end_process_all(&mut ls, 450);
    assert_eq!(
        due.stamp_writes,
        vec![PopulationCapStamp {
            leader_index: 3,
            player_index: 2,
            frame: 450,
        }]
    );
    let event = PopulationCapFeedback {
        leader_index: 3,
        leader_who: 3,
        player_index: 2,
        text_offset: 0xC878,
        sound_category: 0x5B,
    };
    assert_eq!(due.feedback, vec![event]);
    assert_eq!(ls.end.last_feedback, vec![event]);
    assert_eq!(ls.end.players[2].pop_cap_frame, 450);
}

#[test]
fn end_process_at_cap_stamps_without_emitting_feedback() {
    let mut ls = Leaders::new();
    ls.leaders[1].flags = flag::PROCESS;
    ls.leaders[1].slot = 6;
    ls.leaders[1].pop_issues = 4;
    ls.leaders[1].pop_cap = 150;
    ls.end.local_who = 6;
    ls.end.local_play = 6;
    ls.end.pop_limit_index = 4; // 150

    let trace = end_process_all(&mut ls, 450);
    assert_eq!(trace.stamp_writes.len(), 1);
    assert!(trace.feedback.is_empty());
    assert_eq!(ls.end.players[6].pop_cap_frame, 450);
}

#[test]
fn end_process_missing_facts_fail_closed_and_feedback_never_replays() {
    let mut ls = Leaders::new();
    ls.leaders[4].flags = flag::PROCESS;
    ls.leaders[4].slot = 4;
    ls.leaders[4].pop_issues = 1;
    ls.leaders[4].pop_cap = 10;
    ls.end.local_who = 4;
    ls.end.local_play = 9;

    let missing_player = end_process_all(&mut ls, 450);
    assert_eq!(
        missing_player.missing_facts,
        vec![EndProcessMissingFact::LocalPlayerIndex(9)]
    );
    assert!(missing_player.stamp_writes.is_empty());

    ls.end.local_play = 4;
    ls.end.pop_limit_index = 99;
    let missing_limit = end_process_all(&mut ls, 450);
    assert_eq!(
        missing_limit.missing_facts,
        vec![EndProcessMissingFact::PopulationLimitIndex(99)]
    );
    assert_eq!(missing_limit.stamp_writes.len(), 1);
    assert!(missing_limit.feedback.is_empty());

    ls.end.pop_limit_index = 0;
    let fresh = end_process_all(&mut ls, 900);
    assert_eq!(fresh.feedback.len(), 1);
    assert_eq!(ls.end.last_feedback.len(), 1);

    let not_due = end_process_all(&mut ls, 901);
    assert!(not_due.feedback.is_empty());
    assert!(ls.end.last_feedback.is_empty(), "no stale event may replay");
}

#[test]
fn end_process_nonlocal_failure_is_silent() {
    let mut ls = Leaders::new();
    ls.leaders[5].flags = flag::PROCESS;
    ls.leaders[5].slot = 5;
    ls.leaders[5].pop_issues = 1;
    ls.end.local_who = 2;
    ls.end.local_play = -1;

    let trace = end_process_all(&mut ls, 10_000);
    assert!(trace.stamp_writes.is_empty());
    assert!(trace.feedback.is_empty());
    assert!(trace.missing_facts.is_empty());
}

#[test]
fn end_process_rate_limit_elapsed_wraps() {
    // The elapsed time is a wrapping difference: a stamp far in the "future" reads as a
    // large negative gap and is not due.
    let mut ls = Leaders::new();
    ls.leaders[0].flags = flag::PROCESS;
    ls.leaders[0].pop_issues = 1;
    ls.end.local_who = 0;
    ls.end.local_play = 0;
    ls.end.pop_limit_index = 5;
    ls.end.players[0].pop_cap_frame = 1_000;
    assert!(end_process_all(&mut ls, 10).stamp_writes.is_empty());
    ls.end.players[0].pop_cap_frame = i32::MAX;
    let t = end_process_all(&mut ls, i32::MIN + 449);
    assert_eq!(t.stamp_writes.len(), 1);
    assert_eq!(t.feedback.len(), 1);
}

fn event_input(frame: i32) -> EventFrameInputs {
    EventFrameInputs {
        frame,
        age_by_who: [Some(0); 8],
        team_scores: [Some(0); 8],
    }
}

#[test]
fn event_dispatch_gate_and_non_due_return_are_exact() {
    let mut ls = Leaders::new();
    ls.leaders[0].flags = flag::PROCESS;
    ls.leaders[1].flags = flag::IN_GAME;
    ls.leaders[1].event_frame.deaths_current_frame = 7;

    let trace = process_event_frames(&mut ls, event_input(49));

    assert!(!trace.dispatched[0]);
    assert!(trace.dispatched[1]);
    assert_eq!(trace.leaders_dispatched(), 1);
    assert_eq!(trace.leaders_due(), 0);
    assert_eq!(ls.leaders[1].event_frame.deaths_current_frame, 7);
}

#[test]
fn event_rates_fold_wrap_accumulate_and_reset_in_retail_order() {
    let mut ls = Leaders::new();
    ls.leaders[0].flags = flag::IN_GAME;
    ls.leaders[0].event_frame = EventFrameState {
        average_death_rate: 80,
        average_kill_rate: 10,
        average_hit_rate: 60_000,
        average_damage_rate: 5,
        deaths_current_frame: 0,
        kills_current_frame: 2,
        hits_current_frame: 1_000,
        damage_current_frame: 656, // 65,600 wraps to 64 before averaging
        deaths_fifteen_seconds: u16::MAX,
        kills_fifteen_seconds: u16::MAX,
        hits_fifteen_seconds: u16::MAX,
        damage_fifteen_seconds: u16::MAX,
        ..EventFrameState::default()
    };

    let mut input = event_input(50);
    input.age_by_who[0] = Some(7);
    let trace = process_event_frames(&mut ls, input);
    let event = ls.leaders[0].event_frame;

    assert!(trace.due[0]);
    assert_eq!(event.average_death_rate, 70, "zero current decays 7/8");
    assert_eq!(event.average_kill_rate, 105, "(2*100 + 10)/2");
    assert_eq!(event.average_hit_rate, 47_232);
    assert_eq!(event.average_damage_rate, 34, "(64 + 5)/2");
    assert_eq!(event.deaths_fifteen_seconds, u16::MAX);
    assert_eq!(event.kills_fifteen_seconds, 1);
    assert_eq!(event.hits_fifteen_seconds, 999);
    assert_eq!(event.damage_fifteen_seconds, 655);
    assert_eq!(event.deaths_current_frame, 0);
    assert_eq!(event.kills_current_frame, 0);
    assert_eq!(event.hits_current_frame, 0);
    assert_eq!(event.damage_current_frame, 0);
}

#[test]
fn event_music_quiet_and_dead_band_boundaries_are_pinned() {
    let mut ls = Leaders::new();
    ls.leaders[0].flags = flag::IN_GAME;
    ls.end.local_who = 0;
    ls.event.current_music_mood = combat_mood::WINNING;

    let quiet = process_event_frames(&mut ls, event_input(0));
    assert_eq!(ls.event.next_music_mood, combat_mood::QUIET);
    assert_eq!(
        quiet.mood_requests,
        vec![CombatMoodRequest {
            leader_index: 0,
            mood: combat_mood::QUIET,
            force: true,
        }]
    );

    ls.leaders[0].event_frame.hits_current_frame = 2;
    ls.leaders[0].event_frame.damage_current_frame = 4;
    ls.event.next_music_mood = 91;
    let dead_band = process_event_frames(&mut ls, event_input(50));
    assert!(dead_band.mood_requests.is_empty());
    assert_eq!(ls.event.next_music_mood, 91);
    assert!(ls.event.last_mood_requests.is_empty());
}

#[test]
fn event_music_uses_hostile_team_score_bias_and_sequential_rates() {
    let mut ls = Leaders::new();
    ls.leaders[0].flags = flag::IN_GAME;
    ls.leaders[1].flags = flag::IN_GAME;
    ls.end.local_who = 0;
    ls.event.current_music_mood = combat_mood::QUIET;
    ls.leaders[0].event_frame.average_hit_rate = 800;
    ls.leaders[0].event_frame.average_damage_rate = 686;
    ls.leaders[1].event_frame.average_hit_rate = 1;
    let mut input = event_input(50);
    input.team_scores[0] = Some(100);
    input.team_scores[1] = Some(1_000);

    let trace = process_event_frames(&mut ls, input);

    assert_eq!(
        trace.mood_requests,
        vec![CombatMoodRequest {
            leader_index: 0,
            mood: combat_mood::LOSING,
            force: false,
        }]
    );
}

#[test]
fn event_music_force_flag_starts_at_two_thousand() {
    let mut ls = Leaders::new();
    ls.leaders[0].flags = flag::IN_GAME;
    ls.end.local_who = 0;
    ls.event.current_music_mood = combat_mood::QUIET;
    ls.leaders[0].event_frame.hits_current_frame = 40;

    let trace = process_event_frames(&mut ls, event_input(50));

    assert_eq!(trace.mood_requests.len(), 1);
    assert_eq!(trace.mood_requests[0].mood, combat_mood::WINNING);
    assert!(trace.mood_requests[0].force);
}

#[test]
fn battle_achievement_kind_sentinel_and_cooldown_are_exact() {
    let mut ls = Leaders::new();
    ls.leaders[0].flags = flag::IN_GAME;
    ls.leaders[0].event_frame.average_death_rate = 200;
    ls.leaders[0].event_frame.average_kill_rate = 100;

    let first = process_event_frames(&mut ls, event_input(200));
    let expected = BattleAchievementEvent {
        leader_index: 0,
        who: 0,
        kind: BattleAchievementKind::DeathsOverKills,
    };
    assert_eq!(first.achievement_events, vec![expected]);
    assert_eq!(ls.leaders[0].event_frame.frame_battle, 200);
    assert_eq!(
        ls.leaders[0].event_frame.average_death_rate,
        BATTLE_RATE_SENTINEL
    );
    assert_eq!(
        ls.leaders[0].event_frame.average_kill_rate,
        BATTLE_RATE_SENTINEL
    );

    ls.leaders[0].event_frame.average_death_rate = 200;
    ls.leaders[0].event_frame.average_kill_rate = 100;
    let early = process_event_frames(&mut ls, event_input(1_950));
    assert!(early.achievement_events.is_empty());

    ls.leaders[0].event_frame.average_death_rate = 200;
    ls.leaders[0].event_frame.average_kill_rate = 100;
    let due = process_event_frames(&mut ls, event_input(2_000));
    assert_eq!(due.achievement_events, vec![expected]);
    assert_eq!(ls.leaders[0].event_frame.frame_battle, 2_000);
}

#[test]
fn event_missing_age_is_explicit_without_stale_replay() {
    let mut ls = Leaders::new();
    ls.leaders[0].flags = flag::IN_GAME;
    ls.leaders[0].slot = 9;
    ls.leaders[0].event_frame.deaths_current_frame = 3;
    ls.event.last_achievement_events.push(BattleAchievementEvent {
        leader_index: 7,
        who: 7,
        kind: BattleAchievementKind::KillsOverDeaths,
    });

    let trace = process_event_frames(&mut ls, event_input(50));

    assert_eq!(
        trace.missing_facts,
        vec![EventFrameMissingFact::LocalLeaderSlot(9)]
    );
    assert!(trace.achievement_events.is_empty());
    assert!(ls.event.last_achievement_events.is_empty());
    assert_eq!(ls.leaders[0].event_frame.deaths_fifteen_seconds, 3);
    assert_eq!(ls.leaders[0].event_frame.deaths_current_frame, 0);
}

#[test]
fn event_product_outbox_holds_exactly_this_calls_tails() {
    let mut ls = Leaders::new();
    ls.leaders[0].flags = flag::IN_GAME;
    ls.end.local_who = 0;
    let quiet = process_event_frames(&mut ls, event_input(0));
    assert_eq!(ls.event.product_outbox.last_calls, quiet.exact.host_tails);
    assert_eq!(ls.event.product_outbox.last_calls.len(), 1);
    let off = process_event_frames(&mut ls, event_input(1));
    assert!(off.exact.host_tails.is_empty());
    assert!(ls.event.product_outbox.last_calls.is_empty());
}

#[test]
fn hostile_scan_needs_both_directions_to_be_allied() {
    let mut ls = Leaders::new();
    ls.leaders[0].activate();
    ls.leaders[1].activate();
    ls.leaders[1].flags |= flag::COUNTS_AS_HOSTILE;

    assert!(ls.scan_hostiles(0));

    ls.leaders[0].diplo[1] = DIPLO_ALLIED;
    ls.leaders[1].diplo[0] = DIPLO_ALLIED;
    assert!(!ls.scan_hostiles(0));

    ls.leaders[0].diplo[1] = 0;
    assert!(ls.scan_hostiles(0));

    ls.leaders[0].diplo[1] = DIPLO_ALLIED;
    ls.leaders[1].flags &= !flag::COUNTS_AS_HOSTILE;
    assert!(!ls.scan_hostiles(0));
}

#[test]
fn hostile_scan_requires_the_0x20000_bit_on_the_other_leader() {
    let mut ls = Leaders::new();
    ls.leaders[0].activate();
    ls.leaders[1].activate();
    assert!(!ls.scan_hostiles(0));
}

#[test]
fn hostile_scan_of_a_slot_outside_the_array_has_no_alliance() {
    let mut ls = Leaders::new();
    ls.leaders[1].activate();
    ls.leaders[1].flags |= flag::COUNTS_AS_HOSTILE;
    ls.leaders[1].diplo = [DIPLO_ALLIED; 8];
    assert!(ls.scan_hostiles(9));
    assert!(ls.by_slot(9).is_none());
    assert_eq!(ls.by_slot(1).map(|l| l.slot), Some(1));
    assert_eq!(ls.leaders[1].diplo_toward(9), 0);
    assert_eq!(ls.leaders[1].diplo_toward(3), DIPLO_ALLIED);
}

#[test]
fn step19_receipts_number_every_effect_once_in_one_sequence() {
    let mut ls = Leaders::new();
    ls.leaders[0].flags = flag::IN_GAME;
    ls.leaders[2].flags = flag::IN_GAME;
    ls.leaders[2].slot = 9; // a missing age fact for this one
    ls.leaders[0].event_frame.average_death_rate = 200;
    ls.leaders[0].event_frame.average_kill_rate = 100;
    ls.end.local_who = 0;
    let trace = process_event_frames(&mut ls, event_input(200)).exact;
    let mut all: Vec<u16> = Vec::new();
    let lists: [Vec<u16>; 4] = [
        trace.local_mutations.iter().map(|r| r.sequence).collect(),
        trace.product_reads.iter().map(|r| r.sequence).collect(),
        trace.host_tails.iter().map(|r| r.sequence).collect(),
        trace.residuals.iter().map(|r| r.sequence).collect(),
    ];
    for list in &lists {
        assert!(list.windows(2).all(|w| w[0] < w[1]), "each list increases");
        all.extend(list);
    }
    all.sort();
    let expected: Vec<u16> = (0..trace.total_sequenced_effects).collect();
    assert_eq!(all, expected, "the lists partition one sequence");
    assert!(!trace.residuals.is_empty() && !trace.host_tails.is_empty());
}
