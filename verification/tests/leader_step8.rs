use don_sim::leaders::{
    flag, step8_close, step8_open, step8_take_stat_edges, GraceTimer, Leaders, Step8Rules,
    TauntDispatch,
};

/// Run the leader-local step-8 decisions of leader `i` for `frames` frames from `start`.
fn run_close(ls: &mut Leaders, i: usize, start: i32, frames: i32, rules: &Step8Rules) -> (u32, Vec<TauntDispatch>) {
    let mut crept = 0u32;
    let mut taunts = Vec::new();
    for frame in start..start + frames {
        if step8_open(ls, i).is_some() {
            let (c, t) = step8_close(&mut ls.leaders[i], i, frame, rules);
            crept += c as u32;
            taunts.extend(t);
        }
    }
    (crept, taunts)
}

#[test]
fn step8_outer_gate_is_bit_1_and_inner_gate_is_bit_0() {
    let mut ls = Leaders::new();
    ls.leaders[0].flags |= flag::IN_GAME;
    ls.leaders[1].flags |= flag::PROCESS;
    assert_eq!(step8_open(&mut ls, 0), None);
    assert_eq!(step8_open(&mut ls, 1), Some(false));
}

#[test]
fn step8_hostile_bit_is_cleared_before_it_is_recomputed() {
    let mut ls = Leaders::new();
    ls.leaders[0].activate();
    ls.leaders[1].activate();
    ls.leaders[1].flags |= flag::COUNTS_AS_HOSTILE;
    assert_eq!(step8_open(&mut ls, 0), Some(true));
    assert_ne!(ls.leaders[0].flags & flag::HOSTILE_SEEN, 0);

    ls.leaders[1].flags &= !flag::COUNTS_AS_HOSTILE;
    assert_eq!(step8_open(&mut ls, 0), Some(false));
    assert_eq!(ls.leaders[0].flags & flag::HOSTILE_SEEN, 0);
}

#[test]
fn step8_pop_issues_and_the_9f4_counter_are_zeroed_every_frame() {
    let mut ls = Leaders::new();
    ls.leaders[0].activate();
    ls.leaders[0].pop_issues = 77;
    ls.leaders[0].frame_counter_b = -3;
    ls.leaders[1].pop_issues = 77;
    step8_open(&mut ls, 0);
    step8_open(&mut ls, 1);
    assert_eq!(ls.leaders[0].pop_issues, 0);
    assert_eq!(ls.leaders[0].frame_counter_b, 0);
    assert_eq!(ls.leaders[1].pop_issues, 77);
}

#[test]
fn step8_pending_bit_is_cleared_at_the_tail() {
    let mut ls = Leaders::new();
    let rules = Step8Rules::shipped();
    ls.leaders[0].activate();
    ls.leaders[0].flags |= flag::PENDING;
    ls.leaders[1].flags |= flag::PENDING;
    run_close(&mut ls, 0, 1, 1, &rules);
    run_close(&mut ls, 1, 1, 1, &rules);
    assert_eq!(ls.leaders[0].flags & flag::PENDING, 0);
    assert_ne!(ls.leaders[1].flags & flag::PENDING, 0);
}

#[test]
fn step8_externally_set_dirty_bits_are_consumed_once() {
    let mut ls = Leaders::new();
    ls.leaders[0].activate();
    ls.leaders[0].flags |= flag::STATS_DIRTY;
    assert_eq!(step8_take_stat_edges(&mut ls.leaders[0]), (true, true));
    assert_eq!(ls.leaders[0].flags & flag::STATS_DIRTY, 0);
    assert_eq!(step8_take_stat_edges(&mut ls.leaders[0]), (false, false));
    ls.leaders[0].flags |= flag::WALL_STATS_DIRTY;
    assert_eq!(step8_take_stat_edges(&mut ls.leaders[0]), (true, false));
    assert_ne!(ls.leaders[0].flags & flag::PROCESS, 0, "other bits stay");
}

#[test]
fn step8_grace_timers_creep_only_on_the_refresh_beat() {
    let rules = Step8Rules::shipped();
    let mut ls = Leaders::new();
    ls.leaders[0].activate();
    ls.leaders[0].timers[0] = GraceTimer { value: -10, frozen: 0 };
    ls.leaders[0].timers[1] = GraceTimer { value: -10, frozen: 1 };
    ls.leaders[0].timers[2] = GraceTimer { value: 4, frozen: 0 };

    // Ten frames at ratio 5: frames 0 and 5 are on the beat.
    let (crept, _) = run_close(&mut ls, 0, 0, 10, &rules);
    assert_eq!(ls.leaders[0].timers[0].value, -8);
    assert_eq!(ls.leaders[0].timers[1].value, -10, "frozen");
    assert_eq!(ls.leaders[0].timers[2].value, 4, "non-negative");
    assert_eq!(crept, 2);

    let mut rules = Step8Rules::shipped();
    rules.timer_refresh_ratio = 0;
    let mut ls = Leaders::new();
    ls.leaders[0].activate();
    ls.leaders[0].timers[0] = GraceTimer { value: -10, frozen: 0 };
    let (crept, _) = run_close(&mut ls, 0, 0, 100, &rules);
    assert_eq!(ls.leaders[0].timers[0].value, -10);
    assert_eq!(crept, 0);
}

#[test]
fn step8_grace_timer_stops_at_zero() {
    let rules = Step8Rules::shipped();
    let mut ls = Leaders::new();
    ls.leaders[0].activate();
    ls.leaders[0].timers[0] = GraceTimer { value: -2, frozen: 0 };
    run_close(&mut ls, 0, 0, 600, &rules);
    assert_eq!(ls.leaders[0].timers[0].value, 0);
}

#[test]
fn step8_taunt_scan_skips_frame_zero_and_fires_on_the_stamp() {
    let rules = Step8Rules::shipped();
    let mut ls = Leaders::new();
    ls.leaders[0].activate();
    let (_, t) = run_close(&mut ls, 0, 0, 1, &rules);
    assert!(t.is_empty());

    ls.leaders[0].taunt_frame[2] = 4;
    ls.leaders[0].taunt_kind[2] = 11;
    ls.leaders[0].taunt_arg[2] = 22;
    let (_, fired) = run_close(&mut ls, 0, 1, 10, &rules);
    assert_eq!(fired.len(), 1);
    assert_eq!(
        fired[0],
        TauntDispatch {
            slot: 0,
            kind: 11,
            arg: 22,
            entry: 2
        }
    );
}

#[test]
fn step8_every_taunt_entry_is_scanned() {
    let rules = Step8Rules::shipped();
    let mut ls = Leaders::new();
    ls.leaders[0].activate();
    for k in 0..8 {
        ls.leaders[0].taunt_frame[k] = 3;
        ls.leaders[0].taunt_kind[k] = k as i32;
    }
    let (_, t) = run_close(&mut ls, 0, 3, 1, &rules);
    assert_eq!(t.len(), 8);
    for (k, td) in t.iter().enumerate() {
        assert_eq!(td.entry, k);
        assert_eq!(td.kind, k as i32);
    }
}
