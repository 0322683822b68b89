use don_sim::leader_production_setup_runtime::{
    encode_income, execute_production_ai_rate_cohort, ProductionAiRateInputs,
    ProductionAiRateState,
};
use don_sim::leader_set_diplo::{
    plan_accepted_deal_resources, plan_declaration_payments, AcceptedDealResources,
    DeclarationPaymentImage,
};
use don_sim::leaders_end_process_step17::{
    execute_step17, LeaderOutcome, LeaderSlot, ProductFacts, Step17State, SHIPPED_POP_LIMITS,
};

#[test]
fn accepted_deal_clears_costs_and_refunds_an_unavailable_good() {
    let mut deal = AcceptedDealResources::default();
    for l in deal.leaders.iter_mut() {
        l.type_available = [Some(true); 6];
        l.tribute_scale_percent = Some(100);
        l.buckets = [100; 6];
    }
    deal.leaders[2].type_available[3] = Some(false);
    deal.declaration_costs[2][5][3] = 9;
    deal.declaration_costs[5][2][3] = 4;
    deal.declaration_costs[2][5][1] = 6;
    deal.declaration_costs[2][6][3] = 11;
    deal.offers[5][2][3] = 40;
    deal.leaders[5].buckets[3] = i32::MAX;
    let before = deal;
    let plan = plan_accepted_deal_resources(&deal, 2, 5).unwrap();
    for g in 0..6 {
        assert_eq!(plan.after.declaration_costs[2][5][g], 0);
        assert_eq!(plan.after.declaration_costs[5][2][g], 0);
    }
    // Good 3 is unavailable to the accepter: each party gets back only its own cost.
    assert_eq!(plan.after.leaders[2].buckets[3], 109);
    assert_eq!(plan.after.leaders[5].buckets[3], i32::MAX.wrapping_add(4));
    assert_eq!(plan.after.offers, before.offers);
    assert_eq!(plan.after.declaration_costs[2][6][3], 11);
    for i in [0, 1, 3, 4, 6, 7] {
        assert_eq!(plan.after.leaders[i], before.leaders[i]);
    }
}

#[test]
fn declaration_payments_repeat_the_floored_debit_per_good() {
    let mut image = DeclarationPaymentImage::default();
    image.type_available = [Some(true), Some(false), Some(true), Some(true), Some(true), Some(true)];
    image.costs = [Some(3), Some(50), Some(0), Some(-2), Some(0), Some(0)];
    image.authoritative_buckets = [5, 7, 8, 1, 0, 0];
    image.leader_buckets = [10, 9, 8, 1, 0, 0];
    let plan = plan_declaration_payments(&image, 3).unwrap();
    // 5 -> 2 -> 0 -> 0 and 10 -> 7 -> 4 -> 1.
    assert_eq!(plan.after.authoritative_buckets[0], 0);
    assert_eq!(plan.after.leader_buckets[0], 1);
    // Unavailable: untouched whatever its cost.
    assert_eq!(plan.after.authoritative_buckets[1], 7);
    assert_eq!(plan.after.leader_buckets[1], 9);
    // A negative cost credits: 1 -> 3 -> 5 -> 7.
    assert_eq!(plan.after.authoritative_buckets[3], 7);
    let none = plan_declaration_payments(&image, 0).unwrap();
    assert_eq!(none.after, image);
    assert!(none.steps.is_empty());
}

fn inputs_with_rates(rates: [i32; 6], available: [bool; 6]) -> ProductionAiRateInputs {
    let mut inputs = ProductionAiRateInputs::default();
    for k in 0..6 {
        inputs.encrypted_income[k] = encode_income(rates[k] * 16);
    }
    inputs.type_available = available;
    inputs
}

#[test]
fn rate_cohort_counts_shortages_and_picks_the_first_extremes() {
    let inputs = inputs_with_rates([40, 10, 10, 5, 90, 90], [true, true, true, false, true, true]);
    let mut state = ProductionAiRateState::default();
    let caps = [i32::MAX; 6];
    execute_production_ai_rate_cohort(&mut state, inputs, caps);
    // Available below 30: goods 1 and 2 (good 3 is unavailable).
    assert_eq!(state.shortages, 2);
    // Least available rate 10, first at good 1; greatest 90, first at good 4.
    assert_eq!(state.worst_good, 1);
    assert_eq!(state.best_good, 4);

    // No available good: both picks stay 0.
    let inputs = inputs_with_rates([40, 10, 10, 5, 90, 90], [false; 6]);
    let mut state = ProductionAiRateState::default();
    execute_production_ai_rate_cohort(&mut state, inputs, caps);
    assert_eq!((state.shortages, state.worst_good, state.best_good), (0, 0, 0));
}

#[test]
fn step17_second_console_leader_sees_the_first_ones_stamp() {
    let mut state = Step17State::default();
    state.leaders[0] = LeaderSlot { flags: 2, who: 4, pop_cap: 0, pop_issues: 1 };
    state.leaders[3] = LeaderSlot { flags: 2, who: 4, pop_cap: 0, pop_issues: 1 };
    state.players[1].pop_cap_frame = 0;
    let facts = ProductFacts {
        frame: 1000,
        console_who: 4,
        console_play: 1,
        pop_limit_index: 0,
        population_limits: &SHIPPED_POP_LIMITS,
    };
    let trace = execute_step17(&mut state, facts);
    assert_eq!(state.players[1].pop_cap_frame, 1000);
    assert!(matches!(trace.visits[0].outcome, LeaderOutcome::PresentationTailReached { .. }));
    // The later leader measures from the stamp the earlier one just wrote.
    assert_eq!(trace.visits[3].outcome, LeaderOutcome::FeedbackRateLimited { elapsed: 0 });
}
