//! `Leader::plan_strategy` and `Leader::production_ai` — the two functions tick step 11
//! reaches on its way into the compiled production AI.
//!
//! `plan_strategy` computes its phase `(who * 25 + frame) % (200 / ai_speed)`; a running
//! production cycle (`production_step != 0`) bypasses the phase and advances one stage per
//! call. `production_ai` is the 12-stage step machine; its eight stage bodies are named
//! boundaries recorded as [`Stage`]s, never approximated.
pub mod va;
pub mod offsets;
pub mod flags;
pub mod flags2;

use vstd::prelude::*;

verus! {

/// `mov eax, 200`, divided by `GameAccess::ai_speed`.
pub const PERIOD_BASE: i32 = 200;
/// `imul esi, dword [ebx + 8], 0x19`.
pub const SLOT_PHASE: i32 = 25;
/// The truncating signed `% 30` of the fast lane.
pub const SUB_PHASE: i32 = 30;
/// The fast lane only fires when the `MakeList` head's `TypeIndex` is in this window.
pub const TECH_TYPE_FIRST: i32 = 0x220;
/// Upper end (inclusive) of the tech window.
pub const TECH_TYPE_LAST: i32 = 0x274;
/// `LeaderData::researching(head, -1, 0, 0)` — the pushed argument triple.
pub const RESEARCHING_ARGS: (i32, i32, i32) = (-1, 0, 0);
/// The 11 arms of the `production_step` jump table.
pub const PRODUCTION_STEP_ARMS: i32 = 11;
/// `GameInfo::starting_resources` value meaning Infinite.
pub const INFINITE_RESOURCES: u8 = 8;
/// Script result that resets the whole cycle.
pub const SCRIPT_BLOCK_ON_THIS: i32 = 1;
/// Script result that retires the script for good.
pub const SCRIPT_DONE: i32 = 3;

/// The `LeaderData` slice `plan_strategy` and `production_ai` own. The `Option`s are host
/// answers; `None` means "this host does not answer", never zero.
#[derive(Clone, Copy, PartialEq, Eq, Debug, Default)]
pub struct ProductionState {
    /// `leader_flags2` — the kill switches in [`flags2`].
    pub flags2: u32,
    /// `production_step`; zero means the cycle is idle.
    pub production_step: i32,
    /// `prod_script_run`.
    pub prod_script_run: i32,
    /// `script_step`, the BHS script's own `ref int step`.
    pub script_step: i32,
    /// `control`.
    pub control: i32,
    /// `effective_pop`, written as `queued_units() + control + 1`.
    pub effective_pop: i32,
    /// The decoded `pers + 2` script argument.
    pub pers_arg: Option<i32>,
    /// `Leader::queued_units()`'s answer.
    pub queued_units: Option<i32>,
    /// The `TypeIndex` of `MakeList::list[0]`.
    pub make_list_head: Option<i32>,
    /// `RunTimeEnv::get_ret_int()`'s answer for the production script.
    pub script_result: Option<i32>,
    /// `Leader::make_stuff()`'s return for the step-8 arm.
    pub make_stuff_result: Option<i32>,
}

/// The globals both functions read.
#[derive(Clone, Copy, PartialEq, Eq, Debug)]
pub struct AiEnv {
    /// `Game::frame`, the pre-increment frame.
    pub frame: i32,
    /// `*GameAccess::ai_speed`.
    pub ai_speed: i32,
    /// `*GameAccess::ai_off != 0`.
    pub ai_off: bool,
    /// `GameInfo::starting_resources`; `None` is a host that did not answer.
    pub starting_resources: Option<u8>,
}

impl Default for AiEnv {
    /// `ai_speed` defaults to 1 because zero is a divide fault, not a value.
    fn default() -> (r: Self)
        ensures
            r == (AiEnv { frame: 0, ai_speed: 1, ai_off: false, starting_resources: None }),
    {
        AiEnv { frame: 0, ai_speed: 1, ai_off: false, starting_resources: None }
    }
}

/// A retail call the machine reached but does not perform, named by function.
#[derive(Clone, Copy, PartialEq, Eq, Debug)]
pub enum Stage {
    /// `RunTimeEnv::run_script(prod_script, 4, {who + 1}, {script_step}, {pers + 2}, {5})`.
    RunProductionScript { script_step: i32, pers_arg: Option<i32>, who_plus_one: i32 },
    /// Step 2.
    ProductionAiSetup,
    /// Step 2 and the Infinite-resources tail.
    MakeListClear,
    /// Step 3.
    FoundCities,
    /// Step 4.
    ResearchTechs,
    /// Step 5.
    UpgradeUnits,
    /// Steps 6 and 9.
    CreateUnits,
    /// Steps 7 and 10.
    CreateBuildings,
    /// Infinite tail, step 8 and step 11.
    MakeStuff,
}

/// The retail function address of each stage.
pub open spec fn stage_va(s: Stage) -> u32 {
    match s {
        Stage::RunProductionScript { .. } => va::RUN_SCRIPT,
        Stage::ProductionAiSetup => va::PRODUCTION_AI_SETUP,
        Stage::MakeListClear => va::MAKE_LIST_CLEAR,
        Stage::FoundCities => va::FOUND_CITIES,
        Stage::ResearchTechs => va::RESEARCH_TECHS,
        Stage::UpgradeUnits => va::UPGRADE_UNITS,
        Stage::CreateUnits => va::CREATE_UNITS,
        Stage::CreateBuildings => va::CREATE_BUILDINGS,
        Stage::MakeStuff => va::MAKE_STUFF,
    }
}

/// The name of the retail function each stage stands for.
pub open spec fn stage_name(s: Stage) -> Seq<char> {
    match s {
        Stage::RunProductionScript { .. } => "RunTimeEnv::run_script"@,
        Stage::ProductionAiSetup => "Leader::production_ai_setup"@,
        Stage::MakeListClear => "MakeList::clear"@,
        Stage::FoundCities => "Leader::found_cities"@,
        Stage::ResearchTechs => "Leader::research_techs"@,
        Stage::UpgradeUnits => "Leader::upgrade_units"@,
        Stage::CreateUnits => "Leader::create_units"@,
        Stage::CreateBuildings => "Leader::create_buildings"@,
        Stage::MakeStuff => "Leader::make_stuff"@,
    }
}

impl Stage {
    /// The retail function this boundary would have entered.
    pub fn callee_va(self) -> (r: u32)
        ensures
            r == stage_va(self),
    {
        match self {
            Stage::RunProductionScript { .. } => va::RUN_SCRIPT,
            Stage::ProductionAiSetup => va::PRODUCTION_AI_SETUP,
            Stage::MakeListClear => va::MAKE_LIST_CLEAR,
            Stage::FoundCities => va::FOUND_CITIES,
            Stage::ResearchTechs => va::RESEARCH_TECHS,
            Stage::UpgradeUnits => va::UPGRADE_UNITS,
            Stage::CreateUnits => va::CREATE_UNITS,
            Stage::CreateBuildings => va::CREATE_BUILDINGS,
            Stage::MakeStuff => va::MAKE_STUFF,
        }
    }

    /// The retail function's name.
    pub fn name(self) -> (r: &'static str)
        ensures
            r@ == stage_name(self),
    {
        match self {
            Stage::RunProductionScript { .. } => "RunTimeEnv::run_script",
            Stage::ProductionAiSetup => "Leader::production_ai_setup",
            Stage::MakeListClear => "MakeList::clear",
            Stage::FoundCities => "Leader::found_cities",
            Stage::ResearchTechs => "Leader::research_techs",
            Stage::UpgradeUnits => "Leader::upgrade_units",
            Stage::CreateUnits => "Leader::create_units",
            Stage::CreateBuildings => "Leader::create_buildings",
            Stage::MakeStuff => "Leader::make_stuff",
        }
    }
}

/// Why `Leader::production_ai` did not reach its jump table.
#[derive(Clone, Copy, PartialEq, Eq, Debug)]
pub enum ProductionGate {
    /// `leader_flags & 4` set and `& 8` clear.
    Human,
    /// `*GameAccess::ai_off != 0`.
    AiOff,
    /// `leader_flags2 & 4`.
    ProductionAiDisabled,
    /// `(unsigned)(production_step - 1) > 10`.
    StepOutsideTable { step: i32 },
    /// Past all four; the jump table ran.
    Entered,
}

/// A fact the machine needed and the host did not supply.
#[derive(Clone, Copy, PartialEq, Eq, Debug)]
pub enum Stall {
    /// `byte [game + 0x2D]`.
    StartingResources { at_va: u32 },
    /// `RunTimeEnv::get_ret_int()` after `run_script`.
    ScriptResult { at_va: u32 },
    /// `Leader::make_stuff()`'s return in the step-8 arm.
    MakeStuffResult { at_va: u32 },
    /// `Leader::queued_units()`.
    QueuedUnits { at_va: u32 },
}

/// What one `Leader::production_ai` call did.
#[derive(Clone, Debug, PartialEq, Eq)]
pub struct ProductionTrace {
    pub gate: ProductionGate,
    pub step_before: i32,
    pub step_after: i32,
    /// `queued_units() + control + 1`, or `None` when `queued_units` had no answer.
    pub effective_pop: Option<i32>,
    /// Every retail call the arm reached that this library leaves to its host, in instruction order.
    pub stages: Vec<Stage>,
    /// Every fact the machine needed and the host did not supply, in read order.
    pub stalls: Vec<Stall>,
}

impl ProductionTrace {
    fn refused(gate: ProductionGate, step_before: i32) -> (r: ProductionTrace)
        ensures
            r.gate == gate,
            r.step_before == step_before,
            r.step_after == 0,
            r.effective_pop is None,
            r.stages@ == Seq::<Stage>::empty(),
            r.stalls@ == Seq::<Stall>::empty(),
    {
        ProductionTrace {
            gate,
            step_before,
            step_after: 0,
            effective_pop: None,
            stages: Vec::new(),
            stalls: Vec::new(),
        }
    }

    /// True when this call reached retail code the machine does not execute, or could not
    /// decide a branch. A refusal reaches nothing and is not charged.
    pub fn charges(&self) -> (r: bool)
        ensures
            r == (self.stages@.len() > 0 || self.stalls@.len() > 0),
    {
        self.stages.len() > 0 || self.stalls.len() > 0
    }
}

/// Which arm of `Leader::plan_strategy` ran.
#[derive(Clone, Debug, PartialEq, Eq)]
pub enum PlanArm {
    /// `production_step != 0`: the whole call is `Leader::production_ai`.
    ProductionAi(ProductionTrace),
    /// `frame == 0 || phase == 0`: the 11,108-byte planning body.
    PlanningBody { first_unowned_va: u32 },
    /// `phase % 30 != 0`: retail returns having read nothing but its own phase.
    NotDue { phase: i32 },
    /// The fast lane opened but the `MakeList` head is outside the tech window.
    TechQueueHeadRejected { head: i32 },
    /// The fast lane opened on a tech head and reached `Leader::can_pay`.
    TechQueueReached { head: i32, first_call_va: u32 },
    /// `ai_speed == 0`, or `200 / ai_speed == 0`: a missing fact, not a period.
    MissingPeriod { ai_speed: i32 },
    /// The fast lane opened and the host owns no `MakeList`.
    MissingMakeList,
}

/// What one `Leader::plan_strategy` call did.
#[derive(Clone, Debug, PartialEq, Eq)]
pub struct PlanTrace {
    /// `(who * 25 + frame) % (200 / ai_speed)`, or `None` when the period is unusable.
    pub phase: Option<i32>,
    pub arm: PlanArm,
}

impl PlanTrace {
    /// True when the call reached a retail boundary the machine does not execute.
    pub fn charges(&self) -> (r: bool)
        ensures
            r == match self.arm {
                PlanArm::ProductionAi(t) => t.stages@.len() > 0 || t.stalls@.len() > 0,
                PlanArm::NotDue { .. } => false,
                PlanArm::TechQueueHeadRejected { .. } => false,
                _ => true,
            },
    {
        match &self.arm {
            PlanArm::ProductionAi(trace) => trace.charges(),
            PlanArm::PlanningBody { .. } => true,
            PlanArm::TechQueueReached { .. } => true,
            PlanArm::MissingPeriod { .. } => true,
            PlanArm::MissingMakeList => true,
            PlanArm::NotDue { .. } => false,
            PlanArm::TechQueueHeadRejected { .. } => false,
        }
    }
}

// ---------------------------------------------------------------------------------------
// The specification of both functions
// ---------------------------------------------------------------------------------------

/// `200 / ai_speed`, truncating; `None` where retail faults or the period is zero.
pub open spec fn ai_period_spec(ai_speed: i32) -> Option<i32> {
    match PERIOD_BASE.checked_div(ai_speed) {
        Some(p) => if p == 0 { None } else { Some(p) },
        None => None,
    }
}

/// `(who * 25 + frame) % (200 / ai_speed)`, wrapping arithmetic and a truncating remainder.
pub open spec fn plan_phase_spec(who: i32, env: AiEnv) -> Option<i32> {
    match ai_period_spec(env.ai_speed) {
        Some(p) => who.wrapping_mul(SLOT_PHASE).wrapping_add(env.frame).checked_rem(p),
        None => None,
    }
}

/// The refusal gate in front of the jump table, if one fires.
pub open spec fn refusal_gate(st: ProductionState, leader_flags: u32, env: AiEnv) -> Option<
    ProductionGate,
> {
    if leader_flags & flags::HUMAN != 0 && leader_flags & flags::PRODUCTION_DESPITE_HUMAN == 0 {
        Some(ProductionGate::Human)
    } else if env.ai_off {
        Some(ProductionGate::AiOff)
    } else if st.flags2 & flags2::PRODUCTION_AI_DISABLED != 0 {
        Some(ProductionGate::ProductionAiDisabled)
    } else {
        None
    }
}

/// The stages and stalls of the Infinite-resources tail shared by steps 3..7 and 9.
pub open spec fn infinite_tail_spec(env: AiEnv) -> (Seq<Stage>, Seq<Stall>) {
    match env.starting_resources {
        Some(v) => if v == INFINITE_RESOURCES {
            (seq![Stage::MakeStuff, Stage::MakeListClear], Seq::empty())
        } else {
            (Seq::empty(), Seq::empty())
        },
        None => (Seq::empty(), seq![Stall::StartingResources { at_va: 0x006c_1ae9 }]),
    }
}

/// Step 1, the BHS opening book.
pub open spec fn run_script_spec(st: ProductionState, who: i32) -> (
    ProductionState,
    Seq<Stage>,
    Seq<Stall>,
) {
    let stage = Stage::RunProductionScript {
        script_step: st.script_step,
        pers_arg: st.pers_arg,
        who_plus_one: who.wrapping_add(1),
    };
    match st.script_result {
        None => (st, seq![stage], seq![Stall::ScriptResult { at_va: va::GET_RET_INT }]),
        Some(r) => if r == SCRIPT_BLOCK_ON_THIS {
            (ProductionState { production_step: 0, ..st }, seq![stage], Seq::empty())
        } else {
            let retired = if r == SCRIPT_DONE {
                ProductionState { prod_script_run: 0, ..st }
            } else {
                st
            };
            (
                ProductionState {
                    production_step: retired.production_step.wrapping_add(1),
                    ..retired
                },
                seq![stage],
                Seq::empty(),
            )
        },
    }
}

/// Step 8, whose continuation depends on `make_stuff`'s return.
pub open spec fn make_stuff_spec(st: ProductionState, env: AiEnv) -> (
    ProductionState,
    Seq<Stage>,
    Seq<Stall>,
) {
    let advanced = ProductionState { production_step: st.production_step.wrapping_add(1), ..st };
    match st.make_stuff_result {
        None => (
            advanced,
            seq![Stage::MakeStuff],
            seq![Stall::MakeStuffResult { at_va: va::MAKE_STUFF }],
        ),
        Some(r) => if r != 0 {
            (advanced, seq![Stage::MakeStuff], Seq::empty())
        } else {
            match env.starting_resources {
                Some(v) => if v != INFINITE_RESOURCES {
                    (
                        ProductionState { production_step: 0, ..advanced },
                        seq![Stage::MakeStuff],
                        Seq::empty(),
                    )
                } else {
                    (advanced, seq![Stage::MakeStuff], Seq::empty())
                },
                None => (
                    advanced,
                    seq![Stage::MakeStuff],
                    seq![Stall::StartingResources { at_va: 0x006c_1b63 }],
                ),
            }
        },
    }
}

/// A plain arm: advance one step, record its stage, optionally run the Infinite tail.
pub open spec fn plain_arm_spec(st: ProductionState, stage: Stage, tail: bool, env: AiEnv) -> (
    ProductionState,
    Seq<Stage>,
    Seq<Stall>,
) {
    let advanced = ProductionState { production_step: (st.production_step + 1) as i32, ..st };
    if tail {
        (advanced, seq![stage] + infinite_tail_spec(env).0, infinite_tail_spec(env).1)
    } else {
        (advanced, seq![stage], Seq::empty())
    }
}

/// The jump table, for a step in `1..=11`.
pub open spec fn arm_spec(st: ProductionState, who: i32, env: AiEnv) -> (
    ProductionState,
    Seq<Stage>,
    Seq<Stall>,
) {
    let step = st.production_step;
    if step == 1 {
        run_script_spec(st, who)
    } else if step == 2 {
        (
            ProductionState { production_step: 3, ..st },
            seq![Stage::ProductionAiSetup, Stage::MakeListClear],
            Seq::empty(),
        )
    } else if step == 3 {
        plain_arm_spec(st, Stage::FoundCities, true, env)
    } else if step == 4 {
        plain_arm_spec(st, Stage::ResearchTechs, true, env)
    } else if step == 5 {
        plain_arm_spec(st, Stage::UpgradeUnits, true, env)
    } else if step == 6 || step == 9 {
        plain_arm_spec(st, Stage::CreateUnits, true, env)
    } else if step == 7 {
        plain_arm_spec(st, Stage::CreateBuildings, true, env)
    } else if step == 8 {
        make_stuff_spec(st, env)
    } else if step == 10 {
        plain_arm_spec(st, Stage::CreateBuildings, false, env)
    } else {
        (ProductionState { production_step: 0, ..st }, seq![Stage::MakeStuff], Seq::empty())
    }
}

/// The complete `Leader::production_ai`: the state after the call, and the trace's gate,
/// `effective_pop`, stages and stalls.
pub open spec fn production_ai_spec(
    st: ProductionState,
    leader_flags: u32,
    who: i32,
    env: AiEnv,
) -> (ProductionState, ProductionGate, Option<i32>, Seq<Stage>, Seq<Stall>) {
    match refusal_gate(st, leader_flags, env) {
        Some(gate) => (
            ProductionState { production_step: 0, ..st },
            gate,
            None,
            Seq::empty(),
            Seq::empty(),
        ),
        None => {
            let pop = match st.queued_units {
                Some(q) => Some(q.wrapping_add(st.control).wrapping_add(1)),
                None => None,
            };
            let st1 = match pop {
                Some(v) => ProductionState { effective_pop: v, ..st },
                None => st,
            };
            let stalls0: Seq<Stall> = match pop {
                Some(_) => Seq::empty(),
                None => seq![Stall::QueuedUnits { at_va: va::QUEUED_UNITS }],
            };
            if st1.production_step == 1 && st1.prod_script_run != 0
                && env.starting_resources is None {
                (
                    st1,
                    ProductionGate::Entered,
                    pop,
                    Seq::empty(),
                    stalls0.push(Stall::StartingResources { at_va: 0x006c_19bf }),
                )
            } else {
                let st2 = if st1.production_step == 1 && (st1.prod_script_run == 0
                    || env.starting_resources == Some(INFINITE_RESOURCES)) {
                    ProductionState { production_step: 2, ..st1 }
                } else {
                    st1
                };
                let step = st2.production_step;
                if !(1 <= step <= PRODUCTION_STEP_ARMS) {
                    (
                        ProductionState { production_step: 0, ..st2 },
                        ProductionGate::StepOutsideTable { step },
                        pop,
                        Seq::empty(),
                        stalls0,
                    )
                } else {
                    let (st3, stages, stalls) = arm_spec(st2, who, env);
                    (st3, ProductionGate::Entered, pop, stages, stalls0 + stalls)
                }
            }
        },
    }
}

/// The arm `plan_strategy` takes while the production cycle is idle.
pub open spec fn idle_arm_spec(st: ProductionState, who: i32, env: AiEnv) -> PlanArm {
    match plan_phase_spec(who, env) {
        None => PlanArm::MissingPeriod { ai_speed: env.ai_speed },
        Some(phase) => if env.frame == 0 || phase == 0 {
            PlanArm::PlanningBody { first_unowned_va: va::PLAN_STRATEGY_BODY }
        } else if (phase as int) % (SUB_PHASE as int) != 0 {
            PlanArm::NotDue { phase }
        } else {
            match st.make_list_head {
                None => PlanArm::MissingMakeList,
                Some(head) => if !(TECH_TYPE_FIRST <= head <= TECH_TYPE_LAST) {
                    PlanArm::TechQueueHeadRejected { head }
                } else {
                    PlanArm::TechQueueReached { head, first_call_va: va::CAN_PAY }
                },
            }
        },
    }
}

// ---------------------------------------------------------------------------------------
// Leader::plan_strategy
// ---------------------------------------------------------------------------------------

/// `200 / ai_speed`, the `idiv` at `0x006B9629`. `None` is the divide-fault state, or a
/// zero period.
pub fn ai_period(ai_speed: i32) -> (r: Option<i32>)
    ensures
        r == ai_period_spec(ai_speed),
{
    match PERIOD_BASE.checked_div(ai_speed) {
        Some(period) => if period == 0 { None } else { Some(period) },
        None => None,
    }
}

/// `(who * 25 + frame) % (200 / ai_speed)`. Unlike `Leader::check_explore`, there is no
/// `+ 12` bias.
pub fn plan_phase(who: i32, env: AiEnv) -> (r: Option<i32>)
    ensures
        r == plan_phase_spec(who, env),
{
    let period = match ai_period(env.ai_speed) {
        Some(p) => p,
        None => return None,
    };
    let dividend = who.wrapping_mul(SLOT_PHASE).wrapping_add(env.frame);
    dividend.checked_rem(period)
}

/// `Leader::plan_strategy`, the entry and dispatch skeleton, whole. The planning body
/// itself is [`PlanArm::PlanningBody`].
pub fn plan_strategy(st: &mut ProductionState, leader_flags: u32, who: i32, env: AiEnv) -> (r:
    PlanTrace)
    ensures
        r.phase == plan_phase_spec(who, env),
        old(st).production_step != 0 ==> {
            let s = production_ai_spec(*old(st), leader_flags, who, env);
            &&& *final(st) == s.0
            &&& r.arm matches PlanArm::ProductionAi(t) && t.gate == s.1 && t.step_before
                == old(st).production_step && t.step_after == s.0.production_step
                && t.effective_pop == s.2 && t.stages@ == s.3 && t.stalls@ == s.4
        },
        old(st).production_step == 0 ==> *final(st) == *old(st) && r.arm == idle_arm_spec(
            *old(st),
            who,
            env,
        ),
{
    let phase = plan_phase(who, env);

    if st.production_step != 0 {
        let trace = production_ai(st, leader_flags, who, env);
        return PlanTrace { phase, arm: PlanArm::ProductionAi(trace) };
    }
    let phase_value = match phase {
        Some(p) => p,
        None => {
            return PlanTrace { phase, arm: PlanArm::MissingPeriod { ai_speed: env.ai_speed } };
        },
    };
    if env.frame == 0 || phase_value == 0 {
        return PlanTrace {
            phase,
            arm: PlanArm::PlanningBody { first_unowned_va: va::PLAN_STRATEGY_BODY },
        };
    }
    let sub = phase_value.checked_rem(SUB_PHASE);
    let not_due = match sub {
        Some(s) => s != 0,
        None => false,
    };
    if not_due {
        return PlanTrace { phase, arm: PlanArm::NotDue { phase: phase_value } };
    }
    let head = match st.make_list_head {
        Some(h) => h,
        None => {
            return PlanTrace { phase, arm: PlanArm::MissingMakeList };
        },
    };
    if !(TECH_TYPE_FIRST <= head && head <= TECH_TYPE_LAST) {
        return PlanTrace { phase, arm: PlanArm::TechQueueHeadRejected { head } };
    }
    PlanTrace { phase, arm: PlanArm::TechQueueReached { head, first_call_va: va::CAN_PAY } }
}

// ---------------------------------------------------------------------------------------
// Leader::production_ai
// ---------------------------------------------------------------------------------------

/// `Leader::production_ai`, the complete 628-byte step machine. Every transition, the
/// refusal resets, the `effective_pop` write and the Infinite tail are executed; the eight
/// stage bodies are boundaries.
pub fn production_ai(st: &mut ProductionState, leader_flags: u32, who: i32, env: AiEnv) -> (r:
    ProductionTrace)
    ensures
        ({
            let s = production_ai_spec(*old(st), leader_flags, who, env);
            &&& *final(st) == s.0
            &&& r.gate == s.1
            &&& r.step_before == old(st).production_step
            &&& r.step_after == s.0.production_step
            &&& r.effective_pop == s.2
            &&& r.stages@ == s.3
            &&& r.stalls@ == s.4
        }),
{
    let step_before = st.production_step;

    if leader_flags & flags::HUMAN != 0 && leader_flags & flags::PRODUCTION_DESPITE_HUMAN == 0 {
        st.production_step = 0;
        return ProductionTrace::refused(ProductionGate::Human, step_before);
    }
    if env.ai_off {
        st.production_step = 0;
        return ProductionTrace::refused(ProductionGate::AiOff, step_before);
    }
    if st.flags2 & flags2::PRODUCTION_AI_DISABLED != 0 {
        st.production_step = 0;
        return ProductionTrace::refused(ProductionGate::ProductionAiDisabled, step_before);
    }

    let mut trace = ProductionTrace {
        gate: ProductionGate::Entered,
        step_before,
        step_after: step_before,
        effective_pop: None,
        stages: Vec::new(),
        stalls: Vec::new(),
    };

    match st.queued_units {
        Some(queued) => {
            let value = queued.wrapping_add(st.control).wrapping_add(1);
            st.effective_pop = value;
            trace.effective_pop = Some(value);
        },
        None => trace.stalls.push(Stall::QueuedUnits { at_va: va::QUEUED_UNITS }),
    }

    if st.production_step == 1 {
        if st.prod_script_run == 0 {
            st.production_step = 2;
        } else {
            match env.starting_resources {
                Some(value) => {
                    if value == INFINITE_RESOURCES {
                        st.production_step = 2;
                    }
                },
                None => {
                    trace.step_after = st.production_step;
                    trace.stalls.push(Stall::StartingResources { at_va: 0x006c_19bf });
                    return trace;
                },
            }
        }
    }

    let step = st.production_step;
    if !(1 <= step && step <= PRODUCTION_STEP_ARMS) {
        st.production_step = 0;
        trace.gate = ProductionGate::StepOutsideTable { step };
        trace.step_after = 0;
        return trace;
    }
    let ghost stalls0 = trace.stalls@;
    if step == 1 {
        run_script_arm(st, &mut trace, who);
    } else if step == 2 {
        st.production_step = step + 1;
        trace.stages.push(Stage::ProductionAiSetup);
        trace.stages.push(Stage::MakeListClear);
    } else if step == 3 {
        st.production_step = step + 1;
        trace.stages.push(Stage::FoundCities);
        infinite_tail(&mut trace, env);
    } else if step == 4 {
        st.production_step = step + 1;
        trace.stages.push(Stage::ResearchTechs);
        infinite_tail(&mut trace, env);
    } else if step == 5 {
        st.production_step = step + 1;
        trace.stages.push(Stage::UpgradeUnits);
        infinite_tail(&mut trace, env);
    } else if step == 6 || step == 9 {
        st.production_step = step + 1;
        trace.stages.push(Stage::CreateUnits);
        infinite_tail(&mut trace, env);
    } else if step == 7 {
        st.production_step = step + 1;
        trace.stages.push(Stage::CreateBuildings);
        infinite_tail(&mut trace, env);
    } else if step == 8 {
        make_stuff_arm(st, &mut trace, env);
    } else if step == 10 {
        st.production_step = step + 1;
        trace.stages.push(Stage::CreateBuildings);
    } else {
        trace.stages.push(Stage::MakeStuff);
        st.production_step = 0;
    }
    proof {
        let s = infinite_tail_spec(env);
        assert(seq![Stage::FoundCities] + s.0 =~= seq![Stage::FoundCities] + s.0);
    }
    trace.step_after = st.production_step;
    assert(trace.stages@ =~= arm_spec(production_state_before_arm(*old(st), env), who, env).1);
    trace
}

/// The state `production_ai` hands its jump table, for the entered path.
spec fn production_state_before_arm(st: ProductionState, env: AiEnv) -> ProductionState {
    let st1 = match st.queued_units {
        Some(q) => ProductionState { effective_pop: q.wrapping_add(st.control).wrapping_add(1), ..st },
        None => st,
    };
    if st1.production_step == 1 && (st1.prod_script_run == 0 || env.starting_resources == Some(
        INFINITE_RESOURCES,
    )) {
        ProductionState { production_step: 2, ..st1 }
    } else {
        st1
    }
}

/// Step 1, the BHS opening book.
fn run_script_arm(st: &mut ProductionState, trace: &mut ProductionTrace, who: i32)
    requires
        old(trace).stages@.len() == 0,
    ensures
        *final(st) == run_script_spec(*old(st), who).0,
        final(trace).stages@ == run_script_spec(*old(st), who).1,
        final(trace).stalls@ == old(trace).stalls@ + run_script_spec(*old(st), who).2,
        final(trace).gate == old(trace).gate,
        final(trace).step_before == old(trace).step_before,
        final(trace).effective_pop == old(trace).effective_pop,
{
    trace.stages.push(
        Stage::RunProductionScript {
            script_step: st.script_step,
            pers_arg: st.pers_arg,
            who_plus_one: who.wrapping_add(1),
        },
    );
    let result = match st.script_result {
        Some(r) => r,
        None => {
            trace.stalls.push(Stall::ScriptResult { at_va: va::GET_RET_INT });
            return ;
        },
    };
    if result == SCRIPT_BLOCK_ON_THIS {
        st.production_step = 0;
        assert(trace.stalls@ =~= old(trace).stalls@ + Seq::<Stall>::empty());
        return ;
    }
    if result == SCRIPT_DONE {
        st.prod_script_run = 0;
    }
    st.production_step = st.production_step.wrapping_add(1);
    assert(trace.stalls@ =~= old(trace).stalls@ + Seq::<Stall>::empty());
}

/// Step 8, the one arm whose continuation depends on a callee's return.
fn make_stuff_arm(st: &mut ProductionState, trace: &mut ProductionTrace, env: AiEnv)
    requires
        old(trace).stages@.len() == 0,
    ensures
        *final(st) == make_stuff_spec(*old(st), env).0,
        final(trace).stages@ == make_stuff_spec(*old(st), env).1,
        final(trace).stalls@ == old(trace).stalls@ + make_stuff_spec(*old(st), env).2,
        final(trace).gate == old(trace).gate,
        final(trace).step_before == old(trace).step_before,
        final(trace).effective_pop == old(trace).effective_pop,
{
    st.production_step = st.production_step.wrapping_add(1);
    trace.stages.push(Stage::MakeStuff);
    let result = match st.make_stuff_result {
        Some(r) => r,
        None => {
            trace.stalls.push(Stall::MakeStuffResult { at_va: va::MAKE_STUFF });
            return ;
        },
    };
    if result != 0 {
        assert(trace.stalls@ =~= old(trace).stalls@ + Seq::<Stall>::empty());
        return ;
    }
    match env.starting_resources {
        Some(value) => {
            if value != INFINITE_RESOURCES {
                st.production_step = 0;
            }
            assert(trace.stalls@ =~= old(trace).stalls@ + Seq::<Stall>::empty());
        },
        None => trace.stalls.push(Stall::StartingResources { at_va: 0x006c_1b63 }),
    }
}

/// The tail shared by steps 3, 4, 5, 6, 7 and 9.
fn infinite_tail(trace: &mut ProductionTrace, env: AiEnv)
    ensures
        final(trace).stages@ == old(trace).stages@ + infinite_tail_spec(env).0,
        final(trace).stalls@ == old(trace).stalls@ + infinite_tail_spec(env).1,
        final(trace).gate == old(trace).gate,
        final(trace).step_before == old(trace).step_before,
        final(trace).effective_pop == old(trace).effective_pop,
{
    match env.starting_resources {
        Some(value) => {
            if value == INFINITE_RESOURCES {
                trace.stages.push(Stage::MakeStuff);
                trace.stages.push(Stage::MakeListClear);
            }
        },
        None => trace.stalls.push(Stall::StartingResources { at_va: 0x006c_1ae9 }),
    }
    assert(trace.stages@ =~= old(trace).stages@ + infinite_tail_spec(env).0);
    assert(trace.stalls@ =~= old(trace).stalls@ + infinite_tail_spec(env).1);
}

} // verus!
