//! The opening cone of tick step 11's `Leader::diplomacy` (`0x006BC950`).
//!
//! The full procedure is 20,348 bytes. This frontier owns the opening blocks from
//! `0x006BC96E` through the first unowned instruction at `0x006BCB2C`, plus the late
//! target-loop continuation at `0x006BE98A`: owner and mode gates, the eight-record ally and
//! score scan, target eligibility, the power-of-two cadence, and the first local agenda-bit
//! mutation. The next instruction enters resource, city, map, chat and command policy;
//! reaching it is a typed residual rather than permission to invent those facts.
use vstd::prelude::*;

verus! {

pub const LEADER_DIPLOMACY_VA: u32 = 0x006b_c950;
pub const LEADER_DIPLOMACY_PDB_SIZE: u32 = 20_348;
pub const OPENING_BEGIN_VA: u32 = 0x006b_c96e;
pub const OPENING_END_VA: u32 = 0x006b_cb2c;
pub const DOWNSTREAM_POLICY_VA: u32 = 0x006b_cb2c;
pub const TARGET_LOOP_CONTINUE_VA: u32 = 0x006b_e98a;
pub const FUNCTION_RETURN_VA: u32 = 0x006b_e99a;
pub const LEADER_IS_ALLY_VA: u32 = 0x006e_db50;
pub const LEADERS_BASE_VA: u32 = 0x00e3_a390;
pub const LEADER_STRIDE: u32 = 0x6eec;
pub const RETAIL_LEADER_SLOTS: usize = 8;
pub const LEADER_FLAGS_OFFSET: u32 = 0x000;
pub const LEADER_WHO_OFFSET: u32 = 0x008;
pub const LEADER_SCORE_OFFSET: u32 = 0x018;
pub const LEADER_DIPLOS_OFFSET: u32 = 0x074;
pub const LEADER_TREATIES_OFFSET: u32 = 0x094;
pub const LEADER_AGENDAS_OFFSET: u32 = 0x0b4;
pub const LEADER_COUNTEROFFER_OFFSET: u32 = 0x314;
pub const LEADER_TRIBUTE_DEMANDED_OFFSET: u32 = 0x334;
pub const LEADER_DIP_OFFSET: u32 = 0x692c;
pub const DIPLOMACY_STRIDE: u32 = 0x5c;
pub const DIPLOMACY_AGREE_OFFSET: u32 = 0;
pub const GAME_FRAME_OFFSET: u32 = 0x550;
pub const LEADER_VALID: u32 = 0x1;
pub const LEADER_ACTIVE: u32 = 0x2;
pub const LEADER_HUMAN: u32 = 0x4;
pub const LEADER_PLAYING: u32 = 0x3;
pub const DIPLO_ALLIED: i32 = 2;
pub const TREATY_ELIGIBLE: i32 = 0x1;
pub const TREATY_BLOCKED: i32 = 0x4;
pub const AGENDA_PENDING: i32 = 0x4;
pub const AGENDA_SLOW_CADENCE: i32 = 0x8;
pub const NORMAL_PERIOD: u32 = 0x800;
pub const TRIBUTE_PERIOD: u32 = 0x2000;
/// The instruction that clears the pending agenda bit.
pub const AGENDA_CLEAR_VA: u32 = 0x006b_cb2a;

/// The address of leader `index`.
pub fn leader_va(index: usize) -> (r: u32)
    requires
        index < 8,
    ensures
        r == LEADERS_BASE_VA + index * LEADER_STRIDE,
{
    LEADERS_BASE_VA + index as u32 * LEADER_STRIDE
}

#[derive(Clone, Copy, Debug, Default, PartialEq, Eq)]
pub struct GlobalLeaderSlot {
    pub flags: u32,
    pub who: i32,
    pub score: i32,
    pub diplos: [i32; 8],
}

/// State read through the `this` pointer. The initial human gate and owner score come
/// through `leaders[this->who]`, not through this record.
#[derive(Clone, Copy, Debug, Default, PartialEq, Eq)]
pub struct DiplomacyOwnerState {
    pub who: i32,
    pub treaties: [i32; 8],
    pub agendas: [i32; 8],
    pub counteroffer: [i32; 8],
    pub tribute_demanded: [i32; 8],
    pub dip_agree: [i32; 8],
}

#[derive(Clone, Copy, Debug, Default, PartialEq, Eq)]
pub struct DiplomacyOpeningState {
    pub owner: DiplomacyOwnerState,
    pub leaders: [GlobalLeaderSlot; 8],
}

#[derive(Clone, Copy, Debug, Default, PartialEq, Eq)]
pub struct GameFacts {
    pub frame: u32,
    /// `game[0x821] & 2`, semaphore bit 9.
    pub check_victory_mode: bool,
    /// `*GameAccess::ai_off`.
    pub ai_off: bool,
}

#[derive(Clone, Copy, Debug, PartialEq, Eq)]
pub enum GateOutcome {
    HumanOwner,
    CheckVictoryMode,
    AiDisabled,
    Entered,
}

#[derive(Clone, Copy, Debug, PartialEq, Eq)]
pub enum AllyReason {
    SameWho,
    MutualAllied { forward: i32, reciprocal: i32 },
    NotMutual { forward: i32, reciprocal: Option<i32> },
}

#[derive(Clone, Copy, Debug, PartialEq, Eq)]
pub struct AllyReadReceipt {
    pub sequence: u8,
    pub call_va: u32,
    pub subject_index: usize,
    pub subject_who: i32,
    pub other_who: i32,
    pub result: bool,
    pub reason: AllyReason,
}

#[derive(Clone, Debug, PartialEq, Eq)]
pub struct ScanReceipt {
    pub ally_reads: Vec<AllyReadReceipt>,
    pub non_allies: u8,
    pub stronger_than_owner: u8,
    /// The maximum starts at zero and is replaced on `score >= maximum`, so the later
    /// record wins a non-negative tie and all-negative sets keep slot `-1`.
    pub strongest_score: i32,
    pub strongest_slot: i32,
}

#[derive(Clone, Copy, Debug, PartialEq, Eq)]
pub enum TargetSkip {
    ProcessFlagClear,
    OwnerSlot,
    TreatyInactive,
    TreatyBlocked,
    CadenceMiss { period: u32, phase_word: u32 },
}

#[derive(Clone, Copy, Debug, PartialEq, Eq)]
pub enum PolicyTrigger {
    PendingAgenda,
    CadenceDue { period: u32, phase_word: u32 },
}

#[derive(Clone, Copy, Debug, PartialEq, Eq)]
pub enum TargetOutcome {
    Skipped(TargetSkip),
    ReachedPolicy { trigger: PolicyTrigger, agenda_before: i32, agenda_after: i32 },
}

#[derive(Clone, Copy, Debug, PartialEq, Eq)]
pub struct TargetVisit {
    pub target_index: usize,
    pub target_va: u32,
    pub outcome: TargetOutcome,
}

#[derive(Clone, Copy, Debug, PartialEq, Eq)]
pub struct AgendaMutationReceipt {
    pub instruction_va: u32,
    pub target_index: usize,
    pub before: i32,
    pub after: i32,
}

#[derive(Clone, Copy, Debug, PartialEq, Eq)]
pub enum OpenResidual {
    /// The opening mutation is complete, but continuing needs the remainder of the AI
    /// policy body.
    DownstreamPolicy { target_index: usize, first_unowned_va: u32 },
}

#[derive(Clone, Debug, PartialEq, Eq)]
pub struct DiplomacyOpeningTrace {
    pub gate: GateOutcome,
    pub scan: Option<ScanReceipt>,
    pub targets: Vec<TargetVisit>,
    pub local_mutations: Vec<AgendaMutationReceipt>,
    pub residual: Option<OpenResidual>,
}

#[derive(Clone, Copy, Debug, PartialEq, Eq)]
pub enum OpeningError {
    OwnerWhoOutsideArray { who: i32 },
    ActiveLeaderWhoOutsideArray { leader_index: usize, who: i32 },
}

// ---------------------------------------------------------------------------------------
// The model.
// ---------------------------------------------------------------------------------------

/// `Leader::is_ally(subject, other_who)` as the opening reads it, with its reasons: the
/// same `who` is an ally; otherwise `other_who` must index the array, and the reciprocal
/// relation is read (and the subject's own `who` must index the array) only when the forward
/// relation is allied.
pub open spec fn read_is_ally_spec(
    leaders: Seq<GlobalLeaderSlot>,
    subject_index: usize,
    other_who: i32,
    sequence: u8,
) -> Result<AllyReadReceipt, OpeningError> {
    let subject = leaders[subject_index as int];
    if subject.who == other_who {
        Ok(
            AllyReadReceipt {
                sequence,
                call_va: LEADER_IS_ALLY_VA,
                subject_index,
                subject_who: subject.who,
                other_who,
                result: true,
                reason: AllyReason::SameWho,
            },
        )
    } else if other_who < 0 || other_who >= 8 {
        Err(OpeningError::OwnerWhoOutsideArray { who: other_who })
    } else {
        let forward = subject.diplos@[other_who as int];
        if forward == DIPLO_ALLIED && (subject.who < 0 || subject.who >= 8) {
            Err(OpeningError::ActiveLeaderWhoOutsideArray { leader_index: subject_index, who: subject.who })
        } else {
            let reciprocal = if forward == DIPLO_ALLIED {
                Some(leaders[other_who as int].diplos@[subject.who as int])
            } else {
                None
            };
            let result = forward == DIPLO_ALLIED && reciprocal == Some(DIPLO_ALLIED);
            Ok(
                AllyReadReceipt {
                    sequence,
                    call_va: LEADER_IS_ALLY_VA,
                    subject_index,
                    subject_who: subject.who,
                    other_who,
                    result,
                    reason: if result {
                        AllyReason::MutualAllied { forward, reciprocal: DIPLO_ALLIED }
                    } else {
                        AllyReason::NotMutual { forward, reciprocal }
                    },
                },
            )
        }
    }
}

/// What the leader scan gathers.
pub struct ScanModel {
    pub ally_reads: Seq<AllyReadReceipt>,
    pub non_allies: u8,
    pub stronger_than_owner: u8,
    pub strongest_score: i32,
    pub strongest_slot: i32,
}

/// The scan over records `0..k`: every playing record (`flags & 3 == 3`) is asked whether
/// it is allied with the owner's `who`, counted when not, counted when its score beats the
/// owner's, and taken as strongest when its score is at least the running maximum.
pub open spec fn scan_fold(leaders: Seq<GlobalLeaderSlot>, owner_who: i32, owner_score: i32, k: int) -> Result<
    ScanModel,
    OpeningError,
>
    decreases k,
{
    if k <= 0 {
        Ok(
            ScanModel {
                ally_reads: Seq::empty(),
                non_allies: 0,
                stronger_than_owner: 0,
                strongest_score: 0i32,
                strongest_slot: -1i32,
            },
        )
    } else {
        match scan_fold(leaders, owner_who, owner_score, k - 1) {
            Err(e) => Err(e),
            Ok(m) => {
                let i = (k - 1) as usize;
                let subject = leaders[i as int];
                if subject.flags & LEADER_PLAYING != LEADER_PLAYING {
                    Ok(m)
                } else {
                    match read_is_ally_spec(leaders, i, owner_who, m.ally_reads.len() as u8) {
                        Err(e) => Err(e),
                        Ok(ally) => {
                            let strongest = subject.score >= m.strongest_score;
                            Ok(
                                ScanModel {
                                    ally_reads: m.ally_reads.push(ally),
                                    non_allies: if !ally.result {
                                        m.non_allies.wrapping_add(1)
                                    } else {
                                        m.non_allies
                                    },
                                    stronger_than_owner: if subject.score > owner_score {
                                        m.stronger_than_owner.wrapping_add(1)
                                    } else {
                                        m.stronger_than_owner
                                    },
                                    strongest_score: if strongest {
                                        subject.score
                                    } else {
                                        m.strongest_score
                                    },
                                    strongest_slot: if strongest {
                                        i as i32
                                    } else {
                                        m.strongest_slot
                                    },
                                },
                            )
                        },
                    }
                }
            },
        }
    }
}

/// The period selection at `0x006BCAB7..0x006BCAF0`: `0x800`, or `0x2000` with a demanded
/// tribute, doubled by a counteroffer (both only when not agreed), and quartered unless the
/// agenda asks for the slow cadence.
pub open spec fn target_period_spec(agree: i32, tribute_demanded: i32, counteroffer: i32, agenda: i32) -> u32 {
    let p1: u32 = if agree != 1 && tribute_demanded != 0 {
        TRIBUTE_PERIOD
    } else {
        NORMAL_PERIOD
    };
    let p2: u32 = if agree != 1 && counteroffer != 0 {
        p1.wrapping_mul(2)
    } else {
        p1
    };
    if agenda & AGENDA_SLOW_CADENCE == 0 {
        p2 >> 2
    } else {
        p2
    }
}

/// `frame + (target + 8 * owner) * (period >> 6)`, in wrapping dword arithmetic.
pub open spec fn phase_word_spec(frame: u32, owner_who: usize, target_index: usize, period: u32) -> u32 {
    let pair_index = ((target_index as u32) + 8 * (owner_who as u32)) as u32;
    frame.wrapping_add(pair_index.wrapping_mul(period >> 6))
}

/// What happens to target `t` before any store: it is skipped when its leader is not
/// active, when it is the owner, or when the owner's treaty with it is not eligible or is
/// blocked; otherwise a pending agenda reaches the policy at once, and any other reaches it
/// only on its cadence, clearing the pending bit.
pub open spec fn target_outcome_spec(s: DiplomacyOpeningState, owner_index: usize, frame: u32, t: usize) -> TargetOutcome {
    let o = s.owner;
    if s.leaders@[t as int].flags & LEADER_ACTIVE == 0 {
        TargetOutcome::Skipped(TargetSkip::ProcessFlagClear)
    } else if t == owner_index {
        TargetOutcome::Skipped(TargetSkip::OwnerSlot)
    } else if o.treaties@[t as int] & TREATY_ELIGIBLE == 0 {
        TargetOutcome::Skipped(TargetSkip::TreatyInactive)
    } else if o.treaties@[t as int] & TREATY_BLOCKED != 0 {
        TargetOutcome::Skipped(TargetSkip::TreatyBlocked)
    } else {
        let agenda = o.agendas@[t as int];
        let after = agenda & !AGENDA_PENDING;
        if agenda & AGENDA_PENDING != 0 {
            TargetOutcome::ReachedPolicy {
                trigger: PolicyTrigger::PendingAgenda,
                agenda_before: agenda,
                agenda_after: after,
            }
        } else {
            let period = target_period_spec(
                o.dip_agree@[t as int],
                o.tribute_demanded@[t as int],
                o.counteroffer@[t as int],
                agenda,
            );
            let phase_word = phase_word_spec(frame, owner_index, t, period);
            if phase_word & period.wrapping_sub(1) != 0 {
                TargetOutcome::Skipped(TargetSkip::CadenceMiss { period, phase_word })
            } else {
                TargetOutcome::ReachedPolicy {
                    trigger: PolicyTrigger::CadenceDue { period, phase_word },
                    agenda_before: agenda,
                    agenda_after: after,
                }
            }
        }
    }
}

/// The first target at or after `t` that reaches the policy.
pub open spec fn first_reached(s: DiplomacyOpeningState, owner_index: usize, frame: u32, t: int) -> Option<int>
    decreases 8 - t,
{
    if t >= 8 || t < 0 {
        None
    } else if target_outcome_spec(s, owner_index, frame, t as usize) is ReachedPolicy {
        Some(t)
    } else {
        first_reached(s, owner_index, frame, t + 1)
    }
}

/// The visit record of target `t`.
pub open spec fn visit_spec(s: DiplomacyOpeningState, owner_index: usize, frame: u32, t: int) -> TargetVisit {
    TargetVisit {
        target_index: t as usize,
        target_va: (LEADERS_BASE_VA + t * LEADER_STRIDE) as u32,
        outcome: target_outcome_spec(s, owner_index, frame, t as usize),
    }
}

/// The owner's `who` as an array index.
pub open spec fn owner_index_of(s: DiplomacyOpeningState) -> Option<usize> {
    if 0 <= s.owner.who < 8 {
        Some(s.owner.who as usize)
    } else {
        None
    }
}

/// Whether the body is entered: the owner record's flags, then the check-victory mode,
/// then the AI switch, can each keep it out.
pub open spec fn gate_spec(s: DiplomacyOpeningState, owner_index: usize, game: GameFacts) -> GateOutcome {
    if s.leaders@[owner_index as int].flags & LEADER_HUMAN != 0 {
        GateOutcome::HumanOwner
    } else if game.check_victory_mode {
        GateOutcome::CheckVictoryMode
    } else if game.ai_off {
        GateOutcome::AiDisabled
    } else {
        GateOutcome::Entered
    }
}

// ---------------------------------------------------------------------------------------
// The body.
// ---------------------------------------------------------------------------------------

proof fn lemma_scan_err_persists(leaders: Seq<GlobalLeaderSlot>, owner_who: i32, owner_score: i32, k: int, n: int)
    requires
        0 <= k <= n,
        scan_fold(leaders, owner_who, owner_score, k) is Err,
    ensures
        scan_fold(leaders, owner_who, owner_score, n) == scan_fold(leaders, owner_who, owner_score, k),
    decreases n - k,
{
    if n > k {
        lemma_scan_err_persists(leaders, owner_who, owner_score, k, n - 1);
    }
}

proof fn lemma_scan_reads_bounded(leaders: Seq<GlobalLeaderSlot>, owner_who: i32, owner_score: i32, k: int)
    requires
        0 <= k,
        scan_fold(leaders, owner_who, owner_score, k) is Ok,
    ensures
        scan_fold(leaders, owner_who, owner_score, k)->Ok_0.ally_reads.len() <= k,
    decreases k,
{
    if k > 0 {
        lemma_scan_reads_bounded(leaders, owner_who, owner_score, k - 1);
    }
}

fn read_is_ally(state: &DiplomacyOpeningState, subject_index: usize, other_who: i32, sequence: u8) -> (r:
    Result<AllyReadReceipt, OpeningError>)
    requires
        subject_index < 8,
    ensures
        r == read_is_ally_spec(state.leaders@, subject_index, other_who, sequence),
{
    let subject = state.leaders[subject_index];
    if subject.who == other_who {
        return Ok(
            AllyReadReceipt {
                sequence,
                call_va: LEADER_IS_ALLY_VA,
                subject_index,
                subject_who: subject.who,
                other_who,
                result: true,
                reason: AllyReason::SameWho,
            },
        );
    }
    if other_who < 0 || other_who >= 8 {
        return Err(OpeningError::OwnerWhoOutsideArray { who: other_who });
    }
    let other_index = other_who as usize;
    let forward = subject.diplos[other_index];
    // `0x006EDB66` short-circuits before the reciprocal index: an impossible subject
    // identity is a missing fact only when it would be used.
    let reciprocal = if forward == DIPLO_ALLIED {
        if subject.who < 0 || subject.who >= 8 {
            return Err(
                OpeningError::ActiveLeaderWhoOutsideArray { leader_index: subject_index, who: subject.who },
            );
        }
        Some(state.leaders[other_index].diplos[subject.who as usize])
    } else {
        None
    };
    let result = forward == DIPLO_ALLIED && reciprocal == Some(DIPLO_ALLIED);
    let reason = if result {
        AllyReason::MutualAllied { forward, reciprocal: DIPLO_ALLIED }
    } else {
        AllyReason::NotMutual { forward, reciprocal }
    };
    Ok(
        AllyReadReceipt {
            sequence,
            call_va: LEADER_IS_ALLY_VA,
            subject_index,
            subject_who: subject.who,
            other_who,
            result,
            reason,
        },
    )
}

fn scan_leaders(state: &DiplomacyOpeningState, owner_index: usize) -> (r: Result<ScanReceipt, OpeningError>)
    requires
        owner_index < 8,
    ensures
        match scan_fold(state.leaders@, state.owner.who, state.leaders@[owner_index as int].score, 8) {
            Ok(m) => r is Ok && r->Ok_0.ally_reads@ == m.ally_reads && r->Ok_0.non_allies
                == m.non_allies && r->Ok_0.stronger_than_owner == m.stronger_than_owner
                && r->Ok_0.strongest_score == m.strongest_score && r->Ok_0.strongest_slot
                == m.strongest_slot,
            Err(e) => r == Err::<ScanReceipt, OpeningError>(e),
        },
{
    let owner_who = state.owner.who;
    let owner_score = state.leaders[owner_index].score;
    let mut receipt = ScanReceipt {
        ally_reads: Vec::new(),
        non_allies: 0,
        stronger_than_owner: 0,
        strongest_score: 0,
        strongest_slot: -1,
    };
    let mut subject_index: usize = 0;
    while subject_index < 8
        invariant
            subject_index <= 8,
            owner_who == state.owner.who,
            owner_score == state.leaders@[owner_index as int].score,
            scan_fold(state.leaders@, owner_who, owner_score, subject_index as int) is Ok,
            ({
                let m = scan_fold(state.leaders@, owner_who, owner_score, subject_index as int)->Ok_0;
                &&& receipt.ally_reads@ == m.ally_reads
                &&& receipt.non_allies == m.non_allies
                &&& receipt.stronger_than_owner == m.stronger_than_owner
                &&& receipt.strongest_score == m.strongest_score
                &&& receipt.strongest_slot == m.strongest_slot
            }),
        decreases 8 - subject_index,
    {
        proof {
            lemma_scan_reads_bounded(state.leaders@, owner_who, owner_score, subject_index as int);
        }
        let subject = state.leaders[subject_index];
        if subject.flags & LEADER_PLAYING == LEADER_PLAYING {
            let sequence = receipt.ally_reads.len() as u8;
            let ally = match read_is_ally(state, subject_index, owner_who, sequence) {
                Err(e) => {
                    proof {
                        lemma_scan_err_persists(state.leaders@, owner_who, owner_score, subject_index + 1, 8);
                    }
                    return Err(e);
                },
                Ok(a) => a,
            };
            if !ally.result {
                receipt.non_allies = receipt.non_allies.wrapping_add(1);
            }
            receipt.ally_reads.push(ally);
            if subject.score > owner_score {
                receipt.stronger_than_owner = receipt.stronger_than_owner.wrapping_add(1);
            }
            if subject.score >= receipt.strongest_score {
                receipt.strongest_score = subject.score;
                receipt.strongest_slot = subject_index as i32;
            }
        }
        subject_index = subject_index + 1;
    }
    Ok(receipt)
}

/// The period selection at `0x006BCAB7..0x006BCAF0`.
pub fn target_period(agree: i32, tribute_demanded: i32, counteroffer: i32, agenda: i32) -> (r: u32)
    ensures
        r == target_period_spec(agree, tribute_demanded, counteroffer, agenda),
{
    let mut period = NORMAL_PERIOD;
    if agree != 1 {
        if tribute_demanded != 0 {
            period = TRIBUTE_PERIOD;
        }
        if counteroffer != 0 {
            period = period.wrapping_mul(2);
        }
    }
    if agenda & AGENDA_SLOW_CADENCE == 0 {
        period = period >> 2;
    }
    period
}

/// The phase word: the target and eight times the owner, scaled by `period >> 6` and added
/// to the frame with wrapping dword arithmetic. Every reachable period is a power of two,
/// so the cadence test is a mask and no division occurs. The pair index itself must fit a
/// dword.
pub fn target_phase_word(frame: u32, owner_who: usize, target_index: usize, period: u32) -> (r: u32)
    requires
        (target_index as u32) + 8 * (owner_who as u32) <= u32::MAX,
    ensures
        r == phase_word_spec(frame, owner_who, target_index, period),
{
    let pair_index = target_index as u32 + 8 * owner_who as u32;
    frame.wrapping_add(pair_index.wrapping_mul(period >> 6))
}

/// The gated trace.
fn gated(gate: GateOutcome) -> (r: DiplomacyOpeningTrace)
    ensures
        r.gate == gate,
        r.scan is None,
        r.targets@.len() == 0,
        r.local_mutations@.len() == 0,
        r.residual is None,
{
    DiplomacyOpeningTrace {
        gate,
        scan: None,
        targets: Vec::new(),
        local_mutations: Vec::new(),
        residual: None,
    }
}

/// Execute only the opening cone. An owner `who` outside the array, or a scan read that
/// needs an impossible identity, is an error, and every such read completes before the
/// first possible store, so an error leaves `state` unchanged. A gated owner leaves it
/// unchanged too. Otherwise the scan is recorded and the targets are visited in order up to
/// and including the first that reaches the policy, whose pending agenda bit is cleared;
/// that store is the one mutation, and reaching it is the residual.
#[verifier::rlimit(40)]
pub fn execute_diplomacy_opening(state: &mut DiplomacyOpeningState, game: GameFacts) -> (r: Result<
    DiplomacyOpeningTrace,
    OpeningError,
>)
    ensures
        match owner_index_of(*old(state)) {
            None => r == Err::<DiplomacyOpeningTrace, OpeningError>(
                OpeningError::OwnerWhoOutsideArray { who: old(state).owner.who },
            ) && *final(state) == *old(state),
            Some(oi) => {
                let s = *old(state);
                let gate = gate_spec(s, oi, game);
                if gate != GateOutcome::Entered {
                    &&& r is Ok
                    &&& r->Ok_0.gate == gate
                    &&& r->Ok_0.scan is None
                    &&& r->Ok_0.targets@.len() == 0
                    &&& r->Ok_0.local_mutations@.len() == 0
                    &&& r->Ok_0.residual is None
                    &&& *final(state) == s
                } else {
                    match scan_fold(s.leaders@, s.owner.who, s.leaders@[oi as int].score, 8) {
                        Err(e) => r == Err::<DiplomacyOpeningTrace, OpeningError>(e) && *final(state)
                            == s,
                        Ok(m) => {
                            let t = r->Ok_0;
                            &&& r is Ok
                            &&& t.gate == GateOutcome::Entered
                            &&& t.scan is Some
                            &&& t.scan->Some_0.ally_reads@ == m.ally_reads
                            &&& t.scan->Some_0.non_allies == m.non_allies
                            &&& t.scan->Some_0.stronger_than_owner == m.stronger_than_owner
                            &&& t.scan->Some_0.strongest_score == m.strongest_score
                            &&& t.scan->Some_0.strongest_slot == m.strongest_slot
                            &&& match first_reached(s, oi, game.frame, 0) {
                                None => {
                                    &&& t.targets@ == Seq::new(8, |i: int| visit_spec(s, oi, game.frame, i))
                                    &&& t.local_mutations@.len() == 0
                                    &&& t.residual is None
                                    &&& *final(state) == s
                                },
                                Some(k) => {
                                    let o = target_outcome_spec(s, oi, game.frame, k as usize);
                                    let before = o->agenda_before;
                                    let after = o->agenda_after;
                                    &&& t.targets@ == Seq::new(
                                        (k + 1) as nat,
                                        |i: int| visit_spec(s, oi, game.frame, i),
                                    )
                                    &&& t.local_mutations@ == seq![
                                        AgendaMutationReceipt {
                                            instruction_va: AGENDA_CLEAR_VA,
                                            target_index: k as usize,
                                            before,
                                            after,
                                        },
                                    ]
                                    &&& t.residual == Some(
                                        OpenResidual::DownstreamPolicy {
                                            target_index: k as usize,
                                            first_unowned_va: DOWNSTREAM_POLICY_VA,
                                        },
                                    )
                                    &&& final(state).leaders == s.leaders
                                    &&& final(state).owner == (DiplomacyOwnerState {
                                        agendas: vstd::array::spec_array_update(
                                            s.owner.agendas,
                                            k,
                                            after,
                                        ),
                                        ..s.owner
                                    })
                                },
                            }
                        },
                    }
                }
            },
        },
{
    if state.owner.who < 0 || state.owner.who >= 8 {
        return Err(OpeningError::OwnerWhoOutsideArray { who: state.owner.who });
    }
    let owner_index = state.owner.who as usize;
    // `0x006BC99A` reads `leaders[this->who].leader_flags`, not `this->leader_flags`.
    if state.leaders[owner_index].flags & LEADER_HUMAN != 0 {
        return Ok(gated(GateOutcome::HumanOwner));
    }
    if game.check_victory_mode {
        return Ok(gated(GateOutcome::CheckVictoryMode));
    }
    if game.ai_off {
        return Ok(gated(GateOutcome::AiDisabled));
    }
    let scan = match scan_leaders(state, owner_index) {
        Err(e) => {
            return Err(e);
        },
        Ok(s) => s,
    };
    let ghost s0 = *state;
    let mut trace = DiplomacyOpeningTrace {
        gate: GateOutcome::Entered,
        scan: Some(scan),
        targets: Vec::new(),
        local_mutations: Vec::new(),
        residual: None,
    };
    let mut target_index: usize = 0;
    while target_index < 8
        invariant_except_break
            target_index <= 8,
            owner_index < 8,
            owner_index == s0.owner.who,
            *state == s0,
            trace.gate == GateOutcome::Entered,
            trace.scan == Some(scan),
            trace.local_mutations@.len() == 0,
            trace.residual is None,
            trace.targets@ == Seq::new(target_index as nat, |i: int| visit_spec(s0, owner_index, game.frame, i)),
            first_reached(s0, owner_index, game.frame, 0) == first_reached(
                s0,
                owner_index,
                game.frame,
                target_index as int,
            ),
        ensures
            owner_index < 8,
            trace.gate == GateOutcome::Entered,
            trace.scan == Some(scan),
            match first_reached(s0, owner_index, game.frame, 0) {
                None => {
                    &&& trace.targets@ == Seq::new(8, |i: int| visit_spec(s0, owner_index, game.frame, i))
                    &&& trace.local_mutations@.len() == 0
                    &&& trace.residual is None
                    &&& *state == s0
                },
                Some(k) => {
                    let o = target_outcome_spec(s0, owner_index, game.frame, k as usize);
                    &&& 0 <= k < 8
                    &&& trace.targets@ == Seq::new(
                        (k + 1) as nat,
                        |i: int| visit_spec(s0, owner_index, game.frame, i),
                    )
                    &&& trace.local_mutations@ == seq![
                        AgendaMutationReceipt {
                            instruction_va: AGENDA_CLEAR_VA,
                            target_index: k as usize,
                            before: o->agenda_before,
                            after: o->agenda_after,
                        },
                    ]
                    &&& trace.residual == Some(
                        OpenResidual::DownstreamPolicy {
                            target_index: k as usize,
                            first_unowned_va: DOWNSTREAM_POLICY_VA,
                        },
                    )
                    &&& state.leaders == s0.leaders
                    &&& state.owner == (DiplomacyOwnerState {
                        agendas: vstd::array::spec_array_update(s0.owner.agendas, k, o->agenda_after),
                        ..s0.owner
                    })
                },
            },
        decreases 8 - target_index,
    {
        let ghost outcome = target_outcome_spec(s0, owner_index, game.frame, target_index);
        let skip = if state.leaders[target_index].flags & LEADER_ACTIVE == 0 {
            Some(TargetSkip::ProcessFlagClear)
        } else if target_index == owner_index {
            Some(TargetSkip::OwnerSlot)
        } else if state.owner.treaties[target_index] & TREATY_ELIGIBLE == 0 {
            Some(TargetSkip::TreatyInactive)
        } else if state.owner.treaties[target_index] & TREATY_BLOCKED != 0 {
            Some(TargetSkip::TreatyBlocked)
        } else {
            None
        };
        let va = leader_va(target_index);
        let mut reached: Option<PolicyTrigger> = None;
        match skip {
            Some(sk) => {
                let v = TargetVisit { target_index, target_va: va, outcome: TargetOutcome::Skipped(sk) };
                trace.targets.push(v);
            },
            None => {
                let agenda_before = state.owner.agendas[target_index];
                if agenda_before & AGENDA_PENDING != 0 {
                    reached = Some(PolicyTrigger::PendingAgenda);
                } else {
                    let period = target_period(
                        state.owner.dip_agree[target_index],
                        state.owner.tribute_demanded[target_index],
                        state.owner.counteroffer[target_index],
                        agenda_before,
                    );
                    let phase_word = target_phase_word(game.frame, owner_index, target_index, period);
                    if phase_word & period.wrapping_sub(1) != 0 {
                        let v = TargetVisit {
                            target_index,
                            target_va: va,
                            outcome: TargetOutcome::Skipped(TargetSkip::CadenceMiss { period, phase_word }),
                        };
                        trace.targets.push(v);
                    } else {
                        reached = Some(PolicyTrigger::CadenceDue { period, phase_word });
                    }
                }
            },
        }
        match reached {
            None => {
                assert(trace.targets@ =~= Seq::new(
                    (target_index + 1) as nat,
                    |i: int| visit_spec(s0, owner_index, game.frame, i),
                ));
                target_index = target_index + 1;
            },
            Some(trigger) => {
                let agenda_before = state.owner.agendas[target_index];
                let agenda_after = agenda_before & !AGENDA_PENDING;
                state.owner.agendas[target_index] = agenda_after;
                trace.targets.push(
                    TargetVisit {
                        target_index,
                        target_va: va,
                        outcome: TargetOutcome::ReachedPolicy { trigger, agenda_before, agenda_after },
                    },
                );
                trace.local_mutations.push(
                    AgendaMutationReceipt {
                        instruction_va: AGENDA_CLEAR_VA,
                        target_index,
                        before: agenda_before,
                        after: agenda_after,
                    },
                );
                trace.residual = Some(
                    OpenResidual::DownstreamPolicy { target_index, first_unowned_va: DOWNSTREAM_POLICY_VA },
                );
                assert(trace.targets@ =~= Seq::new(
                    (target_index + 1) as nat,
                    |i: int| visit_spec(s0, owner_index, game.frame, i),
                ));
                assert(trace.local_mutations@ =~= seq![
                    AgendaMutationReceipt {
                        instruction_va: AGENDA_CLEAR_VA,
                        target_index,
                        before: agenda_before,
                        after: agenda_after,
                    },
                ]);
                break;
            },
        }
    }
    Ok(trace)
}

// ---------------------------------------------------------------------------------------
// Laws.
// ---------------------------------------------------------------------------------------

/// Every period the cadence can select is a power of two between `2^9` and `2^14`, so the
/// cadence test `phase & (period - 1)` is a remainder by the period.
pub proof fn lemma_target_period_is_a_power_of_two(agree: i32, tribute_demanded: i32, counteroffer: i32, agenda: i32)
    ensures
        ({
            let p = target_period_spec(agree, tribute_demanded, counteroffer, agenda);
            p == 0x200 || p == 0x400 || p == 0x800 || p == 0x1000 || p == 0x2000 || p == 0x4000
        }),
{
    assert((0x800u32 >> 2) == 0x200u32) by (bit_vector);
    assert((0x1000u32 >> 2) == 0x400u32) by (bit_vector);
    assert((0x2000u32 >> 2) == 0x800u32) by (bit_vector);
    assert((0x4000u32 >> 2) == 0x1000u32) by (bit_vector);
}


/// Law of the diplomacy opening's target filter: a target reaches the diplomacy policy only
/// when its leader is active, it is not the owner, and the owner's treaty word with it is
/// eligible (`0x1`) and not blocked (`0x4`). In particular an active non-owner target whose
/// treaty word is eligible and blocked is skipped as treaty-blocked, and a target whose
/// treaty word is blocked is never the one reached, so its agenda word is never cleared.
pub proof fn lemma_blocked_targets_never_reach_policy(s: DiplomacyOpeningState, owner_index: usize, frame: u32, t: usize)
    requires
        t < 8,
    ensures
        target_outcome_spec(s, owner_index, frame, t) is ReachedPolicy ==> {
            &&& s.leaders@[t as int].flags & LEADER_ACTIVE != 0
            &&& t != owner_index
            &&& s.owner.treaties@[t as int] & TREATY_ELIGIBLE != 0
            &&& s.owner.treaties@[t as int] & TREATY_BLOCKED == 0
        },
        s.leaders@[t as int].flags & LEADER_ACTIVE != 0 && t != owner_index && s.owner.treaties@[t as int]
            & TREATY_ELIGIBLE != 0 && s.owner.treaties@[t as int] & TREATY_BLOCKED != 0
            ==> target_outcome_spec(s, owner_index, frame, t) == TargetOutcome::Skipped(TargetSkip::TreatyBlocked),
        s.owner.treaties@[t as int] & TREATY_BLOCKED != 0 ==> first_reached(s, owner_index, frame, 0) != Some(
            t as int,
        ),
{
    lemma_first_reached_is_reached(s, owner_index, frame, 0);
}

proof fn lemma_first_reached_is_reached(s: DiplomacyOpeningState, owner_index: usize, frame: u32, t: int)
    ensures
        first_reached(s, owner_index, frame, t) matches Some(k) ==> 0 <= k < 8 && target_outcome_spec(
            s,
            owner_index,
            frame,
            k as usize,
        ) is ReachedPolicy,
    decreases 8 - t,
{
    if 0 <= t < 8 {
        lemma_first_reached_is_reached(s, owner_index, frame, t + 1);
    }
}

} // verus!
