//! Tick step 19, `Leader::process_event_frame` at `0x006EC180`.
//!
//! The scheduled dispatcher and all deterministic queue and rate mutations execute here.
//! Team-score reads, the encrypted age word, JukeBox and Achieve stay explicit typed
//! receipts. Every receipt shares one sequence domain, preserving the order between queue
//! folds, product reads, presentation calls, sentinel stores and the final current-event
//! clear.
//!
//! The contract is a fold: [`step19_run`] processes the leaders in address order, each one
//! producing a new leader table, a new music state, an outcome and a run of
//! [`Step19Effect`]s; the trace's four receipt lists are that effect run split by kind, each
//! receipt numbered by its position.
use vstd::prelude::*;

pub mod mood;

verus! {

/// `Leader::process_event_frame`.
pub const PROCESS_EVENT_FRAME_VA: u32 = 0x006e_c180;
/// PDB procedure size. The byte after the final `ret` is `0x006EC516`.
pub const PROCESS_EVENT_FRAME_SIZE: u32 = 918;
/// `Game::do_frame` step-19 dispatcher prefix and call site.
pub const DISPATCHER_VA: u32 = 0x0059_24a0;
pub const DISPATCH_CALL_VA: u32 = 0x0059_24ac;
/// `?leaders@@3VLeaders@@A`.
pub const LEADERS_BASE_VA: u32 = 0x00e3_a390;
/// `sizeof(Leader)` and the increments at `0x005924B1` / `0x006EC385`.
pub const LEADER_STRIDE: u32 = 0x6eec;
/// The dispatcher compares its cursor with this one-past-end address.
pub const LEADERS_END_VA: u32 = 0x00e7_1af0;
pub const RETAIL_LEADER_SLOTS: usize = 8;
/// `LeaderData::leader_flags & 1`, tested as a byte by both relevant loops.
pub const LEADER_IN_GAME_FLAG: u32 = 0x0000_0001;
pub const LEADER_WHO_OFFSET: u32 = 0x08;
pub const LEADER_DIPLOS_OFFSET: u32 = 0x74;
pub const LEADER_FRAME_BATTLE_OFFSET: u32 = 0x0a4c;
pub const LEADER_AVERAGE_DEATH_RATE_OFFSET: u32 = 0x0a50;
pub const LEADER_AVERAGE_KILL_RATE_OFFSET: u32 = 0x0a52;
pub const LEADER_AVERAGE_DAMAGE_RATE_OFFSET: u32 = 0x0a54;
pub const LEADER_AVERAGE_HIT_RATE_OFFSET: u32 = 0x0a56;
pub const LEADER_CURRENT_EVENTS_OFFSET: u32 = 0x0a58;
pub const LEADER_FIFTEEN_SECOND_EVENTS_OFFSET: u32 = 0x0a60;
pub const LEADER_DATA_ENCRYPTED_OFFSET: u32 = 0x6eb8;
pub const ENCRYPTED_AGES_OFFSET: u32 = 0x00dc;
pub const AGES_XOR_KEY: u32 = 0x0006_2766;
pub const GAME_FRAME_OFFSET: u32 = 0x550;
pub const CONSOLE_WHO_OFFSET: u32 = 0x298;
pub const CURRENT_MUSIC_MOOD_VA: u32 = 0x00ec_ba20;
pub const NEXT_MUSIC_MOOD_VA: u32 = 0x00ec_ba2c;
pub const EMPTY_STRING_VA: u32 = 0x00eb_437c;
pub const GET_TEAM_SCORE_VA: u32 = 0x006d_6520;
pub const JUKEBOX_SET_NEXT_MOOD_VA: u32 = 0x0097_d5d0;
pub const ACHIEVE_ADD_EVENT_VA: u32 = 0x007a_f660;
pub const EVENT_RATE_PERIOD: i32 = 50;
pub const EVENT_RATE_SCALE: u16 = 100;
pub const QUIET_MOOD_THRESHOLD: u32 = 300;
pub const ACTIVE_MOOD_THRESHOLD: u32 = 600;
pub const FORCE_MOOD_THRESHOLD: u32 = 2_000;
pub const TEAM_SCORE_BIAS: i32 = 200;
pub const BATTLE_COOLDOWN: i32 = 1_800;
pub const BATTLE_RATE_PER_AGE: i32 = 125;
pub const BATTLE_IMBALANCE_PER_AGE: i32 = 10;
pub const BATTLE_IMBALANCE_BASE: i32 = 20;
pub const BATTLE_RATE_SENTINEL: u16 = 0xfc18;

/// The address of leader `index`.
pub fn leader_va(index: usize) -> (r: u32)
    requires
        index < 8,
    ensures
        r == LEADERS_BASE_VA + index * LEADER_STRIDE,
{
    LEADERS_BASE_VA + index as u32 * LEADER_STRIDE
}

/// The `LeaderData +0xA4C..+0xA66` block.
#[derive(Clone, Copy, Debug, Default, PartialEq, Eq)]
pub struct EventQueueState {
    pub frame_battle: i32,
    pub average_death_rate: u16,
    pub average_kill_rate: u16,
    pub average_damage_rate: u16,
    pub average_hit_rate: u16,
    pub deaths_current_frame: u16,
    pub kills_current_frame: u16,
    pub hits_current_frame: u16,
    pub damage_current_frame: u16,
    pub deaths_fifteen_seconds: u16,
    pub kills_fifteen_seconds: u16,
    pub hits_fifteen_seconds: u16,
    pub damage_fifteen_seconds: u16,
}

/// The four current-frame counters, in memory order.
pub open spec fn current_events_of(q: EventQueueState) -> Seq<u16> {
    seq![q.deaths_current_frame, q.kills_current_frame, q.hits_current_frame, q.damage_current_frame]
}

/// The four fifteen-second totals, in memory order.
pub open spec fn fifteen_second_events_of(q: EventQueueState) -> Seq<u16> {
    seq![
        q.deaths_fifteen_seconds,
        q.kills_fifteen_seconds,
        q.hits_fifteen_seconds,
        q.damage_fifteen_seconds,
    ]
}

impl EventQueueState {
    pub fn current_events(&self) -> (r: [u16; 4])
        ensures
            r@ == current_events_of(*self),
    {
        let r = [
            self.deaths_current_frame,
            self.kills_current_frame,
            self.hits_current_frame,
            self.damage_current_frame,
        ];
        assert(r@ =~= current_events_of(*self));
        r
    }

    pub fn fifteen_second_events(&self) -> (r: [u16; 4])
        ensures
            r@ == fifteen_second_events_of(*self),
    {
        let r = [
            self.deaths_fifteen_seconds,
            self.kills_fifteen_seconds,
            self.hits_fifteen_seconds,
            self.damage_fifteen_seconds,
        ];
        assert(r@ =~= fifteen_second_events_of(*self));
        r
    }
}

#[derive(Clone, Copy, Debug, Default, PartialEq, Eq)]
pub struct LeaderSlot {
    pub flags: u32,
    pub who: i32,
    pub diplos: [i32; 8],
    pub event_queue: EventQueueState,
}

#[derive(Clone, Copy, Debug, Default, PartialEq, Eq)]
pub struct MusicState {
    /// Product global at [`CURRENT_MUSIC_MOOD_VA`]. The body only reads it.
    pub current_mood: i32,
    /// Product global at [`NEXT_MUSIC_MOOD_VA`]. The body writes it before JukeBox.
    pub next_mood: i32,
}

#[derive(Clone, Debug, Default, PartialEq, Eq)]
pub struct Step19State {
    pub leaders: [LeaderSlot; 8],
    pub music: MusicState,
}

/// Product reads which the body reaches but this owner cannot derive. Scores are keyed by
/// leader record, while encrypted ages are keyed by `LeaderData::who`, matching the two
/// distinct addressing expressions of the instructions.
#[derive(Clone, Copy, Debug, PartialEq, Eq)]
pub struct ProductFacts {
    pub frame: i32,
    pub console_who: i32,
    pub team_scores: [Option<i32>; 8],
    pub encrypted_ages: [Option<u32>; 8],
}

impl Default for ProductFacts {
    fn default() -> (r: Self)
        ensures
            r.frame == 0,
            r.console_who == -1,
            forall|i: int| 0 <= i < 8 ==> r.team_scores@[i] is None && r.encrypted_ages@[i] is None,
    {
        ProductFacts {
            frame: 0,
            console_who: -1,
            team_scores: [None, None, None, None, None, None, None, None],
            encrypted_ages: [None, None, None, None, None, None, None, None],
        }
    }
}

/// The two achievement events; `code` gives the number the engine passes for each.
#[derive(Clone, Copy, Debug, PartialEq, Eq)]
pub enum BattleEventKind {
    KillsOverDeaths,
    DeathsOverKills,
}

impl BattleEventKind {
    /// The event number: 0 for kills over deaths, 1 for deaths over kills.
    pub fn code(self) -> (r: i32)
        ensures
            r == (match self {
                BattleEventKind::KillsOverDeaths => 0i32,
                BattleEventKind::DeathsOverKills => 1i32,
            }),
    {
        match self {
            BattleEventKind::KillsOverDeaths => 0,
            BattleEventKind::DeathsOverKills => 1,
        }
    }
}

#[derive(Clone, Copy, Debug, PartialEq, Eq)]
pub enum LeaderOutcome {
    NotVisited,
    InGameFlagClear,
    FrameNotDue,
    Due { requested_mood: Option<i32>, battle_event: Option<BattleEventKind>, residuals: u8 },
}

impl Default for LeaderOutcome {
    fn default() -> (r: Self)
        ensures
            r == LeaderOutcome::NotVisited,
    {
        LeaderOutcome::NotVisited
    }
}

#[derive(Clone, Copy, Debug, Default, PartialEq, Eq)]
pub struct LeaderVisit {
    pub leader_index: usize,
    pub leader_va: u32,
    pub outcome: LeaderOutcome,
}

#[derive(Clone, Copy, Debug, PartialEq, Eq)]
pub enum LocalMutation {
    /// Raw-current wrapping accumulation, the temporary `current*100` stores, and all
    /// four average writes. The final current-event clear is a later mutation.
    FoldEventQueue { leader_index: usize, before: EventQueueState, after: EventQueueState },
    NextMusicMood { leader_index: usize, before: i32, after: i32 },
    BattleRateSentinels { leader_index: usize, before: [u16; 2], after: [u16; 2] },
    BattleFrameStamp { leader_index: usize, before: i32, after: i32 },
    ClearCurrentEvents { leader_index: usize, before: [u16; 4], after: [u16; 4] },
}

#[derive(Clone, Copy, Debug, PartialEq, Eq)]
pub struct LocalMutationReceipt {
    pub sequence: u16,
    pub mutation: LocalMutation,
}

#[derive(Clone, Copy, Debug, PartialEq, Eq)]
pub enum ProductRead {
    TeamScore { call_va: u32, owner_leader_index: usize, queried_leader_index: usize, value: i32 },
    EncryptedAge {
        owner_leader_index: usize,
        who_index: usize,
        encrypted: u32,
        xor_key: u32,
        decoded: i32,
    },
}

#[derive(Clone, Copy, Debug, PartialEq, Eq)]
pub struct ProductReadReceipt {
    pub sequence: u16,
    pub read: ProductRead,
}

#[derive(Clone, Copy, Debug, PartialEq, Eq)]
pub enum HostTail {
    /// The requested mood is stored in the global first; the call itself receives only
    /// the boolean and owns wall-clock and audio behavior.
    JukeBoxSetNextMood { call_va: u32, requested_mood: i32, force: bool },
    AchieveAddEvent { call_va: u32, kind: BattleEventKind, who: i32, empty_string_va: u32 },
}

#[derive(Clone, Copy, Debug, PartialEq, Eq)]
pub struct HostTailReceipt {
    pub sequence: u16,
    pub leader_index: usize,
    pub host_tail: HostTail,
}

/// Facts the engine assumes by construction. A headless adapter must provide the missing
/// fact rather than letting an out-of-range read or a made-up zero decide state.
#[derive(Clone, Copy, Debug, PartialEq, Eq)]
pub enum OpenResidual {
    LeaderWhoOutsideArray { who: i32 },
    OtherWhoOutsideArray { other_leader_index: usize, who: i32 },
    TeamScoreUnavailable { queried_leader_index: usize },
    EncryptedAgeUnavailable { who_index: usize },
}

#[derive(Clone, Copy, Debug, PartialEq, Eq)]
pub struct ResidualReceipt {
    pub sequence: u16,
    pub leader_index: usize,
    pub residual: OpenResidual,
}

#[derive(Clone, Debug, PartialEq, Eq)]
pub struct Step19Trace {
    /// Always eight entries in address order, including gated slots.
    pub visits: [LeaderVisit; 8],
    pub local_mutations: Vec<LocalMutationReceipt>,
    pub product_reads: Vec<ProductReadReceipt>,
    pub host_tails: Vec<HostTailReceipt>,
    pub residuals: Vec<ResidualReceipt>,
    pub total_sequenced_effects: u16,
}

/// One sequenced effect of the step, before it is filed into its receipt list.
#[derive(Clone, Copy, Debug, PartialEq, Eq)]
pub enum Step19Effect {
    Local(LocalMutation),
    Read(ProductRead),
    Tail { leader_index: usize, host_tail: HostTail },
    Residual { leader_index: usize, residual: OpenResidual },
}

// ---------------------------------------------------------------------------------------
// The model.
// ---------------------------------------------------------------------------------------

/// One rate: the current count scaled by 100 in a word, and the new average, which decays
/// to seven eighths on a zero word and otherwise averages with it.
pub open spec fn fold_rate_spec(current: u16, average: u16) -> (u16, u16) {
    let scaled = current.wrapping_mul(EVENT_RATE_SCALE);
    if scaled == 0 {
        (scaled, (average * 7 / 8) as u16)
    } else {
        (scaled, ((scaled + average) / 2) as u16)
    }
}

/// The queue fold: raw counts are added (wrapping) to the fifteen-second totals, then each
/// current slot and its average go through [`fold_rate_spec`].
pub open spec fn fold_queue_spec(q: EventQueueState) -> EventQueueState {
    let d = fold_rate_spec(q.deaths_current_frame, q.average_death_rate);
    let k = fold_rate_spec(q.kills_current_frame, q.average_kill_rate);
    let h = fold_rate_spec(q.hits_current_frame, q.average_hit_rate);
    let m = fold_rate_spec(q.damage_current_frame, q.average_damage_rate);
    EventQueueState {
        frame_battle: q.frame_battle,
        average_death_rate: d.1,
        average_kill_rate: k.1,
        average_damage_rate: m.1,
        average_hit_rate: h.1,
        deaths_current_frame: d.0,
        kills_current_frame: k.0,
        hits_current_frame: h.0,
        damage_current_frame: m.0,
        deaths_fifteen_seconds: q.deaths_fifteen_seconds.wrapping_add(q.deaths_current_frame),
        kills_fifteen_seconds: q.kills_fifteen_seconds.wrapping_add(q.kills_current_frame),
        hits_fifteen_seconds: q.hits_fifteen_seconds.wrapping_add(q.hits_current_frame),
        damage_fifteen_seconds: q.damage_fifteen_seconds.wrapping_add(q.damage_current_frame),
    }
}

/// The effect of a team-score query: the read when the product supplied the score, else a
/// residual.
pub open spec fn team_score_effect(product: ProductFacts, owner: usize, queried: usize) -> Step19Effect {
    match product.team_scores@[queried as int] {
        Some(value) => Step19Effect::Read(
            ProductRead::TeamScore {
                call_va: GET_TEAM_SCORE_VA,
                owner_leader_index: owner,
                queried_leader_index: queried,
                value,
            },
        ),
        None => Step19Effect::Residual {
            leader_index: owner,
            residual: OpenResidual::TeamScoreUnavailable { queried_leader_index: queried },
        },
    }
}

/// Signed division truncated toward zero, as the instructions compute it.
pub open spec fn trunc_div(x: int, d: int) -> int {
    if x >= 0 {
        x / d
    } else {
        -((-x) / d)
    }
}

/// The enemy scan of leader `i` (whose `who` indexes `lw`) over records `0..j`: the
/// strongest hostile score, whether every needed fact was present, and the effects.
/// A record is skipped when out of the game or of the same `who`; it is hostile when its
/// relation to `lw` is zero, or else when `lw`'s relation to it is zero (an out-of-range
/// `who` there is a residual); a hostile record with some hit or damage rate is queried.
pub open spec fn hostile_scan(
    leaders: Seq<LeaderSlot>,
    product: ProductFacts,
    i: usize,
    lw: int,
    j: int,
) -> (i32, bool, Seq<Step19Effect>)
    decreases j,
{
    if j <= 0 {
        (0i32, true, Seq::empty())
    } else {
        let (best, complete, eff) = hostile_scan(leaders, product, i, lw, j - 1);
        let o = leaders[j - 1];
        if o.flags & LEADER_IN_GAME_FLAG == 0 || o.who == leaders[i as int].who {
            (best, complete, eff)
        } else if o.diplos@[lw] != 0 && (o.who < 0 || o.who >= 8) {
            (
                best,
                false,
                eff.push(
                    Step19Effect::Residual {
                        leader_index: i,
                        residual: OpenResidual::OtherWhoOutsideArray {
                            other_leader_index: (j - 1) as usize,
                            who: o.who,
                        },
                    },
                ),
            )
        } else if (o.diplos@[lw] != 0 && leaders[lw].diplos@[o.who as int] != 0) || (
        o.event_queue.average_hit_rate == 0 && o.event_queue.average_damage_rate == 0) {
            (best, complete, eff)
        } else {
            let x = team_score_effect(product, i, (j - 1) as usize);
            match product.team_scores@[j - 1] {
                Some(v) => (if v > best { v } else { best }, complete, eff.push(x)),
                None => (best, false, eff.push(x)),
            }
        }
    }
}

/// The winning or losing mood from the leader's own score, the strongest hostile score and
/// its folded queue: hit rate minus damage rate, biased up when the own score is at least
/// four thirds of the hostile one, down when it is at most three quarters of it.
pub open spec fn active_mood_spec(own: i32, best: i32, q: EventQueueState) -> i32 {
    let balance = (q.average_hit_rate as i32).wrapping_sub(q.average_damage_rate as i32);
    let balance = if own >= trunc_div(best.wrapping_mul(4) as int, 3) {
        balance.wrapping_add(TEAM_SCORE_BIAS)
    } else if own <= trunc_div(best.wrapping_mul(3) as int, 4) {
        balance.wrapping_sub(TEAM_SCORE_BIAS)
    } else {
        balance
    };
    if balance < 0 {
        mood::LOSING
    } else {
        mood::WINNING
    }
}

/// The busy-combat branch for leader `i`: its own score is queried first; an
/// out-of-range `who` ends it; otherwise the enemy scan runs and, when every fact was
/// present, a mood and the force flag come out.
pub open spec fn resolve_mood_spec(
    leaders: Seq<LeaderSlot>,
    music: MusicState,
    product: ProductFacts,
    i: usize,
    combat_sum: int,
) -> (Option<(i32, bool)>, Seq<Step19Effect>) {
    let e0 = seq![team_score_effect(product, i, i)];
    let lw = leaders[i as int].who;
    if lw < 0 || lw >= 8 {
        (
            None,
            e0.push(
                Step19Effect::Residual {
                    leader_index: i,
                    residual: OpenResidual::LeaderWhoOutsideArray { who: lw },
                },
            ),
        )
    } else {
        let (best, complete, e) = hostile_scan(leaders, product, i, lw as int, 8);
        match product.team_scores@[i as int] {
            Some(own) => if complete {
                (
                    Some(
                        (
                            active_mood_spec(own, best, leaders[i as int].event_queue),
                            music.current_mood == mood::QUIET && combat_sum
                                >= FORCE_MOOD_THRESHOLD,
                        ),
                    ),
                    e0 + e,
                )
            } else {
                (None, e0 + e)
            },
            None => (None, e0 + e),
        }
    }
}

/// What the console's leader asks of the music, with the effects of asking: only the
/// console's leader takes part; a quiet summary asks for the quiet mood (forced when both
/// rates are zero), a middling one asks nothing, a busy one resolves the mood.
pub open spec fn mood_request(
    leaders: Seq<LeaderSlot>,
    music: MusicState,
    product: ProductFacts,
    i: usize,
) -> (Option<(i32, bool)>, Seq<Step19Effect>) {
    let l = leaders[i as int];
    let q = l.event_queue;
    let combat_sum = q.average_hit_rate + q.average_damage_rate;
    if l.who != product.console_who {
        (None, Seq::empty())
    } else if combat_sum < QUIET_MOOD_THRESHOLD {
        (Some((mood::QUIET, q.average_hit_rate == 0 && q.average_damage_rate == 0)), Seq::empty())
    } else if combat_sum < ACTIVE_MOOD_THRESHOLD {
        (None, Seq::empty())
    } else {
        resolve_mood_spec(leaders, music, product, i, combat_sum)
    }
}

/// The music part of a due leader `i` whose queue is folded in `leaders`: a requested mood
/// is stored, and JukeBox is called when it differs from the current mood.
#[verifier::opaque]
pub open spec fn mood_part(
    leaders: Seq<LeaderSlot>,
    music: MusicState,
    product: ProductFacts,
    i: usize,
) -> (Option<i32>, MusicState, Seq<Step19Effect>) {
    let (mf, em) = mood_request(leaders, music, product, i);
    match mf {
        None => (None, music, em),
        Some((m, force)) => {
            let stored = em.push(
                Step19Effect::Local(
                    LocalMutation::NextMusicMood { leader_index: i, before: music.next_mood, after: m },
                ),
            );
            (
                Some(m),
                MusicState { next_mood: m, ..music },
                if music.current_mood != m {
                    stored.push(
                        Step19Effect::Tail {
                            leader_index: i,
                            host_tail: HostTail::JukeBoxSetNextMood {
                                call_va: JUKEBOX_SET_NEXT_MOOD_VA,
                                requested_mood: m,
                                force,
                            },
                        },
                    )
                } else {
                    stored
                },
            )
        },
    }
}

/// The age read of leader `i` of the given `who`: the decoded age when the `who` indexes
/// the table and the product supplied the word, with the read or residual it files.
pub open spec fn age_part(product: ProductFacts, i: usize, who: i32) -> (Option<i32>, Step19Effect) {
    if who < 0 || who >= 8 {
        (
            None,
            Step19Effect::Residual {
                leader_index: i,
                residual: OpenResidual::LeaderWhoOutsideArray { who },
            },
        )
    } else {
        match product.encrypted_ages@[who as int] {
            Some(encrypted) => {
                let decoded = (encrypted ^ AGES_XOR_KEY) as i32;
                (
                    Some(decoded),
                    Step19Effect::Read(
                        ProductRead::EncryptedAge {
                            owner_leader_index: i,
                            who_index: who as usize,
                            encrypted,
                            xor_key: AGES_XOR_KEY,
                            decoded,
                        },
                    ),
                )
            },
            None => (
                None,
                Step19Effect::Residual {
                    leader_index: i,
                    residual: OpenResidual::EncryptedAgeUnavailable { who_index: who as usize },
                },
            ),
        }
    }
}

/// The battle achievement of a folded queue at `frame` for `age`: none while the combined
/// death and kill rate is below `(age + 1) * 125` or within the cooldown of the last one;
/// otherwise deaths over kills, or kills over deaths, by at least `age * 10 + 20`.
pub open spec fn battle_kind_spec(q: EventQueueState, frame: i32, age: i32) -> Option<BattleEventKind> {
    let combined = (q.average_death_rate as i32).wrapping_add(q.average_kill_rate as i32);
    let minimum = age.wrapping_add(1).wrapping_mul(BATTLE_RATE_PER_AGE);
    if combined < minimum || (q.frame_battle != 0 && frame.wrapping_sub(q.frame_battle)
        < BATTLE_COOLDOWN) {
        None
    } else {
        let imbalance = age.wrapping_mul(BATTLE_IMBALANCE_PER_AGE).wrapping_add(
            BATTLE_IMBALANCE_BASE,
        );
        let deaths = q.average_death_rate as i32;
        let kills = q.average_kill_rate as i32;
        if deaths >= kills.wrapping_add(imbalance) {
            Some(BattleEventKind::DeathsOverKills)
        } else if kills >= deaths.wrapping_add(imbalance) {
            Some(BattleEventKind::KillsOverDeaths)
        } else {
            None
        }
    }
}

/// The achievement part of a due leader `i` of `who` with folded queue `q`: the event, the
/// queue after the sentinel and frame stores, and the effects from the age read on.
#[verifier::opaque]
pub open spec fn battle_part(q: EventQueueState, product: ProductFacts, i: usize, who: i32) -> (
    Option<BattleEventKind>,
    EventQueueState,
    Seq<Step19Effect>,
) {
    let (age, ea) = age_part(product, i, who);
    let battle = match age {
        Some(a) => battle_kind_spec(q, product.frame, a),
        None => None,
    };
    match battle {
        None => (None, q, seq![ea]),
        Some(kind) => (
            battle,
            EventQueueState {
                average_death_rate: BATTLE_RATE_SENTINEL,
                average_kill_rate: BATTLE_RATE_SENTINEL,
                frame_battle: product.frame,
                ..q
            },
            seq![
                ea,
                Step19Effect::Tail {
                    leader_index: i,
                    host_tail: HostTail::AchieveAddEvent {
                        call_va: ACHIEVE_ADD_EVENT_VA,
                        kind,
                        who,
                        empty_string_va: EMPTY_STRING_VA,
                    },
                },
                Step19Effect::Local(
                    LocalMutation::BattleRateSentinels {
                        leader_index: i,
                        before: [q.average_death_rate, q.average_kill_rate],
                        after: [BATTLE_RATE_SENTINEL, BATTLE_RATE_SENTINEL],
                    },
                ),
                Step19Effect::Local(
                    LocalMutation::BattleFrameStamp {
                        leader_index: i,
                        before: q.frame_battle,
                        after: product.frame,
                    },
                ),
            ],
        ),
    }
}

/// The number of residuals in an effect run.
pub open spec fn residual_count(s: Seq<Step19Effect>) -> nat
    decreases s.len(),
{
    if s.len() == 0 {
        0
    } else {
        residual_count(s.drop_last()) + if s.last() is Residual {
            1nat
        } else {
            0nat
        }
    }
}

/// The queue with its four current counters zeroed.
pub open spec fn cleared(q: EventQueueState) -> EventQueueState {
    EventQueueState {
        deaths_current_frame: 0,
        kills_current_frame: 0,
        hits_current_frame: 0,
        damage_current_frame: 0,
        ..q
    }
}

/// One leader of the dispatcher: the new leader table, music state, outcome and effects.
/// A leader out of the game, or any leader on a frame that is not a multiple of 50, is
/// left alone; a due leader folds its queue, takes the music part, the achievement part,
/// and clears its current counters.
pub open spec fn leader_step19(
    leaders: Seq<LeaderSlot>,
    music: MusicState,
    product: ProductFacts,
    i: usize,
) -> (Seq<LeaderSlot>, MusicState, LeaderOutcome, Seq<Step19Effect>) {
    let l = leaders[i as int];
    if l.flags & LEADER_IN_GAME_FLAG == 0 {
        (leaders, music, LeaderOutcome::InGameFlagClear, Seq::empty())
    } else if product.frame % EVENT_RATE_PERIOD != 0 {
        (leaders, music, LeaderOutcome::FrameNotDue, Seq::empty())
    } else {
        let q1 = fold_queue_spec(l.event_queue);
        let ls1 = leaders.update(i as int, LeaderSlot { event_queue: q1, ..l });
        let e1 = seq![
            Step19Effect::Local(
                LocalMutation::FoldEventQueue { leader_index: i, before: l.event_queue, after: q1 },
            ),
        ];
        let (requested_mood, music2, em) = mood_part(ls1, music, product, i);
        let (battle_event, q2, eb) = battle_part(q1, product, i, l.who);
        let q3 = cleared(q2);
        let ec = seq![
            Step19Effect::Local(
                LocalMutation::ClearCurrentEvents {
                    leader_index: i,
                    before: [
                        q2.deaths_current_frame,
                        q2.kills_current_frame,
                        q2.hits_current_frame,
                        q2.damage_current_frame,
                    ],
                    after: [0u16, 0u16, 0u16, 0u16],
                },
            ),
        ];
        let e = e1 + em + eb + ec;
        (
            leaders.update(i as int, LeaderSlot { event_queue: q3, ..l }),
            music2,
            LeaderOutcome::Due { requested_mood, battle_event, residuals: residual_count(e) as u8 },
            e,
        )
    }
}

/// Leaders `0..k` in address order: the leader table and music state after them, their
/// outcomes, and the effects they produced in order.
pub open spec fn step19_run(
    leaders: Seq<LeaderSlot>,
    music: MusicState,
    product: ProductFacts,
    k: int,
) -> (Seq<LeaderSlot>, MusicState, Seq<LeaderOutcome>, Seq<Step19Effect>)
    decreases k,
{
    if k <= 0 {
        (leaders, music, Seq::empty(), Seq::empty())
    } else {
        let (ls, mu, outs, eff) = step19_run(leaders, music, product, k - 1);
        let (ls2, mu2, out, e) = leader_step19(ls, mu, product, (k - 1) as usize);
        (ls2, mu2, outs.push(out), eff + e)
    }
}

/// The local-mutation receipts of an effect run, numbered by position.
pub open spec fn locals_of(s: Seq<Step19Effect>) -> Seq<LocalMutationReceipt>
    decreases s.len(),
{
    if s.len() == 0 {
        Seq::empty()
    } else {
        let p = locals_of(s.drop_last());
        match s.last() {
            Step19Effect::Local(m) => p.push(
                LocalMutationReceipt { sequence: (s.len() - 1) as u16, mutation: m },
            ),
            _ => p,
        }
    }
}

/// The product-read receipts of an effect run, numbered by position.
pub open spec fn reads_of(s: Seq<Step19Effect>) -> Seq<ProductReadReceipt>
    decreases s.len(),
{
    if s.len() == 0 {
        Seq::empty()
    } else {
        let p = reads_of(s.drop_last());
        match s.last() {
            Step19Effect::Read(r) => p.push(
                ProductReadReceipt { sequence: (s.len() - 1) as u16, read: r },
            ),
            _ => p,
        }
    }
}

/// The host-tail receipts of an effect run, numbered by position.
pub open spec fn tails_of(s: Seq<Step19Effect>) -> Seq<HostTailReceipt>
    decreases s.len(),
{
    if s.len() == 0 {
        Seq::empty()
    } else {
        let p = tails_of(s.drop_last());
        match s.last() {
            Step19Effect::Tail { leader_index, host_tail } => p.push(
                HostTailReceipt { sequence: (s.len() - 1) as u16, leader_index, host_tail },
            ),
            _ => p,
        }
    }
}

/// The residual receipts of an effect run, numbered by position.
pub open spec fn residuals_of(s: Seq<Step19Effect>) -> Seq<ResidualReceipt>
    decreases s.len(),
{
    if s.len() == 0 {
        Seq::empty()
    } else {
        let p = residuals_of(s.drop_last());
        match s.last() {
            Step19Effect::Residual { leader_index, residual } => p.push(
                ResidualReceipt { sequence: (s.len() - 1) as u16, leader_index, residual },
            ),
            _ => p,
        }
    }
}

/// The trace files exactly the effect run `eff`.
pub open spec fn trace_files(t: Step19Trace, eff: Seq<Step19Effect>) -> bool {
    &&& t.local_mutations@ == locals_of(eff)
    &&& t.product_reads@ == reads_of(eff)
    &&& t.host_tails@ == tails_of(eff)
    &&& t.residuals@ == residuals_of(eff)
    &&& t.total_sequenced_effects == eff.len()
}

// ---------------------------------------------------------------------------------------
// Proofs about the filing of effects.
// ---------------------------------------------------------------------------------------

/// Filing one more effect appends at most one receipt, to its own list.
proof fn lemma_file_push(eff: Seq<Step19Effect>, x: Step19Effect)
    ensures
        locals_of(eff.push(x)) == match x {
            Step19Effect::Local(m) => locals_of(eff).push(
                LocalMutationReceipt { sequence: eff.len() as u16, mutation: m },
            ),
            _ => locals_of(eff),
        },
        reads_of(eff.push(x)) == match x {
            Step19Effect::Read(r) => reads_of(eff).push(
                ProductReadReceipt { sequence: eff.len() as u16, read: r },
            ),
            _ => reads_of(eff),
        },
        tails_of(eff.push(x)) == match x {
            Step19Effect::Tail { leader_index, host_tail } => tails_of(eff).push(
                HostTailReceipt { sequence: eff.len() as u16, leader_index, host_tail },
            ),
            _ => tails_of(eff),
        },
        residuals_of(eff.push(x)) == match x {
            Step19Effect::Residual { leader_index, residual } => residuals_of(eff).push(
                ResidualReceipt { sequence: eff.len() as u16, leader_index, residual },
            ),
            _ => residuals_of(eff),
        },
{
    assert(eff.push(x).drop_last() =~= eff);
}

/// The residual list of a run has one receipt per residual effect.
proof fn lemma_residuals_len(s: Seq<Step19Effect>)
    ensures
        residuals_of(s).len() == residual_count(s),
        residual_count(s) <= s.len(),
    decreases s.len(),
{
    if s.len() > 0 {
        lemma_residuals_len(s.drop_last());
    }
}

/// Residuals of a concatenation add up.
proof fn lemma_residual_count_concat(a: Seq<Step19Effect>, b: Seq<Step19Effect>)
    ensures
        residual_count(a + b) == residual_count(a) + residual_count(b),
    decreases b.len(),
{
    if b.len() > 0 {
        assert((a + b).drop_last() =~= a + b.drop_last());
        lemma_residual_count_concat(a, b.drop_last());
    } else {
        assert(a + b =~= a);
    }
}

/// The enemy scan files at most one effect per record.
proof fn lemma_scan_len(
    leaders: Seq<LeaderSlot>,
    product: ProductFacts,
    i: usize,
    lw: int,
    j: int,
)
    requires
        0 <= j,
    ensures
        hostile_scan(leaders, product, i, lw, j).2.len() <= j,
    decreases j,
{
    if j > 0 {
        lemma_scan_len(leaders, product, i, lw, j - 1);
    }
}

/// A frame's signed remainder by 50 is zero exactly when its floor remainder is.
proof fn lemma_rem_period(x: i32)
    ensures
        x.checked_rem(EVENT_RATE_PERIOD) is Some,
        (x.checked_rem(EVENT_RATE_PERIOD)->0 == 0) <==> (x % EVENT_RATE_PERIOD == 0),
{
    if x < 0 {
        let y = -(x as int);
        assert((y % 50 == 0) <==> ((x as int) % 50 == 0)) by (nonlinear_arith)
            requires
                y == -(x as int),
        ;
    }
}

// ---------------------------------------------------------------------------------------
// The body.
// ---------------------------------------------------------------------------------------

impl Default for Step19Trace {
    /// The trace before any leader is visited: every visit names its leader and address and
    /// is not visited, and no receipt is filed.
    fn default() -> (r: Self)
        ensures
            trace_files(r, Seq::empty()),
            forall|i: int|
                0 <= i < 8 ==> (#[trigger] r.visits@[i]).leader_index == i && r.visits@[i].leader_va
                    == LEADERS_BASE_VA + i * LEADER_STRIDE && r.visits@[i].outcome
                    == LeaderOutcome::NotVisited,
    {
        Step19Trace::fresh()
    }
}

impl Step19Trace {
    /// The trace before any leader is visited.
    fn fresh() -> (r: Step19Trace)
        ensures
            trace_files(r, Seq::empty()),
            forall|i: int|
                0 <= i < 8 ==> (#[trigger] r.visits@[i]).leader_index == i && r.visits@[i].leader_va
                    == LEADERS_BASE_VA + i * LEADER_STRIDE && r.visits@[i].outcome
                    == LeaderOutcome::NotVisited,
    {
        let visits = [
            LeaderVisit { leader_index: 0, leader_va: leader_va(0), outcome: LeaderOutcome::NotVisited },
            LeaderVisit { leader_index: 1, leader_va: leader_va(1), outcome: LeaderOutcome::NotVisited },
            LeaderVisit { leader_index: 2, leader_va: leader_va(2), outcome: LeaderOutcome::NotVisited },
            LeaderVisit { leader_index: 3, leader_va: leader_va(3), outcome: LeaderOutcome::NotVisited },
            LeaderVisit { leader_index: 4, leader_va: leader_va(4), outcome: LeaderOutcome::NotVisited },
            LeaderVisit { leader_index: 5, leader_va: leader_va(5), outcome: LeaderOutcome::NotVisited },
            LeaderVisit { leader_index: 6, leader_va: leader_va(6), outcome: LeaderOutcome::NotVisited },
            LeaderVisit { leader_index: 7, leader_va: leader_va(7), outcome: LeaderOutcome::NotVisited },
        ];
        Step19Trace {
            visits,
            local_mutations: Vec::new(),
            product_reads: Vec::new(),
            host_tails: Vec::new(),
            residuals: Vec::new(),
            total_sequenced_effects: 0,
        }
    }

    /// File one effect under the next sequence number.
    fn push_effect(&mut self, x: Step19Effect, Ghost(eff): Ghost<Seq<Step19Effect>>)
        requires
            trace_files(*old(self), eff),
            eff.len() < 0xffff,
        ensures
            trace_files(*final(self), eff.push(x)),
            final(self).visits == old(self).visits,
    {
        proof {
            lemma_file_push(eff, x);
        }
        let sequence = self.total_sequenced_effects;
        self.total_sequenced_effects = sequence + 1;
        match x {
            Step19Effect::Local(mutation) => {
                self.local_mutations.push(LocalMutationReceipt { sequence, mutation });
            },
            Step19Effect::Read(read) => {
                self.product_reads.push(ProductReadReceipt { sequence, read });
            },
            Step19Effect::Tail { leader_index, host_tail } => {
                self.host_tails.push(HostTailReceipt { sequence, leader_index, host_tail });
            },
            Step19Effect::Residual { leader_index, residual } => {
                self.residuals.push(ResidualReceipt { sequence, leader_index, residual });
            },
        }
    }
}

/// One rate of the fold: `imul reg,reg,100` is followed by a word store and a word test.
fn fold_rate(current: u16, average: u16) -> (r: (u16, u16))
    ensures
        r == fold_rate_spec(current, average),
{
    let scaled = current.wrapping_mul(EVENT_RATE_SCALE);
    let next_average = if scaled == 0 {
        ((average as u32 * 7) / 8) as u16
    } else {
        ((scaled as u32 + average as u32) / 2) as u16
    };
    (scaled, next_average)
}

/// The queue fold; the four totals receive raw counts before the current slots are scaled.
fn fold_event_queue(queue: &mut EventQueueState)
    ensures
        *final(queue) == fold_queue_spec(*old(queue)),
{
    queue.deaths_fifteen_seconds = queue.deaths_fifteen_seconds.wrapping_add(
        queue.deaths_current_frame,
    );
    queue.damage_fifteen_seconds = queue.damage_fifteen_seconds.wrapping_add(
        queue.damage_current_frame,
    );
    queue.kills_fifteen_seconds = queue.kills_fifteen_seconds.wrapping_add(
        queue.kills_current_frame,
    );
    queue.hits_fifteen_seconds = queue.hits_fifteen_seconds.wrapping_add(queue.hits_current_frame);
    let (d, da) = fold_rate(queue.deaths_current_frame, queue.average_death_rate);
    queue.deaths_current_frame = d;
    queue.average_death_rate = da;
    let (k, ka) = fold_rate(queue.kills_current_frame, queue.average_kill_rate);
    queue.kills_current_frame = k;
    queue.average_kill_rate = ka;
    let (h, ha) = fold_rate(queue.hits_current_frame, queue.average_hit_rate);
    queue.hits_current_frame = h;
    queue.average_hit_rate = ha;
    let (m, ma) = fold_rate(queue.damage_current_frame, queue.average_damage_rate);
    queue.damage_current_frame = m;
    queue.average_damage_rate = ma;
}

/// `get_team_score` for `queried`, on behalf of `owner`.
fn read_team_score(
    trace: &mut Step19Trace,
    product: ProductFacts,
    owner_leader_index: usize,
    queried_leader_index: usize,
    Ghost(eff): Ghost<Seq<Step19Effect>>,
) -> (r: Option<i32>)
    requires
        queried_leader_index < 8,
        trace_files(*old(trace), eff),
        eff.len() < 0xffff,
    ensures
        r == product.team_scores@[queried_leader_index as int],
        trace_files(
            *final(trace),
            eff.push(team_score_effect(product, owner_leader_index, queried_leader_index)),
        ),
        final(trace).visits == old(trace).visits,
{
    match product.team_scores[queried_leader_index] {
        Some(value) => {
            trace.push_effect(
                Step19Effect::Read(
                    ProductRead::TeamScore {
                        call_va: GET_TEAM_SCORE_VA,
                        owner_leader_index,
                        queried_leader_index,
                        value,
                    },
                ),
                Ghost(eff),
            );
            Some(value)
        },
        None => {
            trace.push_effect(
                Step19Effect::Residual {
                    leader_index: owner_leader_index,
                    residual: OpenResidual::TeamScoreUnavailable { queried_leader_index },
                },
                Ghost(eff),
            );
            None
        },
    }
}

/// Signed division by a positive constant, truncated toward zero.
pub(crate) fn quot(x: i32, d: i32) -> (r: i32)
    requires
        d > 0,
    ensures
        r == trunc_div(x as int, d as int),
{
    proof {
        if x < 0 {
            assert((-(x as int)) / (d as int) <= -(x as int)) by (nonlinear_arith)
                requires
                    x < 0,
                    d > 0,
            ;
        } else {
            assert((x as int) / (d as int) <= x as int) by (nonlinear_arith)
                requires
                    x >= 0,
                    d > 0,
            ;
        }
    }
    match x.checked_div(d) {
        Some(q) => q,
        None => 0,
    }
}

/// The busy-combat branch of leader `leader_index`.
#[verifier::rlimit(60)]
fn resolve_active_mood(
    state: &Step19State,
    trace: &mut Step19Trace,
    product: ProductFacts,
    leader_index: usize,
    combat_sum: u32,
    Ghost(eff): Ghost<Seq<Step19Effect>>,
) -> (r: Option<(i32, bool)>)
    requires
        leader_index < 8,
        trace_files(*old(trace), eff),
        eff.len() <= 200,
    ensures
        ({
            let (m, e) = resolve_mood_spec(
                state.leaders@,
                state.music,
                product,
                leader_index,
                combat_sum as int,
            );
            &&& r == m
            &&& trace_files(*final(trace), eff + e)
            &&& e.len() <= 10
        }),
        final(trace).visits == old(trace).visits,
{
    // The own score is queried before the enemy scan.
    let own_score = read_team_score(trace, product, leader_index, leader_index, Ghost(eff));
    let ghost e0 = seq![team_score_effect(product, leader_index, leader_index)];
    assert(eff.push(team_score_effect(product, leader_index, leader_index)) =~= eff + e0);
    let local_who = state.leaders[leader_index].who;
    if local_who < 0 || local_who >= 8 {
        let x = Step19Effect::Residual {
            leader_index,
            residual: OpenResidual::LeaderWhoOutsideArray { who: local_who },
        };
        trace.push_effect(x, Ghost(eff + e0));
        assert((eff + e0).push(x) =~= eff + e0.push(x));
        return None;
    }
    let lw = local_who as usize;
    let mut strongest_hostile_score: i32 = 0;
    let mut complete = own_score.is_some();
    let mut other_leader_index: usize = 0;
    while other_leader_index < 8
        invariant
            other_leader_index <= 8,
            leader_index < 8,
            lw < 8,
            local_who == state.leaders@[leader_index as int].who,
            lw == local_who,
            eff.len() <= 200,
            e0.len() == 1,
            own_score == product.team_scores@[leader_index as int],
            trace.visits == old(trace).visits,
            ({
                let (best, c, e) = hostile_scan(
                    state.leaders@,
                    product,
                    leader_index,
                    lw as int,
                    other_leader_index as int,
                );
                &&& strongest_hostile_score == best
                &&& complete == (own_score is Some && c)
                &&& trace_files(*trace, eff + e0 + e)
                &&& e.len() <= other_leader_index
            }),
        decreases 8 - other_leader_index,
    {
        proof {
            lemma_scan_len(state.leaders@, product, leader_index, lw as int, other_leader_index as int);
        }
        let ghost prev = hostile_scan(
            state.leaders@,
            product,
            leader_index,
            lw as int,
            other_leader_index as int,
        );
        let other = state.leaders[other_leader_index];
        if !(other.flags & LEADER_IN_GAME_FLAG == 0 || other.who == local_who) {
            // A zero first relation is enough; only a non-zero one indexes the second.
            if other.diplos[lw] != 0 && (other.who < 0 || other.who >= 8) {
                let x = Step19Effect::Residual {
                    leader_index,
                    residual: OpenResidual::OtherWhoOutsideArray {
                        other_leader_index,
                        who: other.who,
                    },
                };
                trace.push_effect(x, Ghost(eff + e0 + prev.2));
                complete = false;
                assert((eff + e0 + prev.2).push(x) =~= eff + e0 + prev.2.push(x));
            } else if (other.diplos[lw] != 0 && state.leaders[lw].diplos[other.who as usize] != 0)
                || (other.event_queue.average_hit_rate == 0
                && other.event_queue.average_damage_rate == 0) {
            } else {
                let score = read_team_score(
                    trace,
                    product,
                    leader_index,
                    other_leader_index,
                    Ghost(eff + e0 + prev.2),
                );
                let ghost x = team_score_effect(product, leader_index, other_leader_index);
                assert((eff + e0 + prev.2).push(x) =~= eff + e0 + prev.2.push(x));
                match score {
                    Some(v) => {
                        if v > strongest_hostile_score {
                            strongest_hostile_score = v;
                        }
                    },
                    None => {
                        complete = false;
                    },
                }
            }
        }
        other_leader_index = other_leader_index + 1;
    }
    proof {
        lemma_scan_len(state.leaders@, product, leader_index, lw as int, 8);
        let e = hostile_scan(state.leaders@, product, leader_index, lw as int, 8).2;
        assert(eff + e0 + e =~= eff + (e0 + e));
    }
    if !complete {
        return None;
    }
    let own = match own_score {
        Some(v) => v,
        None => 0,
    };
    let event = state.leaders[leader_index].event_queue;
    let mut balance = (event.average_hit_rate as i32).wrapping_sub(
        event.average_damage_rate as i32,
    );
    // Signed truncating divisions, as in the strength-reduced sequences.
    let hostile_four_thirds = quot(strongest_hostile_score.wrapping_mul(4), 3);
    if own >= hostile_four_thirds {
        balance = balance.wrapping_add(TEAM_SCORE_BIAS);
    } else {
        let hostile_three_quarters = quot(strongest_hostile_score.wrapping_mul(3), 4);
        if own <= hostile_three_quarters {
            balance = balance.wrapping_sub(TEAM_SCORE_BIAS);
        }
    }
    let requested_mood = if balance < 0 {
        mood::LOSING
    } else {
        mood::WINNING
    };
    let force = state.music.current_mood == mood::QUIET && combat_sum >= FORCE_MOOD_THRESHOLD;
    Some((requested_mood, force))
}

/// The music part of due leader `leader_index`, whose queue is already folded.
#[verifier::rlimit(40)]
fn music_section(
    state: &mut Step19State,
    trace: &mut Step19Trace,
    product: ProductFacts,
    leader_index: usize,
    Ghost(eff): Ghost<Seq<Step19Effect>>,
) -> (r: Option<i32>)
    requires
        leader_index < 8,
        trace_files(*old(trace), eff),
        eff.len() <= 200,
    ensures
        ({
            let (m, mu, em) = mood_part(old(state).leaders@, old(state).music, product, leader_index);
            &&& r == m
            &&& final(state).music == mu
            &&& trace_files(*final(trace), eff + em)
            &&& em.len() <= 12
        }),
        final(state).leaders == old(state).leaders,
        final(trace).visits == old(trace).visits,
{
    reveal(mood_part);
    let ghost req = mood_request(state.leaders@, state.music, product, leader_index);
    let l = state.leaders[leader_index];
    let event = l.event_queue;
    let combat_sum = event.average_hit_rate as u32 + event.average_damage_rate as u32;
    let mood_and_force = if l.who != product.console_who {
        None
    } else if combat_sum < QUIET_MOOD_THRESHOLD {
        Some((mood::QUIET, event.average_hit_rate == 0 && event.average_damage_rate == 0))
    } else if combat_sum < ACTIVE_MOOD_THRESHOLD {
        None
    } else {
        resolve_active_mood(state, trace, product, leader_index, combat_sum, Ghost(eff))
    };
    assert(mood_and_force == req.0);
    assert(trace_files(*trace, eff + req.1)) by {
        if req.1.len() == 0 {
            assert(eff + req.1 =~= eff);
        }
    }
    match mood_and_force {
        None => None,
        Some((next_mood, force)) => {
            let before = state.music.next_mood;
            state.music.next_mood = next_mood;
            let x = Step19Effect::Local(
                LocalMutation::NextMusicMood { leader_index, before, after: next_mood },
            );
            trace.push_effect(x, Ghost(eff + req.1));
            assert((eff + req.1).push(x) =~= eff + req.1.push(x));
            if state.music.current_mood != next_mood {
                let y = Step19Effect::Tail {
                    leader_index,
                    host_tail: HostTail::JukeBoxSetNextMood {
                        call_va: JUKEBOX_SET_NEXT_MOOD_VA,
                        requested_mood: next_mood,
                        force,
                    },
                };
                trace.push_effect(y, Ghost(eff + req.1.push(x)));
                assert((eff + req.1.push(x)).push(y) =~= eff + req.1.push(x).push(y));
            }
            Some(next_mood)
        },
    }
}

/// The encrypted age word of `who`, read on behalf of leader `leader_index`.
fn read_age(
    trace: &mut Step19Trace,
    product: ProductFacts,
    leader_index: usize,
    who: i32,
    Ghost(eff): Ghost<Seq<Step19Effect>>,
) -> (r: Option<i32>)
    requires
        trace_files(*old(trace), eff),
        eff.len() < 0xffff,
    ensures
        r == age_part(product, leader_index, who).0,
        trace_files(*final(trace), eff.push(age_part(product, leader_index, who).1)),
        final(trace).visits == old(trace).visits,
{
    if who < 0 || who >= 8 {
        trace.push_effect(
            Step19Effect::Residual {
                leader_index,
                residual: OpenResidual::LeaderWhoOutsideArray { who },
            },
            Ghost(eff),
        );
        return None;
    }
    let who_index = who as usize;
    match product.encrypted_ages[who_index] {
        Some(encrypted) => {
            let decoded = (encrypted ^ AGES_XOR_KEY) as i32;
            trace.push_effect(
                Step19Effect::Read(
                    ProductRead::EncryptedAge {
                        owner_leader_index: leader_index,
                        who_index,
                        encrypted,
                        xor_key: AGES_XOR_KEY,
                        decoded,
                    },
                ),
                Ghost(eff),
            );
            Some(decoded)
        },
        None => {
            trace.push_effect(
                Step19Effect::Residual {
                    leader_index,
                    residual: OpenResidual::EncryptedAgeUnavailable { who_index },
                },
                Ghost(eff),
            );
            None
        },
    }
}

/// The battle achievement of a folded queue at `frame` for `age`.
fn battle_event_kind(queue: EventQueueState, frame: i32, age: i32) -> (r: Option<BattleEventKind>)
    ensures
        r == battle_kind_spec(queue, frame, age),
{
    let combined = (queue.average_death_rate as i32).wrapping_add(queue.average_kill_rate as i32);
    let minimum = age.wrapping_add(1).wrapping_mul(BATTLE_RATE_PER_AGE);
    if combined < minimum || (queue.frame_battle != 0 && frame.wrapping_sub(queue.frame_battle)
        < BATTLE_COOLDOWN) {
        return None;
    }
    let imbalance = age.wrapping_mul(BATTLE_IMBALANCE_PER_AGE).wrapping_add(BATTLE_IMBALANCE_BASE);
    let deaths = queue.average_death_rate as i32;
    let kills = queue.average_kill_rate as i32;
    if deaths >= kills.wrapping_add(imbalance) {
        Some(BattleEventKind::DeathsOverKills)
    } else if kills >= deaths.wrapping_add(imbalance) {
        Some(BattleEventKind::KillsOverDeaths)
    } else {
        None
    }
}

/// The achievement part of due leader `leader_index` of `who`, whose queue is folded.
#[verifier::rlimit(40)]
fn battle_section(
    state: &mut Step19State,
    trace: &mut Step19Trace,
    product: ProductFacts,
    leader_index: usize,
    who: i32,
    Ghost(eff): Ghost<Seq<Step19Effect>>,
) -> (r: Option<BattleEventKind>)
    requires
        leader_index < 8,
        trace_files(*old(trace), eff),
        eff.len() <= 300,
    ensures
        ({
            let l = old(state).leaders@[leader_index as int];
            let (b, q, eb) = battle_part(l.event_queue, product, leader_index, who);
            &&& r == b
            &&& final(state).leaders@ == old(state).leaders@.update(
                leader_index as int,
                LeaderSlot { event_queue: q, ..l },
            )
            &&& trace_files(*final(trace), eff + eb)
            &&& eb.len() <= 4
        }),
        final(state).music == old(state).music,
        final(trace).visits == old(trace).visits,
{
    reveal(battle_part);
    let ghost ap = age_part(product, leader_index, who);
    // The age word is read for every due leader, before the combined-rate threshold.
    let age = read_age(trace, product, leader_index, who, Ghost(eff));
    let mut slot = state.leaders[leader_index];
    let battle_event = match age {
        Some(a) => battle_event_kind(slot.event_queue, product.frame, a),
        None => None,
    };
    let ghost e1 = seq![ap.1];
    assert(eff.push(ap.1) =~= eff + e1);
    match battle_event {
        None => {
            assert(state.leaders@ =~= state.leaders@.update(leader_index as int, slot));
        },
        Some(kind) => {
            let x = Step19Effect::Tail {
                leader_index,
                host_tail: HostTail::AchieveAddEvent {
                    call_va: ACHIEVE_ADD_EVENT_VA,
                    kind,
                    who,
                    empty_string_va: EMPTY_STRING_VA,
                },
            };
            trace.push_effect(x, Ghost(eff + e1));
            let before = [slot.event_queue.average_death_rate, slot.event_queue.average_kill_rate];
            slot.event_queue.average_death_rate = BATTLE_RATE_SENTINEL;
            slot.event_queue.average_kill_rate = BATTLE_RATE_SENTINEL;
            let y = Step19Effect::Local(
                LocalMutation::BattleRateSentinels {
                    leader_index,
                    before,
                    after: [BATTLE_RATE_SENTINEL, BATTLE_RATE_SENTINEL],
                },
            );
            trace.push_effect(y, Ghost((eff + e1).push(x)));
            let before_frame = slot.event_queue.frame_battle;
            slot.event_queue.frame_battle = product.frame;
            let z = Step19Effect::Local(
                LocalMutation::BattleFrameStamp {
                    leader_index,
                    before: before_frame,
                    after: product.frame,
                },
            );
            trace.push_effect(z, Ghost((eff + e1).push(x).push(y)));
            state.leaders[leader_index] = slot;
            assert((eff + e1).push(x).push(y).push(z) =~= eff + seq![ap.1, x, y, z]);
        },
    }
    battle_event
}

/// One leader of the dispatcher.
#[verifier::rlimit(60)]
fn step19_leader(
    state: &mut Step19State,
    trace: &mut Step19Trace,
    product: ProductFacts,
    leader_index: usize,
    Ghost(eff): Ghost<Seq<Step19Effect>>,
) -> (outcome: LeaderOutcome)
    requires
        leader_index < 8,
        trace_files(*old(trace), eff),
        eff.len() <= 20 * leader_index,
    ensures
        ({
            let (ls, mu, out, e) = leader_step19(
                old(state).leaders@,
                old(state).music,
                product,
                leader_index,
            );
            &&& final(state).leaders@ == ls
            &&& final(state).music == mu
            &&& outcome == out
            &&& trace_files(*final(trace), eff + e)
            &&& e.len() <= 20
        }),
        final(trace).visits == old(trace).visits,
{
    let ghost leaders0 = state.leaders@;
    let ghost music0 = state.music;
    if state.leaders[leader_index].flags & LEADER_IN_GAME_FLAG == 0 {
        assert(eff + Seq::<Step19Effect>::empty() =~= eff);
        return LeaderOutcome::InGameFlagClear;
    }
    // `cdq; idiv 50; test edx,edx`: signed remainder, before any leader write.
    proof {
        lemma_rem_period(product.frame);
    }
    let remainder = match product.frame.checked_rem(EVENT_RATE_PERIOD) {
        Some(r) => r,
        None => 0,
    };
    if remainder != 0 {
        assert(eff + Seq::<Step19Effect>::empty() =~= eff);
        return LeaderOutcome::FrameNotDue;
    }
    let residuals_before = trace.residuals.len();
    let mut slot = state.leaders[leader_index];
    let before_fold = slot.event_queue;
    fold_event_queue(&mut slot.event_queue);
    let after_fold = slot.event_queue;
    state.leaders[leader_index] = slot;
    let x = Step19Effect::Local(
        LocalMutation::FoldEventQueue { leader_index, before: before_fold, after: after_fold },
    );
    trace.push_effect(x, Ghost(eff));
    let ghost e1 = seq![x];
    assert(eff.push(x) =~= eff + e1);
    let who = slot.who;
    let ghost mp = mood_part(state.leaders@, state.music, product, leader_index);
    let requested_mood = music_section(state, trace, product, leader_index, Ghost(eff + e1));
    let ghost bp = battle_part(after_fold, product, leader_index, who);
    let battle_event = battle_section(
        state,
        trace,
        product,
        leader_index,
        who,
        Ghost(eff + e1 + mp.2),
    );
    // `mov [edi+A58],eax; mov [edi+A5C],eax` clears all four adjacent words.
    let mut slot = state.leaders[leader_index];
    let before = slot.event_queue.current_events();
    slot.event_queue.deaths_current_frame = 0;
    slot.event_queue.kills_current_frame = 0;
    slot.event_queue.hits_current_frame = 0;
    slot.event_queue.damage_current_frame = 0;
    state.leaders[leader_index] = slot;
    let y = Step19Effect::Local(
        LocalMutation::ClearCurrentEvents { leader_index, before, after: [0, 0, 0, 0] },
    );
    trace.push_effect(y, Ghost(eff + e1 + mp.2 + bp.2));
    proof {
        let step = leader_step19(leaders0, music0, product, leader_index);
        let e = e1 + mp.2 + bp.2 + seq![y];
        assert(before@ =~= current_events_of(bp.1));
        assert((eff + e1 + mp.2 + bp.2).push(y) =~= eff + e);
        let l0 = leaders0[leader_index as int];
        let q1 = fold_queue_spec(l0.event_queue);
        let ls1 = leaders0.update(leader_index as int, LeaderSlot { event_queue: q1, ..l0 });
        assert(after_fold == q1);
        assert(mp == mood_part(ls1, music0, product, leader_index));
        assert(bp == battle_part(q1, product, leader_index, l0.who));
        let q2 = bp.1;
        let before_spec: [u16; 4] = [
            q2.deaths_current_frame,
            q2.kills_current_frame,
            q2.hits_current_frame,
            q2.damage_current_frame,
        ];
        assert(before_spec@ =~= before@);
        assert(before == before_spec);
        assert(step.3 == e);
        assert(state.leaders@ =~= step.0);
        lemma_residuals_len(eff);
        lemma_residuals_len(eff + e);
        lemma_residuals_len(e);
        lemma_residual_count_concat(eff, e);
    }
    let residuals = (trace.residuals.len() - residuals_before) as u8;
    LeaderOutcome::Due { requested_mood, battle_event, residuals }
}

/// The complete deterministic step-19 dispatcher and 918-byte body, leader by leader in
/// address order. The dispatcher is sequential: a local leader's combat scan sees freshly
/// folded rates for earlier records and prior rates for later ones. On a due leader,
/// current counters are raw event counts until the fold, temporarily become their
/// low-word `*100` values, then are cleared only after music and achievement work.
#[verifier::rlimit(60)]
pub fn execute_step19(state: &mut Step19State, product: ProductFacts) -> (r: Step19Trace)
    ensures
        ({
            let (ls, mu, outs, eff) = step19_run(old(state).leaders@, old(state).music, product, 8);
            &&& final(state).leaders@ == ls
            &&& final(state).music == mu
            &&& trace_files(r, eff)
            &&& forall|i: int|
                0 <= i < 8 ==> (#[trigger] r.visits@[i]).leader_index == i && r.visits@[i].leader_va
                    == LEADERS_BASE_VA + i * LEADER_STRIDE && r.visits@[i].outcome == outs[i]
        }),
{
    let mut trace = Step19Trace::fresh();
    let ghost leaders0 = state.leaders@;
    let ghost music0 = state.music;
    let mut leader_index: usize = 0;
    while leader_index < 8
        invariant
            leader_index <= 8,
            leaders0 == old(state).leaders@,
            music0 == old(state).music,
            ({
                let (ls, mu, outs, eff) = step19_run(leaders0, music0, product, leader_index as int);
                &&& state.leaders@ == ls
                &&& state.music == mu
                &&& trace_files(trace, eff)
                &&& eff.len() <= 20 * leader_index
                &&& outs.len() == leader_index
                &&& forall|i: int|
                    0 <= i < 8 ==> (#[trigger] trace.visits@[i]).leader_index == i
                        && trace.visits@[i].leader_va == LEADERS_BASE_VA + i * LEADER_STRIDE
                        && (i < leader_index ==> trace.visits@[i].outcome == outs[i])
            }),
        decreases 8 - leader_index,
    {
        let ghost run = step19_run(leaders0, music0, product, leader_index as int);
        let ghost step = leader_step19(run.0, run.1, product, leader_index);
        let outcome = step19_leader(state, &mut trace, product, leader_index, Ghost(run.3));
        let mut visit = trace.visits[leader_index];
        visit.outcome = outcome;
        trace.visits[leader_index] = visit;
        proof {
            assert(step19_run(leaders0, music0, product, leader_index + 1) == (
                step.0,
                step.1,
                run.2.push(step.2),
                run.3 + step.3,
            ));
        }
        leader_index = leader_index + 1;
    }
    trace
}

// ---------------------------------------------------------------------------------------
// The shared sequence domain of the receipts.
// ---------------------------------------------------------------------------------------

/// The kind of an effect: 0 local, 1 read, 2 host tail, 3 residual.
pub open spec fn effect_kind(e: Step19Effect) -> int {
    match e {
        Step19Effect::Local(_) => 0,
        Step19Effect::Read(_) => 1,
        Step19Effect::Tail { .. } => 2,
        Step19Effect::Residual { .. } => 3,
    }
}

/// A list of sequence numbers that increase strictly, each naming an effect of kind `k`.
pub open spec fn numbers_effects_of_kind(seqs: Seq<u16>, eff: Seq<Step19Effect>, k: int) -> bool {
    &&& forall|i: int, j: int| 0 <= i < j < seqs.len() ==> seqs[i] < seqs[j]
    &&& forall|i: int| 0 <= i < seqs.len() ==> #[trigger] seqs[i] < eff.len()
    &&& forall|i: int| #![trigger seqs[i]] 0 <= i < seqs.len() ==> effect_kind(eff[seqs[i] as int]) == k
}

/// Appending an effect keeps a numbering valid, and numbering the new effect when it is of
/// the list's kind keeps it valid too.
proof fn lemma_numbered_push(seqs: Seq<u16>, e0: Seq<Step19Effect>, x: Step19Effect, k: int)
    requires
        numbers_effects_of_kind(seqs, e0, k),
        e0.len() < 0x1_0000,
    ensures
        numbers_effects_of_kind(seqs, e0.push(x), k),
        effect_kind(x) == k ==> numbers_effects_of_kind(seqs.push(e0.len() as u16), e0.push(x), k),
{
    let eff = e0.push(x);
    assert forall|i: int| #![trigger seqs[i]] 0 <= i < seqs.len() implies effect_kind(eff[seqs[i] as int]) == k by {
        assert(seqs[i] < e0.len());
        assert(eff[seqs[i] as int] == e0[seqs[i] as int]);
    }
    if effect_kind(x) == k {
        let t = seqs.push(e0.len() as u16);
        assert forall|i: int, j: int| 0 <= i < j < t.len() implies t[i] < t[j] by {
            if j < seqs.len() {
                assert(seqs[i] < seqs[j]);
            } else {
                assert(seqs[i] < e0.len());
            }
        }
        assert forall|i: int| #![trigger t[i]] 0 <= i < t.len() implies t[i] < eff.len() && effect_kind(eff[t[i] as int]) == k by {
            if i < seqs.len() {
                assert(t[i] == seqs[i]);
                assert(seqs[i] < e0.len());
                assert(effect_kind(eff[seqs[i] as int]) == k);
            }
        }
    }
}

proof fn lemma_locals_numbered(eff: Seq<Step19Effect>)
    requires
        eff.len() <= 0x1_0000,
    ensures
        numbers_effects_of_kind(locals_of(eff).map_values(|r: LocalMutationReceipt| r.sequence), eff, 0),
    decreases eff.len(),
{
    let f = |r: LocalMutationReceipt| r.sequence;
    if eff.len() > 0 {
        let e0 = eff.drop_last();
        lemma_locals_numbered(e0);
        lemma_numbered_push(locals_of(e0).map_values(f), e0, eff.last(), 0);
        assert(e0.push(eff.last()) =~= eff);
        assert(locals_of(eff).map_values(f) =~= match eff.last() {
            Step19Effect::Local(_) => locals_of(e0).map_values(f).push(e0.len() as u16),
            _ => locals_of(e0).map_values(f),
        });
    } else {
        assert(locals_of(eff).map_values(f) =~= Seq::<u16>::empty());
    }
}

proof fn lemma_reads_numbered(eff: Seq<Step19Effect>)
    requires
        eff.len() <= 0x1_0000,
    ensures
        numbers_effects_of_kind(reads_of(eff).map_values(|r: ProductReadReceipt| r.sequence), eff, 1),
    decreases eff.len(),
{
    let f = |r: ProductReadReceipt| r.sequence;
    if eff.len() > 0 {
        let e0 = eff.drop_last();
        lemma_reads_numbered(e0);
        lemma_numbered_push(reads_of(e0).map_values(f), e0, eff.last(), 1);
        assert(e0.push(eff.last()) =~= eff);
        assert(reads_of(eff).map_values(f) =~= match eff.last() {
            Step19Effect::Read(_) => reads_of(e0).map_values(f).push(e0.len() as u16),
            _ => reads_of(e0).map_values(f),
        });
    } else {
        assert(reads_of(eff).map_values(f) =~= Seq::<u16>::empty());
    }
}

proof fn lemma_tails_numbered(eff: Seq<Step19Effect>)
    requires
        eff.len() <= 0x1_0000,
    ensures
        numbers_effects_of_kind(tails_of(eff).map_values(|r: HostTailReceipt| r.sequence), eff, 2),
    decreases eff.len(),
{
    let f = |r: HostTailReceipt| r.sequence;
    if eff.len() > 0 {
        let e0 = eff.drop_last();
        lemma_tails_numbered(e0);
        lemma_numbered_push(tails_of(e0).map_values(f), e0, eff.last(), 2);
        assert(e0.push(eff.last()) =~= eff);
        assert(tails_of(eff).map_values(f) =~= match eff.last() {
            Step19Effect::Tail { .. } => tails_of(e0).map_values(f).push(e0.len() as u16),
            _ => tails_of(e0).map_values(f),
        });
    } else {
        assert(tails_of(eff).map_values(f) =~= Seq::<u16>::empty());
    }
}

proof fn lemma_residuals_numbered(eff: Seq<Step19Effect>)
    requires
        eff.len() <= 0x1_0000,
    ensures
        numbers_effects_of_kind(residuals_of(eff).map_values(|r: ResidualReceipt| r.sequence), eff, 3),
    decreases eff.len(),
{
    let f = |r: ResidualReceipt| r.sequence;
    if eff.len() > 0 {
        let e0 = eff.drop_last();
        lemma_residuals_numbered(e0);
        lemma_numbered_push(residuals_of(e0).map_values(f), e0, eff.last(), 3);
        assert(e0.push(eff.last()) =~= eff);
        assert(residuals_of(eff).map_values(f) =~= match eff.last() {
            Step19Effect::Residual { .. } => residuals_of(e0).map_values(f).push(e0.len() as u16),
            _ => residuals_of(e0).map_values(f),
        });
    } else {
        assert(residuals_of(eff).map_values(f) =~= Seq::<u16>::empty());
    }
}

/// The four receipt lists of a trace share one sequence domain: in each list the numbers
/// increase strictly and stay below the effect count, and a number names the effect of its
/// own list's kind, so no two lists share a number.
pub proof fn lemma_receipts_share_one_sequence(t: Step19Trace, eff: Seq<Step19Effect>)
    requires
        trace_files(t, eff),
        eff.len() <= 0x1_0000,
    ensures
        numbers_effects_of_kind(t.local_mutations@.map_values(|r: LocalMutationReceipt| r.sequence), eff, 0),
        numbers_effects_of_kind(t.product_reads@.map_values(|r: ProductReadReceipt| r.sequence), eff, 1),
        numbers_effects_of_kind(t.host_tails@.map_values(|r: HostTailReceipt| r.sequence), eff, 2),
        numbers_effects_of_kind(t.residuals@.map_values(|r: ResidualReceipt| r.sequence), eff, 3),
        forall|i: int, j: int|
            0 <= i < t.local_mutations@.len() && 0 <= j < t.host_tails@.len() ==> t.local_mutations@[i].sequence
                != t.host_tails@[j].sequence,
        forall|i: int, j: int|
            0 <= i < t.product_reads@.len() && 0 <= j < t.host_tails@.len() ==> t.product_reads@[i].sequence
                != t.host_tails@[j].sequence,
        forall|i: int, j: int|
            0 <= i < t.residuals@.len() && 0 <= j < t.host_tails@.len() ==> t.residuals@[i].sequence
                != t.host_tails@[j].sequence,
        forall|i: int, j: int|
            0 <= i < t.local_mutations@.len() && 0 <= j < t.product_reads@.len() ==> t.local_mutations@[i].sequence
                != t.product_reads@[j].sequence,
        forall|i: int, j: int|
            0 <= i < t.local_mutations@.len() && 0 <= j < t.residuals@.len() ==> t.local_mutations@[i].sequence
                != t.residuals@[j].sequence,
        forall|i: int, j: int|
            0 <= i < t.product_reads@.len() && 0 <= j < t.residuals@.len() ==> t.product_reads@[i].sequence
                != t.residuals@[j].sequence,
{
    lemma_locals_numbered(eff);
    lemma_reads_numbered(eff);
    lemma_tails_numbered(eff);
    lemma_residuals_numbered(eff);
    let l = t.local_mutations@.map_values(|r: LocalMutationReceipt| r.sequence);
    let p = t.product_reads@.map_values(|r: ProductReadReceipt| r.sequence);
    let h = t.host_tails@.map_values(|r: HostTailReceipt| r.sequence);
    let q = t.residuals@.map_values(|r: ResidualReceipt| r.sequence);
    assert forall|i: int, j: int| 0 <= i < l.len() && 0 <= j < h.len() implies t.local_mutations@[i].sequence
        != t.host_tails@[j].sequence by {
        assert(effect_kind(eff[l[i] as int]) == 0 && effect_kind(eff[h[j] as int]) == 2);
    }
    assert forall|i: int, j: int| 0 <= i < p.len() && 0 <= j < h.len() implies t.product_reads@[i].sequence
        != t.host_tails@[j].sequence by {
        assert(effect_kind(eff[p[i] as int]) == 1 && effect_kind(eff[h[j] as int]) == 2);
    }
    assert forall|i: int, j: int| 0 <= i < q.len() && 0 <= j < h.len() implies t.residuals@[i].sequence
        != t.host_tails@[j].sequence by {
        assert(effect_kind(eff[q[i] as int]) == 3 && effect_kind(eff[h[j] as int]) == 2);
    }
    assert forall|i: int, j: int| 0 <= i < l.len() && 0 <= j < p.len() implies t.local_mutations@[i].sequence
        != t.product_reads@[j].sequence by {
        assert(effect_kind(eff[l[i] as int]) == 0 && effect_kind(eff[p[j] as int]) == 1);
    }
    assert forall|i: int, j: int| 0 <= i < l.len() && 0 <= j < q.len() implies t.local_mutations@[i].sequence
        != t.residuals@[j].sequence by {
        assert(effect_kind(eff[l[i] as int]) == 0 && effect_kind(eff[q[j] as int]) == 3);
    }
    assert forall|i: int, j: int| 0 <= i < p.len() && 0 <= j < q.len() implies t.product_reads@[i].sequence
        != t.residuals@[j].sequence by {
        assert(effect_kind(eff[p[i] as int]) == 1 && effect_kind(eff[q[j] as int]) == 3);
    }
}


/// The battle achievement's gate: the combined death and kill rate reaches `(age + 1) * 125`
/// and no battle was recorded within the cooldown.
pub open spec fn battle_gate_open(q: EventQueueState, frame: i32, age: int) -> bool {
    &&& q.average_death_rate + q.average_kill_rate >= (age + 1) * 125
    &&& !(q.frame_battle != 0 && frame.wrapping_sub(q.frame_battle) < 1_800)
}

/// Law of the battle achievement, for an age from 0 to one million (so nothing wraps). When
/// the combined rate is high enough and no battle is on cooldown, a leader whose deaths
/// exceed its kills by at least `age * 10 + 20` is answered with deaths over kills, a leader
/// whose kills exceed its deaths by that margin with kills over deaths, and a closer battle
/// with nothing; below the rate threshold or on cooldown the answer is nothing.
/// A kills-over-deaths answer therefore always means the leader killed more than it lost,
/// and a deaths-over-kills answer that it lost more than it killed.
pub proof fn lemma_battle_kind_follows_the_margin(q: EventQueueState, frame: i32, age: i32)
    requires
        0 <= age <= 1_000_000,
    ensures
        ({
            let r = battle_kind_spec(q, frame, age);
            let deaths = q.average_death_rate as int;
            let kills = q.average_kill_rate as int;
            let margin = age * 10 + 20;
            &&& !battle_gate_open(q, frame, age as int) ==> r is None
            &&& battle_gate_open(q, frame, age as int) && deaths >= kills + margin ==> r == Some(
                BattleEventKind::DeathsOverKills,
            )
            &&& battle_gate_open(q, frame, age as int) && kills >= deaths + margin ==> r == Some(
                BattleEventKind::KillsOverDeaths,
            )
            &&& deaths < kills + margin && kills < deaths + margin ==> r is None
            &&& r == Some(BattleEventKind::KillsOverDeaths) ==> kills > deaths
            &&& r == Some(BattleEventKind::DeathsOverKills) ==> deaths > kills
        }),
{
    let deaths = q.average_death_rate as i32;
    let kills = q.average_kill_rate as i32;
    assert(deaths.wrapping_add(kills) == deaths + kills);
    assert(age.wrapping_add(1) == age + 1);
    let a1 = age + 1;
    assert(0 <= a1 * 125 <= 1_000_001 * 125) by (nonlinear_arith)
        requires
            1 <= a1 <= 1_000_001,
    ;
    vstd::arithmetic::div_mod::lemma_small_mod((a1 * 125) as nat, 0x1_0000_0000nat);
    let a1i: i32 = age.wrapping_add(1);
    assert(a1i.wrapping_mul(BATTLE_RATE_PER_AGE) == a1 * 125);
    assert(0 <= age * 10 <= 10_000_000) by (nonlinear_arith)
        requires
            0 <= age <= 1_000_000,
    ;
    vstd::arithmetic::div_mod::lemma_small_mod((age * 10) as nat, 0x1_0000_0000nat);
    assert(age.wrapping_mul(BATTLE_IMBALANCE_PER_AGE) == age * 10);
    let imbalance = age.wrapping_mul(BATTLE_IMBALANCE_PER_AGE).wrapping_add(BATTLE_IMBALANCE_BASE);
    assert(imbalance == age * 10 + 20);
    assert(kills.wrapping_add(imbalance) == kills + imbalance);
    assert(deaths.wrapping_add(imbalance) == deaths + imbalance);
}

} // verus!
