//! Tick step 17, `Leaders::end_process_all` at `0x006ED070`.
//!
//! The deterministic stores are applied to [`Step17State`]. Reads owned by `Game`,
//! `Console`, and the parsed `poplimits` category come in through [`ProductFacts`]. The
//! three presentation calls are not simulated: they are kept, in order, as typed
//! [`HostTailReceipt`] values. Every receipt shares one sequence domain, so an adapter can
//! prove that the frame stamp preceded the product-data read and that later leaders ran
//! after an earlier leader's presentation tail.
//!
//! The contract is a fold: [`step17_run`] processes the leaders in address order, each one
//! producing an outcome, a new player table and a run of [`Step17Effect`]s; the trace's four
//! receipt lists are that effect run split by kind, each receipt numbered by its position.
use vstd::prelude::*;

verus! {

/// `Leaders::end_process_all`.
pub const END_PROCESS_ALL_VA: u32 = 0x006e_d070;
/// PDB procedure size.
pub const END_PROCESS_ALL_SIZE: u32 = 549;
/// `?leaders@@3VLeaders@@A`.
pub const LEADERS_BASE_VA: u32 = 0x00e3_a390;
/// `sizeof(Leader)` and the increment at `0x006ED272`.
pub const LEADER_STRIDE: u32 = 0x6eec;
/// The dispatcher stops with its `Leader + 8` cursor at `0x00E71AF8`.
pub const RETAIL_LEADER_SLOTS: usize = 8;
/// `LeaderData::leader_flags & 2` is the outer dispatcher gate.
pub const LEADER_PROCESS_FLAG: u32 = 0x0000_0002;
pub const LEADER_WHO_OFFSET: u32 = 0x08;
pub const LEADER_POP_CAP_OFFSET: u32 = 0x7e4;
pub const LEADER_POP_ISSUES_OFFSET: u32 = 0x7e8;
/// `Game::info` is at `+0x0C`; `GameInfo::player` is at `+0x38`.
pub const GAME_PLAYER_ARRAY_OFFSET: u32 = 0x44;
/// `sizeof(Player)` and the scale at `0x006ED1E9`.
pub const PLAYER_STRIDE: u32 = 0x8c;
pub const PLAYER_POP_CAP_FRAME_OFFSET: u32 = 0x2c;
pub const PLAYER_FLAGS_OFFSET: u32 = 0x30;
pub const PLAYER_WHO_OFFSET: u32 = 0x33;
pub const PLAYER_VALID_FLAG: u16 = 0x0001;
pub const PLAYER_POP_CAP_WARNING_FLAG: u16 = 0x0800;
pub const GAME_FRAME_OFFSET: u32 = 0x550;
/// `Game::info + GameInfo::pop_limit` = `Game + 0x31`.
pub const GAME_POP_LIMIT_INDEX_OFFSET: u32 = 0x31;
pub const CONSOLE_WHO_OFFSET: u32 = 0x298;
pub const CONSOLE_PLAY_OFFSET: u32 = 0x2a0;
/// `cmp elapsed, 0x1C2; jl skip`: 450 is the first due elapsed value.
pub const POP_WARNING_MIN_ELAPSED: i32 = 450;
/// `?pop_limits@@3VCategories@@A`.
pub const POP_LIMITS_VA: u32 = 0x00e8_0020;
pub const POP_LIMITS_LIST_OFFSET: u32 = 0x10;
pub const CATEGORY_STRIDE: u32 = 0x58;
pub const CATEGORY_DATA_OFFSET: u32 = 0x3c;
/// The six rows of the shipped `poplimits` category.
pub const SHIPPED_POP_LIMITS: [i32; 6] = [50, 75, 100, 125, 150, 200];
pub const STRING_COPY_CTOR_VA: u32 = 0x00a1_d590;
pub const MESSAGE_WIN_ADD_FEEDBACK_VA: u32 = 0x007e_9ab0;
pub const SOUND_GLOBAL_PLAY_VA: u32 = 0x0097_f770;
pub const RED_COLOR_VA: u32 = 0x00c8_d248;
/// Offset added to the localized-text base before the `String` copy.
pub const POP_WARNING_TEXT_OFFSET: u32 = 0xc878;
pub const POP_WARNING_SOUND_CATEGORY: i32 = 0x5b;

/// The address of leader `index`.
pub fn leader_va(index: usize) -> (r: u32)
    requires
        index < 8,
    ensures
        r == LEADERS_BASE_VA + index * LEADER_STRIDE,
{
    LEADERS_BASE_VA + index as u32 * LEADER_STRIDE
}

/// The address of `Player` `index` in the static `Game` at `0x00E37EC0`.
pub fn static_player_va(index: usize) -> (r: u32)
    requires
        index < 8,
    ensures
        r == 0x00e3_7ec0 + GAME_PLAYER_ARRAY_OFFSET + index * PLAYER_STRIDE,
{
    0x00e3_7ec0 + GAME_PLAYER_ARRAY_OFFSET + index as u32 * PLAYER_STRIDE
}

#[derive(Clone, Copy, Debug, Default, PartialEq, Eq)]
pub struct LeaderSlot {
    pub flags: u32,
    pub who: i32,
    pub pop_cap: i32,
    pub pop_issues: i32,
}

#[derive(Clone, Copy, Debug, Default, PartialEq, Eq)]
pub struct PlayerRecord {
    pub pop_cap_frame: i32,
    pub flags: u16,
    pub who: u8,
}

#[derive(Clone, Debug, Default, PartialEq, Eq)]
pub struct Step17State {
    pub leaders: [LeaderSlot; 8],
    pub players: [PlayerRecord; 8],
}

/// Product-owned reads used by the inlined body. `population_limits` is the current
/// `Category::data[0]` sequence; pass [`SHIPPED_POP_LIMITS`] for the unmodified data.
#[derive(Clone, Copy, Debug, PartialEq, Eq)]
pub struct ProductFacts<'a> {
    pub frame: i32,
    pub console_who: i32,
    pub console_play: i32,
    pub pop_limit_index: u8,
    pub population_limits: &'a [i32],
}

#[derive(Clone, Copy, Debug, PartialEq, Eq)]
pub enum LeaderOutcome {
    NotVisited,
    ProcessFlagClear,
    WarningScan { stores: u8 },
    NonLocalPopulationIssue,
    LocalPlayerUnavailable,
    FeedbackRateLimited { elapsed: i32 },
    PopulationLimitUnavailable,
    AtOrAbovePopulationLimit { limit: i32 },
    PresentationTailReached { limit: i32 },
}

impl Default for LeaderOutcome {
    fn default() -> (r: Self)
        ensures
            r == LeaderOutcome::NotVisited,
    {
        LeaderOutcome::NotVisited
    }
}

#[derive(Clone, Copy, Debug, Default, PartialEq, Eq)]
pub struct LeaderVisit {
    pub leader_index: usize,
    pub leader_va: u32,
    pub outcome: LeaderOutcome,
}

#[derive(Clone, Copy, Debug, PartialEq, Eq)]
pub enum LocalMutation {
    /// The store happens even if warning bit `0x800` was already clear.
    PlayerFlags { leader_index: usize, player_index: usize, before: u16, after: u16 },
    PlayerPopCapFrame { leader_index: usize, player_index: usize, before: i32, after: i32 },
}

#[derive(Clone, Copy, Debug, PartialEq, Eq)]
pub struct LocalMutationReceipt {
    pub sequence: u16,
    pub mutation: LocalMutation,
}

#[derive(Clone, Copy, Debug, PartialEq, Eq)]
pub struct ProductReadReceipt {
    pub sequence: u16,
    pub leader_index: usize,
    pub category_index: u8,
    pub value: i32,
}

/// The product/UI/audio work reached only after a below-limit comparison.
#[derive(Clone, Copy, Debug, PartialEq, Eq)]
pub enum HostTail {
    CopyLocalizedString { constructor_va: u32, text_offset: u32 },
    MessageWinAddFeedback { call_va: u32, duration: i32, color_va: u32 },
    SoundGlobalPlay { call_va: u32, category: i32 },
}

#[derive(Clone, Copy, Debug, PartialEq, Eq)]
pub struct HostTailReceipt {
    pub sequence: u16,
    pub leader_index: usize,
    pub host_tail: HostTail,
}

/// Guards a headless adapter needs for invariants the engine assumes by construction.
#[derive(Clone, Copy, Debug, PartialEq, Eq)]
pub enum OpenResidual {
    ConsolePlayOutsidePlayerArray { play: i32 },
    PopulationLimitRowUnavailable { index: u8, supplied_rows: usize },
}

#[derive(Clone, Copy, Debug, PartialEq, Eq)]
pub struct ResidualReceipt {
    pub sequence: u16,
    pub leader_index: usize,
    pub residual: OpenResidual,
}

#[derive(Clone, Debug, PartialEq, Eq)]
pub struct Step17Trace {
    /// Always eight entries in address order, including gated slots.
    pub visits: [LeaderVisit; 8],
    pub local_mutations: Vec<LocalMutationReceipt>,
    pub product_reads: Vec<ProductReadReceipt>,
    pub host_tails: Vec<HostTailReceipt>,
    pub residuals: Vec<ResidualReceipt>,
    pub total_sequenced_effects: u16,
}

/// One sequenced effect of the step, before it is filed into its receipt list.
#[derive(Clone, Copy, Debug, PartialEq, Eq)]
pub enum Step17Effect {
    Local(LocalMutation),
    Read { leader_index: usize, category_index: u8, value: i32 },
    Tail { leader_index: usize, host_tail: HostTail },
    Residual { leader_index: usize, residual: OpenResidual },
}

/// The warning-clear scan over players `0..j` of a leader with no population issue: each
/// valid player of the same `who` has warning bit `0x800` cleared and the store recorded.
pub open spec fn scan_players(players: Seq<PlayerRecord>, leader_index: usize, who: i32, j: int) -> (
    Seq<PlayerRecord>,
    int,
    Seq<Step17Effect>,
)
    decreases j,
{
    if j <= 0 {
        (players, 0, Seq::empty())
    } else {
        let (ps, n, eff) = scan_players(players, leader_index, who, j - 1);
        let p = ps[j - 1];
        if p.flags & PLAYER_VALID_FLAG == 0 || p.who as i32 != who {
            (ps, n, eff)
        } else {
            let after = p.flags & !PLAYER_POP_CAP_WARNING_FLAG;
            (
                ps.update(j - 1, PlayerRecord { flags: after, ..p }),
                n + 1,
                eff.push(
                    Step17Effect::Local(
                        LocalMutation::PlayerFlags {
                            leader_index,
                            player_index: (j - 1) as usize,
                            before: p.flags,
                            after,
                        },
                    ),
                ),
            )
        }
    }
}

/// The three presentation calls of a below-limit leader.
pub open spec fn tail_effects(i: usize) -> Seq<Step17Effect> {
    seq![
        Step17Effect::Tail {
            leader_index: i,
            host_tail: HostTail::CopyLocalizedString {
                constructor_va: STRING_COPY_CTOR_VA,
                text_offset: POP_WARNING_TEXT_OFFSET,
            },
        },
        Step17Effect::Tail {
            leader_index: i,
            host_tail: HostTail::MessageWinAddFeedback {
                call_va: MESSAGE_WIN_ADD_FEEDBACK_VA,
                duration: -1i32,
                color_va: RED_COLOR_VA,
            },
        },
        Step17Effect::Tail {
            leader_index: i,
            host_tail: HostTail::SoundGlobalPlay {
                call_va: SOUND_GLOBAL_PLAY_VA,
                category: POP_WARNING_SOUND_CATEGORY,
            },
        },
    ]
}

/// One leader of the dispatcher: the new player table, its outcome and its effects.
pub open spec fn leader_step17(
    leader: LeaderSlot,
    players: Seq<PlayerRecord>,
    product: ProductFacts,
    i: usize,
) -> (Seq<PlayerRecord>, LeaderOutcome, Seq<Step17Effect>) {
    if leader.flags & LEADER_PROCESS_FLAG == 0 {
        (players, LeaderOutcome::ProcessFlagClear, Seq::empty())
    } else if leader.pop_issues == 0 {
        let (ps, n, eff) = scan_players(players, i, leader.who, 8);
        (ps, LeaderOutcome::WarningScan { stores: n as u8 }, eff)
    } else if leader.who != product.console_who {
        (players, LeaderOutcome::NonLocalPopulationIssue, Seq::empty())
    } else if product.console_play < 0 || product.console_play >= 8 {
        (
            players,
            LeaderOutcome::LocalPlayerUnavailable,
            seq![
                Step17Effect::Residual {
                    leader_index: i,
                    residual: OpenResidual::ConsolePlayOutsidePlayerArray {
                        play: product.console_play,
                    },
                },
            ],
        )
    } else {
        let pi = product.console_play as int;
        let prev = players[pi].pop_cap_frame;
        let elapsed = product.frame.wrapping_sub(prev);
        if elapsed < POP_WARNING_MIN_ELAPSED {
            (players, LeaderOutcome::FeedbackRateLimited { elapsed }, Seq::empty())
        } else {
            let ps = players.update(pi, PlayerRecord { pop_cap_frame: product.frame, ..players[pi] });
            let e0 = seq![
                Step17Effect::Local(
                    LocalMutation::PlayerPopCapFrame {
                        leader_index: i,
                        player_index: pi as usize,
                        before: prev,
                        after: product.frame,
                    },
                ),
            ];
            let idx = product.pop_limit_index;
            if idx as int >= product.population_limits@.len() {
                (
                    ps,
                    LeaderOutcome::PopulationLimitUnavailable,
                    e0.push(
                        Step17Effect::Residual {
                            leader_index: i,
                            residual: OpenResidual::PopulationLimitRowUnavailable {
                                index: idx,
                                supplied_rows: product.population_limits@.len() as usize,
                            },
                        },
                    ),
                )
            } else {
                let limit = product.population_limits@[idx as int];
                let e1 = e0.push(
                    Step17Effect::Read { leader_index: i, category_index: idx, value: limit },
                );
                if leader.pop_cap >= limit {
                    (ps, LeaderOutcome::AtOrAbovePopulationLimit { limit }, e1)
                } else {
                    (ps, LeaderOutcome::PresentationTailReached { limit }, e1 + tail_effects(i))
                }
            }
        }
    }
}

/// Leaders `0..k` in address order: the player table after them, their outcomes, and the
/// effects they produced in order.
pub open spec fn step17_run(
    leaders: Seq<LeaderSlot>,
    players: Seq<PlayerRecord>,
    product: ProductFacts,
    k: int,
) -> (Seq<PlayerRecord>, Seq<LeaderOutcome>, Seq<Step17Effect>)
    decreases k,
{
    if k <= 0 {
        (players, Seq::empty(), Seq::empty())
    } else {
        let (ps, outs, eff) = step17_run(leaders, players, product, k - 1);
        let (ps2, out, e) = leader_step17(leaders[k - 1], ps, product, (k - 1) as usize);
        (ps2, outs.push(out), eff + e)
    }
}

/// The local-mutation receipts of an effect run, numbered by position.
pub open spec fn locals_of(s: Seq<Step17Effect>) -> Seq<LocalMutationReceipt>
    decreases s.len(),
{
    if s.len() == 0 {
        Seq::empty()
    } else {
        let p = locals_of(s.drop_last());
        match s.last() {
            Step17Effect::Local(m) => p.push(
                LocalMutationReceipt { sequence: (s.len() - 1) as u16, mutation: m },
            ),
            _ => p,
        }
    }
}

/// The product-read receipts of an effect run, numbered by position.
pub open spec fn reads_of(s: Seq<Step17Effect>) -> Seq<ProductReadReceipt>
    decreases s.len(),
{
    if s.len() == 0 {
        Seq::empty()
    } else {
        let p = reads_of(s.drop_last());
        match s.last() {
            Step17Effect::Read { leader_index, category_index, value } => p.push(
                ProductReadReceipt {
                    sequence: (s.len() - 1) as u16,
                    leader_index,
                    category_index,
                    value,
                },
            ),
            _ => p,
        }
    }
}

/// The host-tail receipts of an effect run, numbered by position.
pub open spec fn tails_of(s: Seq<Step17Effect>) -> Seq<HostTailReceipt>
    decreases s.len(),
{
    if s.len() == 0 {
        Seq::empty()
    } else {
        let p = tails_of(s.drop_last());
        match s.last() {
            Step17Effect::Tail { leader_index, host_tail } => p.push(
                HostTailReceipt { sequence: (s.len() - 1) as u16, leader_index, host_tail },
            ),
            _ => p,
        }
    }
}

/// The residual receipts of an effect run, numbered by position.
pub open spec fn residuals_of(s: Seq<Step17Effect>) -> Seq<ResidualReceipt>
    decreases s.len(),
{
    if s.len() == 0 {
        Seq::empty()
    } else {
        let p = residuals_of(s.drop_last());
        match s.last() {
            Step17Effect::Residual { leader_index, residual } => p.push(
                ResidualReceipt { sequence: (s.len() - 1) as u16, leader_index, residual },
            ),
            _ => p,
        }
    }
}

/// The trace files exactly the effect run `eff`.
pub open spec fn trace_files(t: Step17Trace, eff: Seq<Step17Effect>) -> bool {
    &&& t.local_mutations@ == locals_of(eff)
    &&& t.product_reads@ == reads_of(eff)
    &&& t.host_tails@ == tails_of(eff)
    &&& t.residuals@ == residuals_of(eff)
    &&& t.total_sequenced_effects == eff.len()
}

/// A leader contributes at most eight effects.
proof fn lemma_scan_bounds(players: Seq<PlayerRecord>, i: usize, who: i32, j: int)
    requires
        0 <= j <= 8,
        players.len() == 8,
    ensures
        scan_players(players, i, who, j).0.len() == 8,
        0 <= scan_players(players, i, who, j).1 <= j,
        scan_players(players, i, who, j).2.len() == scan_players(players, i, who, j).1,
    decreases j,
{
    if j > 0 {
        lemma_scan_bounds(players, i, who, j - 1);
    }
}

/// Filing one more effect appends at most one receipt, to its own list.
proof fn lemma_file_push(eff: Seq<Step17Effect>, x: Step17Effect)
    ensures
        locals_of(eff.push(x)) == match x {
            Step17Effect::Local(m) => locals_of(eff).push(
                LocalMutationReceipt { sequence: eff.len() as u16, mutation: m },
            ),
            _ => locals_of(eff),
        },
        reads_of(eff.push(x)) == match x {
            Step17Effect::Read { leader_index, category_index, value } => reads_of(eff).push(
                ProductReadReceipt { sequence: eff.len() as u16, leader_index, category_index, value },
            ),
            _ => reads_of(eff),
        },
        tails_of(eff.push(x)) == match x {
            Step17Effect::Tail { leader_index, host_tail } => tails_of(eff).push(
                HostTailReceipt { sequence: eff.len() as u16, leader_index, host_tail },
            ),
            _ => tails_of(eff),
        },
        residuals_of(eff.push(x)) == match x {
            Step17Effect::Residual { leader_index, residual } => residuals_of(eff).push(
                ResidualReceipt { sequence: eff.len() as u16, leader_index, residual },
            ),
            _ => residuals_of(eff),
        },
{
    assert(eff.push(x).drop_last() =~= eff);
}

impl Default for Step17Trace {
    /// The trace before any leader is visited: every visit names its leader and address and
    /// is not visited, and no receipt is filed.
    fn default() -> (r: Self)
        ensures
            trace_files(r, Seq::empty()),
            forall|i: int|
                0 <= i < 8 ==> (#[trigger] r.visits@[i]).leader_index == i && r.visits@[i].leader_va
                    == LEADERS_BASE_VA + i * LEADER_STRIDE && r.visits@[i].outcome
                    == LeaderOutcome::NotVisited,
    {
        Step17Trace::fresh()
    }
}

impl Step17Trace {
    /// The trace before any leader is visited.
    fn fresh() -> (r: Step17Trace)
        ensures
            trace_files(r, Seq::empty()),
            forall|i: int|
                0 <= i < 8 ==> (#[trigger] r.visits@[i]).leader_index == i && r.visits@[i].leader_va
                    == LEADERS_BASE_VA + i * LEADER_STRIDE && r.visits@[i].outcome
                    == LeaderOutcome::NotVisited,
    {
        let visits = [
            LeaderVisit { leader_index: 0, leader_va: leader_va(0), outcome: LeaderOutcome::NotVisited },
            LeaderVisit { leader_index: 1, leader_va: leader_va(1), outcome: LeaderOutcome::NotVisited },
            LeaderVisit { leader_index: 2, leader_va: leader_va(2), outcome: LeaderOutcome::NotVisited },
            LeaderVisit { leader_index: 3, leader_va: leader_va(3), outcome: LeaderOutcome::NotVisited },
            LeaderVisit { leader_index: 4, leader_va: leader_va(4), outcome: LeaderOutcome::NotVisited },
            LeaderVisit { leader_index: 5, leader_va: leader_va(5), outcome: LeaderOutcome::NotVisited },
            LeaderVisit { leader_index: 6, leader_va: leader_va(6), outcome: LeaderOutcome::NotVisited },
            LeaderVisit { leader_index: 7, leader_va: leader_va(7), outcome: LeaderOutcome::NotVisited },
        ];
        Step17Trace {
            visits,
            local_mutations: Vec::new(),
            product_reads: Vec::new(),
            host_tails: Vec::new(),
            residuals: Vec::new(),
            total_sequenced_effects: 0,
        }
    }

    /// File one effect under the next sequence number.
    fn push_effect(&mut self, x: Step17Effect, Ghost(eff): Ghost<Seq<Step17Effect>>)
        requires
            trace_files(*old(self), eff),
            eff.len() < 0xffff,
        ensures
            trace_files(*final(self), eff.push(x)),
            final(self).visits == old(self).visits,
    {
        proof {
            lemma_file_push(eff, x);
        }
        let sequence = self.total_sequenced_effects;
        self.total_sequenced_effects = sequence + 1;
        match x {
            Step17Effect::Local(mutation) => {
                self.local_mutations.push(LocalMutationReceipt { sequence, mutation });
            },
            Step17Effect::Read { leader_index, category_index, value } => {
                self.product_reads.push(
                    ProductReadReceipt { sequence, leader_index, category_index, value },
                );
            },
            Step17Effect::Tail { leader_index, host_tail } => {
                self.host_tails.push(HostTailReceipt { sequence, leader_index, host_tail });
            },
            Step17Effect::Residual { leader_index, residual } => {
                self.residuals.push(ResidualReceipt { sequence, leader_index, residual });
            },
        }
    }
}

/// The full deterministic portion of the 549-byte scheduled body, leader by leader in
/// address order: a leader without the process flag is skipped; one with no population
/// issue clears the warning bit of every valid player of its `who`; one with an issue is
/// handled only if it is the console's leader, and then only when the console's player
/// exists and at least 450 frames (wrapping) have passed since its last feedback. A due
/// player is stamped before the category row is read; a leader below the limit reaches
/// the three presentation calls.
#[verifier::rlimit(60)]
pub fn execute_step17(state: &mut Step17State, product: ProductFacts<'_>) -> (r: Step17Trace)
    ensures
        final(state).leaders == old(state).leaders,
        ({
            let (ps, outs, eff) = step17_run(old(state).leaders@, old(state).players@, product, 8);
            &&& final(state).players@ == ps
            &&& trace_files(r, eff)
            &&& forall|i: int|
                0 <= i < 8 ==> (#[trigger] r.visits@[i]).leader_index == i && r.visits@[i].leader_va
                    == LEADERS_BASE_VA + i * LEADER_STRIDE && r.visits@[i].outcome == outs[i]
        }),
{
    let mut trace = Step17Trace::fresh();
    let ghost leaders0 = state.leaders@;
    let ghost players0 = state.players@;
    let mut leader_index: usize = 0;
    while leader_index < 8
        invariant
            leader_index <= 8,
            state.leaders@ == leaders0,
            state.leaders == old(state).leaders,
            leaders0 == old(state).leaders@,
            players0 == old(state).players@,
            ({
                let (ps, outs, eff) = step17_run(leaders0, players0, product, leader_index as int);
                &&& state.players@ == ps
                &&& trace_files(trace, eff)
                &&& eff.len() <= 8 * leader_index
                &&& outs.len() == leader_index
                &&& forall|i: int|
                    0 <= i < 8 ==> (#[trigger] trace.visits@[i]).leader_index == i
                        && trace.visits@[i].leader_va == LEADERS_BASE_VA + i * LEADER_STRIDE
                        && (i < leader_index ==> trace.visits@[i].outcome == outs[i])
            }),
        decreases 8 - leader_index,
    {
        let ghost run = step17_run(leaders0, players0, product, leader_index as int);
        let ghost step = leader_step17(leaders0[leader_index as int], run.0, product, leader_index);
        let leader = state.leaders[leader_index];
        let outcome = step17_leader(state, &mut trace, leader, product, leader_index, Ghost(run.2));
        let mut visit = trace.visits[leader_index];
        visit.outcome = outcome;
        trace.visits[leader_index] = visit;
        proof {
            assert(step17_run(leaders0, players0, product, leader_index + 1) == (step.0, run.1.push(step.1), run.2 + step.2));
        }
        leader_index = leader_index + 1;
    }
    trace
}

/// One leader of the dispatcher.
#[verifier::rlimit(60)]
fn step17_leader(
    state: &mut Step17State,
    trace: &mut Step17Trace,
    leader: LeaderSlot,
    product: ProductFacts<'_>,
    leader_index: usize,
    Ghost(eff): Ghost<Seq<Step17Effect>>,
) -> (outcome: LeaderOutcome)
    requires
        leader_index < 8,
        trace_files(*old(trace), eff),
        eff.len() <= 8 * leader_index,
    ensures
        ({
            let (ps, out, e) = leader_step17(leader, old(state).players@, product, leader_index);
            &&& final(state).players@ == ps
            &&& outcome == out
            &&& trace_files(*final(trace), eff + e)
            &&& e.len() <= 8
        }),
        final(state).leaders == old(state).leaders,
        final(trace).visits == old(trace).visits,
{
    let ghost players0 = state.players@;
    if leader.flags & LEADER_PROCESS_FLAG == 0 {
        assert(eff + Seq::<Step17Effect>::empty() =~= eff);
        return LeaderOutcome::ProcessFlagClear;
    }
    if leader.pop_issues == 0 {
        let mut stores: u8 = 0;
        let mut player_index: usize = 0;
        while player_index < 8
            invariant
                player_index <= 8,
                leader_index < 8,
                eff.len() <= 8 * leader_index,
                state.leaders == old(state).leaders,
                trace.visits == old(trace).visits,
                players0 == old(state).players@,
                ({
                    let (ps, n, e) = scan_players(players0, leader_index, leader.who, player_index as int);
                    &&& state.players@ == ps
                    &&& stores == n
                    &&& trace_files(*trace, eff + e)
                }),
            decreases 8 - player_index,
        {
            proof {
                lemma_scan_bounds(players0, leader_index, leader.who, player_index as int);
                lemma_scan_bounds(players0, leader_index, leader.who, player_index + 1);
            }
            let ghost prev = scan_players(players0, leader_index, leader.who, player_index as int);
            let player = state.players[player_index];
            if !(player.flags & PLAYER_VALID_FLAG == 0 || player.who as i32 != leader.who) {
                let before = player.flags;
                let after = before & !PLAYER_POP_CAP_WARNING_FLAG;
                state.players[player_index] = PlayerRecord { flags: after, ..player };
                let x = Step17Effect::Local(
                    LocalMutation::PlayerFlags { leader_index, player_index, before, after },
                );
                trace.push_effect(x, Ghost(eff + prev.2));
                stores = stores + 1;
                proof {
                    assert((eff + prev.2).push(x) =~= eff + prev.2.push(x));
                }
            }
            player_index = player_index + 1;
        }
        proof {
            lemma_scan_bounds(players0, leader_index, leader.who, 8);
        }
        return LeaderOutcome::WarningScan { stores };
    }
    if leader.who != product.console_who {
        assert(eff + Seq::<Step17Effect>::empty() =~= eff);
        return LeaderOutcome::NonLocalPopulationIssue;
    }
    if product.console_play < 0 || product.console_play >= 8 {
        let x = Step17Effect::Residual {
            leader_index,
            residual: OpenResidual::ConsolePlayOutsidePlayerArray { play: product.console_play },
        };
        trace.push_effect(x, Ghost(eff));
        assert(eff.push(x) =~= eff + seq![x]);
        return LeaderOutcome::LocalPlayerUnavailable;
    }
    let player_index = product.console_play as usize;
    let previous_frame = state.players[player_index].pop_cap_frame;
    let elapsed = product.frame.wrapping_sub(previous_frame);
    if elapsed < POP_WARNING_MIN_ELAPSED {
        assert(eff + Seq::<Step17Effect>::empty() =~= eff);
        return LeaderOutcome::FeedbackRateLimited { elapsed };
    }
    let p = state.players[player_index];
    state.players[player_index] = PlayerRecord { pop_cap_frame: product.frame, ..p };
    let x0 = Step17Effect::Local(
        LocalMutation::PlayerPopCapFrame {
            leader_index,
            player_index,
            before: previous_frame,
            after: product.frame,
        },
    );
    trace.push_effect(x0, Ghost(eff));
    let ghost e0 = seq![x0];
    assert(eff.push(x0) =~= eff + e0);
    let category_index = product.pop_limit_index;
    if category_index as usize >= product.population_limits.len() {
        let x1 = Step17Effect::Residual {
            leader_index,
            residual: OpenResidual::PopulationLimitRowUnavailable {
                index: category_index,
                supplied_rows: product.population_limits.len(),
            },
        };
        trace.push_effect(x1, Ghost(eff + e0));
        assert((eff + e0).push(x1) =~= eff + e0.push(x1));
        return LeaderOutcome::PopulationLimitUnavailable;
    }
    let limit = product.population_limits[category_index as usize];
    let x1 = Step17Effect::Read { leader_index, category_index, value: limit };
    trace.push_effect(x1, Ghost(eff + e0));
    let ghost e1 = e0.push(x1);
    assert((eff + e0).push(x1) =~= eff + e1);
    if leader.pop_cap >= limit {
        return LeaderOutcome::AtOrAbovePopulationLimit { limit };
    }
    let t0 = Step17Effect::Tail {
        leader_index,
        host_tail: HostTail::CopyLocalizedString {
            constructor_va: STRING_COPY_CTOR_VA,
            text_offset: POP_WARNING_TEXT_OFFSET,
        },
    };
    let t1 = Step17Effect::Tail {
        leader_index,
        host_tail: HostTail::MessageWinAddFeedback {
            call_va: MESSAGE_WIN_ADD_FEEDBACK_VA,
            duration: -1,
            color_va: RED_COLOR_VA,
        },
    };
    let t2 = Step17Effect::Tail {
        leader_index,
        host_tail: HostTail::SoundGlobalPlay {
            call_va: SOUND_GLOBAL_PLAY_VA,
            category: POP_WARNING_SOUND_CATEGORY,
        },
    };
    trace.push_effect(t0, Ghost(eff + e1));
    trace.push_effect(t1, Ghost((eff + e1).push(t0)));
    trace.push_effect(t2, Ghost((eff + e1).push(t0).push(t1)));
    assert(tail_effects(leader_index) =~= seq![t0, t1, t2]);
    assert((eff + e1).push(t0).push(t1).push(t2) =~= eff + (e1 + tail_effects(leader_index)));
    LeaderOutcome::PresentationTailReached { limit }
}

// ---------------------------------------------------------------------------------------
// The shared sequence domain of the receipts.
// ---------------------------------------------------------------------------------------

/// The kind of an effect: 0 local, 1 read, 2 host tail, 3 residual.
pub open spec fn effect_kind(e: Step17Effect) -> int {
    match e {
        Step17Effect::Local(_) => 0,
        Step17Effect::Read { .. } => 1,
        Step17Effect::Tail { .. } => 2,
        Step17Effect::Residual { .. } => 3,
    }
}

/// A list of sequence numbers that increase strictly, each naming an effect of kind `k`.
pub open spec fn numbers_effects_of_kind(seqs: Seq<u16>, eff: Seq<Step17Effect>, k: int) -> bool {
    &&& forall|i: int, j: int| 0 <= i < j < seqs.len() ==> seqs[i] < seqs[j]
    &&& forall|i: int| 0 <= i < seqs.len() ==> #[trigger] seqs[i] < eff.len()
    &&& forall|i: int| #![trigger seqs[i]] 0 <= i < seqs.len() ==> effect_kind(eff[seqs[i] as int]) == k
}

/// Appending an effect keeps a numbering valid, and numbering the new effect when it is of
/// the list's kind keeps it valid too.
proof fn lemma_numbered_push(seqs: Seq<u16>, e0: Seq<Step17Effect>, x: Step17Effect, k: int)
    requires
        numbers_effects_of_kind(seqs, e0, k),
        e0.len() < 0x1_0000,
    ensures
        numbers_effects_of_kind(seqs, e0.push(x), k),
        effect_kind(x) == k ==> numbers_effects_of_kind(seqs.push(e0.len() as u16), e0.push(x), k),
{
    let eff = e0.push(x);
    assert forall|i: int| #![trigger seqs[i]] 0 <= i < seqs.len() implies effect_kind(eff[seqs[i] as int]) == k by {
        assert(seqs[i] < e0.len());
        assert(eff[seqs[i] as int] == e0[seqs[i] as int]);
    }
    if effect_kind(x) == k {
        let t = seqs.push(e0.len() as u16);
        assert forall|i: int, j: int| 0 <= i < j < t.len() implies t[i] < t[j] by {
            if j < seqs.len() {
                assert(seqs[i] < seqs[j]);
            } else {
                assert(seqs[i] < e0.len());
            }
        }
        assert forall|i: int| #![trigger t[i]] 0 <= i < t.len() implies t[i] < eff.len() && effect_kind(eff[t[i] as int]) == k by {
            if i < seqs.len() {
                assert(t[i] == seqs[i]);
                assert(seqs[i] < e0.len());
                assert(effect_kind(eff[seqs[i] as int]) == k);
            }
        }
    }
}

proof fn lemma_locals_numbered(eff: Seq<Step17Effect>)
    requires
        eff.len() <= 0x1_0000,
    ensures
        numbers_effects_of_kind(locals_of(eff).map_values(|r: LocalMutationReceipt| r.sequence), eff, 0),
    decreases eff.len(),
{
    let f = |r: LocalMutationReceipt| r.sequence;
    if eff.len() > 0 {
        let e0 = eff.drop_last();
        lemma_locals_numbered(e0);
        lemma_numbered_push(locals_of(e0).map_values(f), e0, eff.last(), 0);
        assert(e0.push(eff.last()) =~= eff);
        assert(locals_of(eff).map_values(f) =~= match eff.last() {
            Step17Effect::Local(_) => locals_of(e0).map_values(f).push(e0.len() as u16),
            _ => locals_of(e0).map_values(f),
        });
    } else {
        assert(locals_of(eff).map_values(f) =~= Seq::<u16>::empty());
    }
}

proof fn lemma_reads_numbered(eff: Seq<Step17Effect>)
    requires
        eff.len() <= 0x1_0000,
    ensures
        numbers_effects_of_kind(reads_of(eff).map_values(|r: ProductReadReceipt| r.sequence), eff, 1),
    decreases eff.len(),
{
    let f = |r: ProductReadReceipt| r.sequence;
    if eff.len() > 0 {
        let e0 = eff.drop_last();
        lemma_reads_numbered(e0);
        lemma_numbered_push(reads_of(e0).map_values(f), e0, eff.last(), 1);
        assert(e0.push(eff.last()) =~= eff);
        assert(reads_of(eff).map_values(f) =~= match eff.last() {
            Step17Effect::Read { .. } => reads_of(e0).map_values(f).push(e0.len() as u16),
            _ => reads_of(e0).map_values(f),
        });
    } else {
        assert(reads_of(eff).map_values(f) =~= Seq::<u16>::empty());
    }
}

proof fn lemma_tails_numbered(eff: Seq<Step17Effect>)
    requires
        eff.len() <= 0x1_0000,
    ensures
        numbers_effects_of_kind(tails_of(eff).map_values(|r: HostTailReceipt| r.sequence), eff, 2),
    decreases eff.len(),
{
    let f = |r: HostTailReceipt| r.sequence;
    if eff.len() > 0 {
        let e0 = eff.drop_last();
        lemma_tails_numbered(e0);
        lemma_numbered_push(tails_of(e0).map_values(f), e0, eff.last(), 2);
        assert(e0.push(eff.last()) =~= eff);
        assert(tails_of(eff).map_values(f) =~= match eff.last() {
            Step17Effect::Tail { .. } => tails_of(e0).map_values(f).push(e0.len() as u16),
            _ => tails_of(e0).map_values(f),
        });
    } else {
        assert(tails_of(eff).map_values(f) =~= Seq::<u16>::empty());
    }
}

proof fn lemma_residuals_numbered(eff: Seq<Step17Effect>)
    requires
        eff.len() <= 0x1_0000,
    ensures
        numbers_effects_of_kind(residuals_of(eff).map_values(|r: ResidualReceipt| r.sequence), eff, 3),
    decreases eff.len(),
{
    let f = |r: ResidualReceipt| r.sequence;
    if eff.len() > 0 {
        let e0 = eff.drop_last();
        lemma_residuals_numbered(e0);
        lemma_numbered_push(residuals_of(e0).map_values(f), e0, eff.last(), 3);
        assert(e0.push(eff.last()) =~= eff);
        assert(residuals_of(eff).map_values(f) =~= match eff.last() {
            Step17Effect::Residual { .. } => residuals_of(e0).map_values(f).push(e0.len() as u16),
            _ => residuals_of(e0).map_values(f),
        });
    } else {
        assert(residuals_of(eff).map_values(f) =~= Seq::<u16>::empty());
    }
}

/// The four receipt lists of a trace share one sequence domain: in each list the numbers
/// increase strictly and stay below the effect count, and a number names the effect of its
/// own list's kind, so no two lists share a number.
pub proof fn lemma_receipts_share_one_sequence(t: Step17Trace, eff: Seq<Step17Effect>)
    requires
        trace_files(t, eff),
        eff.len() <= 0x1_0000,
    ensures
        numbers_effects_of_kind(t.local_mutations@.map_values(|r: LocalMutationReceipt| r.sequence), eff, 0),
        numbers_effects_of_kind(t.product_reads@.map_values(|r: ProductReadReceipt| r.sequence), eff, 1),
        numbers_effects_of_kind(t.host_tails@.map_values(|r: HostTailReceipt| r.sequence), eff, 2),
        numbers_effects_of_kind(t.residuals@.map_values(|r: ResidualReceipt| r.sequence), eff, 3),
        forall|i: int, j: int|
            0 <= i < t.local_mutations@.len() && 0 <= j < t.host_tails@.len() ==> t.local_mutations@[i].sequence
                != t.host_tails@[j].sequence,
        forall|i: int, j: int|
            0 <= i < t.product_reads@.len() && 0 <= j < t.host_tails@.len() ==> t.product_reads@[i].sequence
                != t.host_tails@[j].sequence,
        forall|i: int, j: int|
            0 <= i < t.residuals@.len() && 0 <= j < t.host_tails@.len() ==> t.residuals@[i].sequence
                != t.host_tails@[j].sequence,
        forall|i: int, j: int|
            0 <= i < t.local_mutations@.len() && 0 <= j < t.product_reads@.len() ==> t.local_mutations@[i].sequence
                != t.product_reads@[j].sequence,
        forall|i: int, j: int|
            0 <= i < t.local_mutations@.len() && 0 <= j < t.residuals@.len() ==> t.local_mutations@[i].sequence
                != t.residuals@[j].sequence,
        forall|i: int, j: int|
            0 <= i < t.product_reads@.len() && 0 <= j < t.residuals@.len() ==> t.product_reads@[i].sequence
                != t.residuals@[j].sequence,
{
    lemma_locals_numbered(eff);
    lemma_reads_numbered(eff);
    lemma_tails_numbered(eff);
    lemma_residuals_numbered(eff);
    let l = t.local_mutations@.map_values(|r: LocalMutationReceipt| r.sequence);
    let p = t.product_reads@.map_values(|r: ProductReadReceipt| r.sequence);
    let h = t.host_tails@.map_values(|r: HostTailReceipt| r.sequence);
    let q = t.residuals@.map_values(|r: ResidualReceipt| r.sequence);
    assert forall|i: int, j: int| 0 <= i < l.len() && 0 <= j < h.len() implies t.local_mutations@[i].sequence
        != t.host_tails@[j].sequence by {
        assert(effect_kind(eff[l[i] as int]) == 0 && effect_kind(eff[h[j] as int]) == 2);
    }
    assert forall|i: int, j: int| 0 <= i < p.len() && 0 <= j < h.len() implies t.product_reads@[i].sequence
        != t.host_tails@[j].sequence by {
        assert(effect_kind(eff[p[i] as int]) == 1 && effect_kind(eff[h[j] as int]) == 2);
    }
    assert forall|i: int, j: int| 0 <= i < q.len() && 0 <= j < h.len() implies t.residuals@[i].sequence
        != t.host_tails@[j].sequence by {
        assert(effect_kind(eff[q[i] as int]) == 3 && effect_kind(eff[h[j] as int]) == 2);
    }
    assert forall|i: int, j: int| 0 <= i < l.len() && 0 <= j < p.len() implies t.local_mutations@[i].sequence
        != t.product_reads@[j].sequence by {
        assert(effect_kind(eff[l[i] as int]) == 0 && effect_kind(eff[p[j] as int]) == 1);
    }
    assert forall|i: int, j: int| 0 <= i < l.len() && 0 <= j < q.len() implies t.local_mutations@[i].sequence
        != t.residuals@[j].sequence by {
        assert(effect_kind(eff[l[i] as int]) == 0 && effect_kind(eff[q[j] as int]) == 3);
    }
    assert forall|i: int, j: int| 0 <= i < p.len() && 0 <= j < q.len() implies t.product_reads@[i].sequence
        != t.residuals@[j].sequence by {
        assert(effect_kind(eff[p[i] as int]) == 1 && effect_kind(eff[q[j] as int]) == 3);
    }
}


/// A leader that reaches the population-cap feedback: processed, with a population issue,
/// on the console seat, and the console's player inside the player table.
pub open spec fn reaches_pop_feedback(l: LeaderSlot, product: ProductFacts) -> bool {
    &&& l.flags & LEADER_PROCESS_FLAG != 0
    &&& l.pop_issues != 0
    &&& l.who == product.console_who
    &&& 0 <= product.console_play < 8
}

proof fn lemma_scan_keeps_frames(players: Seq<PlayerRecord>, i: usize, who: i32, j: int)
    requires
        0 <= j <= 8,
        players.len() == 8,
    ensures
        scan_players(players, i, who, j).0.len() == 8,
        forall|q: int| 0 <= q < 8 ==> #[trigger] scan_players(players, i, who, j).0[q].pop_cap_frame
            == players[q].pop_cap_frame,
    decreases j,
{
    if j > 0 {
        lemma_scan_keeps_frames(players, i, who, j - 1);
    }
}

/// The run's player table has eight records; before leader `k` it is the table leader `k`
/// sees; outcome `i` of a longer run is what leader `i` did to the table it saw.
proof fn lemma_run_prefix(leaders: Seq<LeaderSlot>, players: Seq<PlayerRecord>, product: ProductFacts, k: int)
    requires
        0 <= k <= 8,
        players.len() == 8,
    ensures
        step17_run(leaders, players, product, k).0.len() == 8,
        step17_run(leaders, players, product, k).1.len() == k,
        forall|i: int|
            0 <= i < k ==> #[trigger] step17_run(leaders, players, product, k).1[i] == leader_step17(
                leaders[i],
                step17_run(leaders, players, product, i).0,
                product,
                i as usize,
            ).1,
    decreases k,
{
    if k > 0 {
        lemma_run_prefix(leaders, players, product, k - 1);
        let ps = step17_run(leaders, players, product, k - 1).0;
        let l = leaders[k - 1];
        if l.flags & LEADER_PROCESS_FLAG != 0 && l.pop_issues == 0 {
            lemma_scan_keeps_frames(ps, (k - 1) as usize, l.who, 8);
        }
        assert forall|i: int| 0 <= i < k implies #[trigger] step17_run(leaders, players, product, k).1[i]
            == leader_step17(leaders[i], step17_run(leaders, players, product, i).0, product, i as usize).1 by {
            if i < k - 1 {
                assert(step17_run(leaders, players, product, k).1[i] == step17_run(leaders, players, product, k - 1).1[i]);
            }
        }
    }
}

/// Until a leader reaches the population-cap feedback, no player's stamp changes.
proof fn lemma_run_keeps_frames(leaders: Seq<LeaderSlot>, players: Seq<PlayerRecord>, product: ProductFacts, k: int)
    requires
        0 <= k <= 8,
        players.len() == 8,
        forall|j: int| 0 <= j < k ==> !reaches_pop_feedback(#[trigger] leaders[j], product),
    ensures
        forall|q: int| 0 <= q < 8 ==> #[trigger] step17_run(leaders, players, product, k).0[q].pop_cap_frame
            == players[q].pop_cap_frame,
    decreases k,
{
    if k > 0 {
        lemma_run_keeps_frames(leaders, players, product, k - 1);
        lemma_run_prefix(leaders, players, product, k - 1);
        let ps = step17_run(leaders, players, product, k - 1).0;
        let l = leaders[k - 1];
        assert(!reaches_pop_feedback(l, product));
        if l.flags & LEADER_PROCESS_FLAG != 0 && l.pop_issues == 0 {
            lemma_scan_keeps_frames(ps, (k - 1) as usize, l.who, 8);
        }
    }
}

/// Law of the population-cap feedback of the end-of-turn step. A leader `i` that reaches it
/// reads the elapsed time since the console player's stamp in the table it sees (the table
/// after leaders `0..i`, which is the table before the step when no earlier leader reached
/// the feedback). Under 450 frames the feedback is rate limited and the table is left alone.
/// Otherwise the player is stamped with the current frame, and that stamp is the leader's
/// first effect, before the population limit is read; then a missing limit row, a cap at or
/// above the limit, or a cap below it with the three presentation calls (string copy,
/// feedback message, sound) decides the outcome.
pub proof fn lemma_pop_cap_feedback(
    leaders: Seq<LeaderSlot>,
    players: Seq<PlayerRecord>,
    product: ProductFacts,
    i: int,
)
    requires
        0 <= i < 8,
        players.len() == 8,
        reaches_pop_feedback(leaders[i], product),
    ensures
        ({
            let p = product.console_play as int;
            let seen = step17_run(leaders, players, product, i).0;
            let (after, _, eff_i) = leader_step17(leaders[i], seen, product, i as usize);
            let out = step17_run(leaders, players, product, 8).1[i];
            let e = product.frame.wrapping_sub(seen[p].pop_cap_frame);
            &&& step17_run(leaders, players, product, i + 1).0 == after
            &&& step17_run(leaders, players, product, i + 1).2 == step17_run(leaders, players, product, i).2 + eff_i
            &&& (forall|j: int| 0 <= j < i ==> !reaches_pop_feedback(#[trigger] leaders[j], product))
                ==> seen[p].pop_cap_frame == players[p].pop_cap_frame
            &&& e < 450 ==> out == LeaderOutcome::FeedbackRateLimited { elapsed: e } && after == seen && eff_i.len() == 0
            &&& e >= 450 ==> {
                &&& after == seen.update(p, PlayerRecord { pop_cap_frame: product.frame, ..seen[p] })
                &&& eff_i[0] == Step17Effect::Local(
                    LocalMutation::PlayerPopCapFrame {
                        leader_index: i as usize,
                        player_index: p as usize,
                        before: seen[p].pop_cap_frame,
                        after: product.frame,
                    },
                )
                &&& product.pop_limit_index as int >= product.population_limits@.len() ==> out
                    == LeaderOutcome::PopulationLimitUnavailable && eff_i.len() == 2
                &&& product.pop_limit_index as int >= product.population_limits@.len() || {
                    let limit = product.population_limits@[product.pop_limit_index as int];
                    &&& eff_i[1] == Step17Effect::Read {
                        leader_index: i as usize,
                        category_index: product.pop_limit_index,
                        value: limit,
                    }
                    &&& leaders[i].pop_cap >= limit ==> out == LeaderOutcome::AtOrAbovePopulationLimit { limit }
                        && eff_i.len() == 2
                    &&& leaders[i].pop_cap < limit ==> out == LeaderOutcome::PresentationTailReached { limit }
                        && eff_i.subrange(2, eff_i.len() as int) == tail_effects(i as usize)
                }
            }
        }),
{
    lemma_run_prefix(leaders, players, product, 8);
    lemma_run_prefix(leaders, players, product, i);
    if forall|j: int| 0 <= j < i ==> !reaches_pop_feedback(#[trigger] leaders[j], product) {
        lemma_run_keeps_frames(leaders, players, product, i);
    }
    let seen = step17_run(leaders, players, product, i).0;
    let eff_i = leader_step17(leaders[i], seen, product, i as usize).2;
    let e = product.frame.wrapping_sub(seen[product.console_play as int].pop_cap_frame);
    if e >= 450 && (product.pop_limit_index as int) < product.population_limits@.len()
        && leaders[i].pop_cap < product.population_limits@[product.pop_limit_index as int] {
        assert(eff_i.subrange(2, eff_i.len() as int) =~= tail_effects(i as usize));
    }
}

} // verus!
