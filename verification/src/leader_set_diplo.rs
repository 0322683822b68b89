//! Atomic plan for `Leader::set_diplo` (`0x006EC6A0`) and its resource-owning callers.
//!
//! This module has no dependency on the command dispatcher or the live `World`. It is a
//! transaction contract: a host supplies every fact read by the body, the planner emits
//! instruction-ordered simulation calls and typed presentation envelopes, and an applied
//! receipt is valid only when every authoritative call is acknowledged. Missing facts fail
//! before a mutable after-image is returned.
//!
//! Images are specified through their views (`@`), in which every array and list is a
//! sequence; [`plan_set_diplo_spec`], [`accepted_deal_spec`] and [`declaration_payments_spec`]
//! state the three planners whole.
use vstd::prelude::*;

use crate::leaders_process_event_frame_step19::{quot, trunc_div};

verus! {

pub const DIPLO_SLOTS: usize = 8;
pub const NUM_GOODS: usize = 6;
pub const ARMY_SLOTS: usize = 16;
pub const SHARED_VISION_PREQ: i32 = 0x2b0;
pub const AIR_PATROL_ORDER: i32 = 0x136;
/// The sound played with a foreign-relation announcement.
pub const FOREIGN_RELATION_SOUND: i32 = 0x135;
/// The victory-mask bit set when an alliance leaves no independent active leader.
pub const VICTORY_BIT_22: u32 = 0x0040_0000;

#[derive(Clone, Copy, Debug, PartialEq, Eq, Structural)]
pub enum Relation {
    War,
    Peace,
    Ally,
}

/// The stored dword of a relation.
pub open spec fn relation_code(r: Relation) -> i32 {
    match r {
        Relation::War => 0,
        Relation::Peace => 1,
        Relation::Ally => 2,
    }
}

impl Relation {
    /// The stored dword: 0 war, 1 peace, 2 ally.
    pub fn code(self) -> (r: i32)
        ensures
            r == relation_code(self),
    {
        match self {
            Relation::War => 0,
            Relation::Peace => 1,
            Relation::Ally => 2,
        }
    }
}

#[derive(Clone, Copy, Debug, PartialEq, Eq, Structural)]
pub struct EjectionUnitFact {
    /// Stable object-array identity; entries are in owner-list order.
    pub object_id: i32,
    /// Result of the object's `vt+0x08` unit query.
    pub is_unit: bool,
    /// `ObjectData::get_inside`; `None` means the object is not contained.
    pub carrier_who: Option<usize>,
    /// `Unit::come_out(0)` return value, needed only when `carrier_who` is the revoked ally.
    /// Zero is success.
    pub come_out_return: Option<i32>,
    /// `UnitTypeData::domain`, needed after a successful `come_out`.
    pub domain: Option<i32>,
    /// The virtual order query `(AIR_PATROL_ORDER, 0)`, needed only for domain 2.
    pub has_air_patrol_order: Option<bool>,
}

#[derive(Clone, Debug, PartialEq, Eq)]
pub struct LeaderSetDiploFacts {
    /// The leader at slot `i` has `LeaderData::who == i`.
    pub who: Option<i32>,
    pub leader_flags: Option<u32>,
    pub leader_flags2: Option<u32>,
    pub diplos: [Option<Relation>; 8],
    /// Byte at `LeaderData+0x6929`; one bit per leader.
    pub shared_vision: Option<u8>,
    /// Result of `has_preq(SHARED_VISION_PREQ)`.
    pub has_shared_vision_preq: Option<bool>,
    /// Full owner object-list image used by `eject_my_shit_from_his_ass`.
    pub ejection_units: Option<Vec<EjectionUnitFact>>,
    /// Valid bit for each preallocated army, in slot order.
    pub valid_armies: Option<[bool; 16]>,
}

/// A leader's facts with every array and list as a sequence.
pub struct LeaderFactsView {
    pub who: Option<i32>,
    pub leader_flags: Option<u32>,
    pub leader_flags2: Option<u32>,
    pub diplos: Seq<Option<Relation>>,
    pub shared_vision: Option<u8>,
    pub has_shared_vision_preq: Option<bool>,
    pub ejection_units: Option<Seq<EjectionUnitFact>>,
    pub valid_armies: Option<Seq<bool>>,
}

impl View for LeaderSetDiploFacts {
    type V = LeaderFactsView;

    open spec fn view(&self) -> LeaderFactsView {
        LeaderFactsView {
            who: self.who,
            leader_flags: self.leader_flags,
            leader_flags2: self.leader_flags2,
            diplos: self.diplos@,
            shared_vision: self.shared_vision,
            has_shared_vision_preq: self.has_shared_vision_preq,
            ejection_units: match self.ejection_units {
                Some(v) => Some(v@),
                None => None,
            },
            valid_armies: match self.valid_armies {
                Some(a) => Some(a@),
                None => None,
            },
        }
    }
}

impl Default for LeaderSetDiploFacts {
    /// Every fact missing.
    fn default() -> (r: Self)
        ensures
            r.who is None && r.leader_flags is None && r.leader_flags2 is None,
            forall|i: int| 0 <= i < 8 ==> r.diplos@[i] is None,
            r.shared_vision is None && r.has_shared_vision_preq is None,
            r.ejection_units is None && r.valid_armies is None,
    {
        LeaderSetDiploFacts {
            who: None,
            leader_flags: None,
            leader_flags2: None,
            diplos: [None, None, None, None, None, None, None, None],
            shared_vision: None,
            has_shared_vision_preq: None,
            ejection_units: None,
            valid_armies: None,
        }
    }
}

impl LeaderSetDiploFacts {
    /// A copy with the same view.
    pub fn duplicate(&self) -> (r: Self)
        ensures
            r@ == self@,
    {
        let units = match &self.ejection_units {
            Some(v) => {
                let c = v.clone();
                assert(c@ =~= v@);
                Some(c)
            },
            None => None,
        };
        LeaderSetDiploFacts {
            who: self.who,
            leader_flags: self.leader_flags,
            leader_flags2: self.leader_flags2,
            diplos: self.diplos,
            shared_vision: self.shared_vision,
            has_shared_vision_preq: self.has_shared_vision_preq,
            ejection_units: units,
            valid_armies: self.valid_armies,
        }
    }
}

#[derive(Clone, Debug, PartialEq, Eq)]
pub struct SetDiploImage {
    pub leaders: [LeaderSetDiploFacts; 8],
    /// `Console+0x298`. `-1` is a valid no-local-player value.
    pub local_who: Option<i32>,
    /// `get_scary_console_leader()->has_treaty(who, 1)`.
    pub console_treaty_one: [Option<bool>; 8],
    /// `GameData+0x30 >= 1`, the fallback after `has_preq(0x2b0)`.
    pub global_shared_vision: Option<bool>,
    /// `IFaceData+0x22a`.
    pub interface_dirty: bool,
    /// The game victory mask containing bit 22.
    pub victory_mask: u32,
}

/// An image with every array and list as a sequence.
pub struct SetDiploImageView {
    pub leaders: Seq<LeaderFactsView>,
    pub local_who: Option<i32>,
    pub console_treaty_one: Seq<Option<bool>>,
    pub global_shared_vision: Option<bool>,
    pub interface_dirty: bool,
    pub victory_mask: u32,
}

impl View for SetDiploImage {
    type V = SetDiploImageView;

    open spec fn view(&self) -> SetDiploImageView {
        SetDiploImageView {
            leaders: self.leaders@.map_values(|l: LeaderSetDiploFacts| l@),
            local_who: self.local_who,
            console_treaty_one: self.console_treaty_one@,
            global_shared_vision: self.global_shared_vision,
            interface_dirty: self.interface_dirty,
            victory_mask: self.victory_mask,
        }
    }
}

impl Default for SetDiploImage {
    /// Every fact missing, the interface clean and no victory bit.
    fn default() -> (r: Self)
        ensures
            forall|i: int|
                0 <= i < 8 ==> {
                    let l = #[trigger] r.leaders@[i];
                    &&& l.who is None && l.leader_flags is None && l.leader_flags2 is None
                    &&& forall|j: int| 0 <= j < 8 ==> l.diplos@[j] is None
                    &&& l.shared_vision is None && l.has_shared_vision_preq is None
                    &&& l.ejection_units is None && l.valid_armies is None
                },
            r.local_who is None,
            forall|i: int| 0 <= i < 8 ==> r.console_treaty_one@[i] is None,
            r.global_shared_vision is None,
            !r.interface_dirty,
            r.victory_mask == 0,
    {
        SetDiploImage {
            leaders: [
                LeaderSetDiploFacts::default(),
                LeaderSetDiploFacts::default(),
                LeaderSetDiploFacts::default(),
                LeaderSetDiploFacts::default(),
                LeaderSetDiploFacts::default(),
                LeaderSetDiploFacts::default(),
                LeaderSetDiploFacts::default(),
                LeaderSetDiploFacts::default(),
            ],
            local_who: None,
            console_treaty_one: [None, None, None, None, None, None, None, None],
            global_shared_vision: None,
            interface_dirty: false,
            victory_mask: 0,
        }
    }
}

impl SetDiploImage {
    /// A copy with the same view.
    pub fn duplicate(&self) -> (r: Self)
        ensures
            r@ == self@,
    {
        let r = SetDiploImage {
            leaders: [
                self.leaders[0].duplicate(),
                self.leaders[1].duplicate(),
                self.leaders[2].duplicate(),
                self.leaders[3].duplicate(),
                self.leaders[4].duplicate(),
                self.leaders[5].duplicate(),
                self.leaders[6].duplicate(),
                self.leaders[7].duplicate(),
            ],
            local_who: self.local_who,
            console_treaty_one: self.console_treaty_one,
            global_shared_vision: self.global_shared_vision,
            interface_dirty: self.interface_dirty,
            victory_mask: self.victory_mask,
        };
        assert(r@.leaders =~= self@.leaders);
        r
    }
}

#[derive(Clone, Copy, Debug, PartialEq, Eq, Structural)]
pub struct SetDiploRequest {
    pub actor: usize,
    pub target: usize,
    pub state: Relation,
}

#[derive(Clone, Copy, Debug, PartialEq, Eq, Structural)]
pub enum MissingEjectionFact {
    ComeOutReturn,
    Domain,
    AirPatrolOrder,
}

#[derive(Clone, Copy, Debug, PartialEq, Eq, Structural)]
pub enum SetDiploPlanError {
    LeaderOutOfRange { value: usize },
    MissingIdentity { slot: usize },
    LeaderIdentityMismatch { slot: usize, who: i32 },
    MissingRelation { from: usize, to: usize },
    MissingLocalWho,
    MissingConsoleTreaty { who: usize },
    MissingSharedVision { who: usize },
    MissingSharedVisionPreq { who: usize },
    MissingGlobalSharedVision,
    MissingLeaderFlags { who: usize },
    MissingLeaderFlags2 { who: usize },
    MissingEjectionRoster { owner: usize },
    MissingEjectionFact { owner: usize, object_id: i32, fact: MissingEjectionFact },
    MissingArmyRoster { owner: usize },
}

#[derive(Clone, Copy, Debug, PartialEq, Eq, Structural)]
pub enum ForeignRelationKind {
    War,
    Peace,
    Alliance,
    AllianceBroken,
}

/// Presentation is not a simulation mutation: a renderer may localize these envelopes after
/// the lockstep transaction commits.
#[derive(Clone, Copy, Debug, PartialEq, Eq, Structural)]
pub enum SetDiploPresentation {
    ForeignRelation { actor: usize, target: usize, kind: ForeignRelationKind },
    Sound { id: i32 },
}

#[derive(Clone, Copy, Debug, PartialEq, Eq, Structural)]
pub enum SetDiploMutation {
    ClearSharedVision { viewer: usize, source: usize },
    WriteDeclaration { from: usize, to: usize, state: Relation },
    GrantSharedVision { viewer: usize, source: usize },
    SetVictoryBit22,
    MarkInterfaceDirty,
}

/// Calls whose mutation belongs to another authoritative subsystem. They are instruction
/// ordered and mandatory: an applied receipt must acknowledge every one.
#[derive(Clone, Copy, Debug, PartialEq, Eq, Structural)]
pub enum SetDiploAuthority {
    ComeOut { owner: usize, object_id: i32 },
    KillContainedUnit { owner: usize, object_id: i32, reason: i32 },
    AddAirStrafeOrder { owner: usize, object_id: i32, queue_pos: i32 },
    Victory { winner: usize, victory_type: i32, instant: i32 },
    ForceArmyProcess { owner: usize, army_slot: usize, forced: i32 },
}

#[derive(Clone, Copy, Debug, PartialEq, Eq, Structural)]
pub enum SetDiploStep {
    Mutation(SetDiploMutation),
    Authority(SetDiploAuthority),
    Presentation(SetDiploPresentation),
}

#[derive(Clone, Debug, PartialEq, Eq)]
pub struct SetDiploPlan {
    pub request: SetDiploRequest,
    pub old_state: Relation,
    pub after: SetDiploImage,
    pub steps: Vec<SetDiploStep>,
}

/// What a plan holds: the old relation, the after-image and the steps.
pub struct PlanModel {
    pub old_state: Relation,
    pub after: SetDiploImageView,
    pub steps: Seq<SetDiploStep>,
}

// ---------------------------------------------------------------------------------------
// The model of `Leader::set_diplo`.
// ---------------------------------------------------------------------------------------

/// The leader at `slot` must name itself.
pub open spec fn identity_spec(img: SetDiploImageView, slot: usize) -> Result<(), SetDiploPlanError> {
    match img.leaders[slot as int].who {
        None => Err(SetDiploPlanError::MissingIdentity { slot }),
        Some(who) => if who != slot as i32 {
            Err(SetDiploPlanError::LeaderIdentityMismatch { slot, who })
        } else {
            Ok(())
        },
    }
}

/// The declaration of `from` toward `to`; a leader is its own ally.
pub open spec fn relation_spec(img: SetDiploImageView, from: usize, to: usize) -> Result<
    Relation,
    SetDiploPlanError,
> {
    if from == to {
        Ok(Relation::Ally)
    } else {
        match img.leaders[from as int].diplos[to as int] {
            Some(r) => Ok(r),
            None => Err(SetDiploPlanError::MissingRelation { from, to }),
        }
    }
}

/// Mutual alliance; the second declaration is read only when the first is an alliance.
pub open spec fn is_ally_spec(img: SetDiploImageView, first: usize, second: usize) -> Result<
    bool,
    SetDiploPlanError,
> {
    if first == second {
        Ok(true)
    } else {
        match relation_spec(img, first, second) {
            Err(e) => Err(e),
            Ok(r1) => if r1 != Relation::Ally {
                Ok(false)
            } else {
                match relation_spec(img, second, first) {
                    Err(e) => Err(e),
                    Ok(r2) => Ok(r2 == Relation::Ally),
                }
            },
        }
    }
}

/// The image with `viewer`'s shared-vision byte replaced.
pub open spec fn with_vision(img: SetDiploImageView, viewer: usize, byte: u8) -> SetDiploImageView {
    SetDiploImageView {
        leaders: img.leaders.update(
            viewer as int,
            LeaderFactsView { shared_vision: Some(byte), ..img.leaders[viewer as int] },
        ),
        ..img
    }
}

/// Set or clear bit `source` of `viewer`'s shared-vision byte.
pub open spec fn set_vision_spec(
    img: SetDiploImageView,
    viewer: usize,
    source: usize,
    enabled: bool,
) -> Result<SetDiploImageView, SetDiploPlanError> {
    match img.leaders[viewer as int].shared_vision {
        None => Err(SetDiploPlanError::MissingSharedVision { who: viewer }),
        Some(b) => Ok(
            with_vision(
                img,
                viewer,
                if enabled {
                    b | (1u8 << (source as u8))
                } else {
                    b & !(1u8 << (source as u8))
                },
            ),
        ),
    }
}

/// The ejection steps of one of `owner`'s objects when the alliance with `revoked` ends:
/// only a unit inside `revoked` comes out; a failed `come_out` kills it; an air unit that
/// came out without a patrol order gets a strafe order.
pub open spec fn unit_ejection_spec(u: EjectionUnitFact, owner: usize, revoked: usize) -> Result<
    Seq<SetDiploStep>,
    SetDiploPlanError,
> {
    if !u.is_unit || u.carrier_who != Some(revoked) {
        Ok(Seq::empty())
    } else {
        let missing = |fact: MissingEjectionFact|
            SetDiploPlanError::MissingEjectionFact { owner, object_id: u.object_id, fact };
        match u.come_out_return {
            None => Err(missing(MissingEjectionFact::ComeOutReturn)),
            Some(c) => {
                let s1 = seq![
                    SetDiploStep::Authority(
                        SetDiploAuthority::ComeOut { owner, object_id: u.object_id },
                    ),
                ];
                if c != 0 {
                    Ok(
                        s1.push(
                            SetDiploStep::Authority(
                                SetDiploAuthority::KillContainedUnit {
                                    owner,
                                    object_id: u.object_id,
                                    reason: 0,
                                },
                            ),
                        ),
                    )
                } else {
                    match u.domain {
                        None => Err(missing(MissingEjectionFact::Domain)),
                        Some(d) => if d == 2 {
                            match u.has_air_patrol_order {
                                None => Err(missing(MissingEjectionFact::AirPatrolOrder)),
                                Some(h) => if !h {
                                    Ok(
                                        s1.push(
                                            SetDiploStep::Authority(
                                                SetDiploAuthority::AddAirStrafeOrder {
                                                    owner,
                                                    object_id: u.object_id,
                                                    queue_pos: 2,
                                                },
                                            ),
                                        ),
                                    )
                                } else {
                                    Ok(s1)
                                },
                            }
                        } else {
                            Ok(s1)
                        },
                    }
                }
            },
        }
    }
}

/// The ejection steps of the first `k` objects, in list order; the first missing fact stops
/// the plan.
pub open spec fn ejection_fold(
    units: Seq<EjectionUnitFact>,
    owner: usize,
    revoked: usize,
    k: int,
) -> Result<Seq<SetDiploStep>, SetDiploPlanError>
    decreases k,
{
    if k <= 0 {
        Ok(Seq::empty())
    } else {
        match ejection_fold(units, owner, revoked, k - 1) {
            Err(e) => Err(e),
            Ok(s) => match unit_ejection_spec(units[k - 1], owner, revoked) {
                Err(e) => Err(e),
                Ok(t) => Ok(s + t),
            },
        }
    }
}

/// `eject_my_shit_from_his_ass`: every object of `owner` inside `revoked`.
pub open spec fn ejection_spec(img: SetDiploImageView, owner: usize, revoked: usize) -> Result<
    Seq<SetDiploStep>,
    SetDiploPlanError,
> {
    match img.leaders[owner as int].ejection_units {
        None => Err(SetDiploPlanError::MissingEjectionRoster { owner }),
        Some(units) => ejection_fold(units, owner, revoked, units.len() as int),
    }
}

/// Grant `viewer` the vision of `source` when it has the shared-vision prerequisite or,
/// failing that, the game-wide option.
pub open spec fn grant_spec(img: SetDiploImageView, viewer: usize, source: usize) -> Result<
    (SetDiploImageView, Seq<SetDiploStep>),
    SetDiploPlanError,
> {
    match img.leaders[viewer as int].has_shared_vision_preq {
        None => Err(SetDiploPlanError::MissingSharedVisionPreq { who: viewer }),
        Some(preq) => {
            let enabled: Result<bool, SetDiploPlanError> = if preq {
                Ok(true)
            } else {
                match img.global_shared_vision {
                    None => Err(SetDiploPlanError::MissingGlobalSharedVision),
                    Some(g) => Ok(g),
                }
            };
            match enabled {
                Err(e) => Err(e),
                Ok(en) => if en {
                    match set_vision_spec(img, viewer, source, true) {
                        Err(e) => Err(e),
                        Ok(i2) => Ok(
                            (
                                i2,
                                seq![
                                    SetDiploStep::Mutation(
                                        SetDiploMutation::GrantSharedVision { viewer, source },
                                    ),
                                ],
                            ),
                        ),
                    }
                } else {
                    Ok((img, Seq::empty()))
                },
            }
        },
    }
}

/// Whether `who`'s armies are forced to process: in the game, not in the `flags & 0x0c == 4`
/// state, and with neither `flags2` bit `0x0a`.
pub open spec fn armies_enabled_spec(img: SetDiploImageView, who: usize) -> Result<
    bool,
    SetDiploPlanError,
> {
    match img.leaders[who as int].leader_flags {
        None => Err(SetDiploPlanError::MissingLeaderFlags { who }),
        Some(flags) => if flags & 1 == 0 || flags & 0x0c == 4 {
            Ok(false)
        } else {
            match img.leaders[who as int].leader_flags2 {
                None => Err(SetDiploPlanError::MissingLeaderFlags2 { who }),
                Some(flags2) => Ok(flags2 & 0x0a == 0),
            }
        },
    }
}

/// The number of candidates `0..k` other than the two parties that are active
/// (`flags & 3 == 3`) and allied with neither.
pub open spec fn independent_fold(img: SetDiploImageView, actor: usize, target: usize, k: int) -> Result<
    nat,
    SetDiploPlanError,
>
    decreases k,
{
    if k <= 0 {
        Ok(0)
    } else {
        match independent_fold(img, actor, target, k - 1) {
            Err(e) => Err(e),
            Ok(n) => {
                let c = (k - 1) as usize;
                if c == actor || c == target {
                    Ok(n)
                } else {
                    match img.leaders[c as int].leader_flags {
                        None => Err(SetDiploPlanError::MissingLeaderFlags { who: c }),
                        Some(f) => if f & 3 == 3 {
                            match identity_spec(img, c) {
                                Err(e) => Err(e),
                                Ok(_) => match is_ally_spec(img, c, actor) {
                                    Err(e) => Err(e),
                                    Ok(a1) => if a1 {
                                        Ok(n)
                                    } else {
                                        match is_ally_spec(img, c, target) {
                                            Err(e) => Err(e),
                                            Ok(a2) => Ok(
                                                if a2 {
                                                    n
                                                } else {
                                                    n + 1
                                                },
                                            ),
                                        }
                                    },
                                },
                            }
                        } else {
                            Ok(n)
                        },
                    }
                }
            },
        }
    }
}

/// One forced process per valid army among the first `k` slots, in slot order.
pub open spec fn army_fold(armies: Seq<bool>, owner: usize, k: int) -> Seq<SetDiploStep>
    decreases k,
{
    if k <= 0 {
        Seq::empty()
    } else {
        let s = army_fold(armies, owner, k - 1);
        if armies[k - 1] {
            s.push(
                SetDiploStep::Authority(
                    SetDiploAuthority::ForceArmyProcess {
                        owner,
                        army_slot: (k - 1) as usize,
                        forced: 1,
                    },
                ),
            )
        } else {
            s
        }
    }
}

/// The announcement kind of a change from `old` to `state`.
pub open spec fn foreign_kind(state: Relation, old: Relation) -> ForeignRelationKind {
    match state {
        Relation::War => ForeignRelationKind::War,
        Relation::Peace => if old == Relation::Ally {
            ForeignRelationKind::AllianceBroken
        } else {
            ForeignRelationKind::Peace
        },
        Relation::Ally => ForeignRelationKind::Alliance,
    }
}

/// The request's checks, in order: both slots in range, both identities, and the actor's
/// declaration toward the target; the result is that old declaration.
pub open spec fn request_check_spec(before: SetDiploImageView, req: SetDiploRequest) -> Result<
    Relation,
    SetDiploPlanError,
> {
    if req.actor >= 8 {
        Err(SetDiploPlanError::LeaderOutOfRange { value: req.actor })
    } else if req.target >= 8 {
        Err(SetDiploPlanError::LeaderOutOfRange { value: req.target })
    } else {
        match identity_spec(before, req.actor) {
            Err(e) => Err(e),
            Ok(_) => match identity_spec(before, req.target) {
                Err(e) => Err(e),
                Ok(_) => relation_spec(before, req.actor, req.target),
            },
        }
    }
}

/// Leaving an alliance: both vision bits cleared, then each side's objects ejected from the
/// other.
pub open spec fn unally_spec(before: SetDiploImageView, req: SetDiploRequest) -> Result<
    (SetDiploImageView, Seq<SetDiploStep>),
    SetDiploPlanError,
> {
    match set_vision_spec(before, req.actor, req.target, false) {
        Err(e) => Err(e),
        Ok(i1) => match set_vision_spec(i1, req.target, req.actor, false) {
            Err(e) => Err(e),
            Ok(i2) => match ejection_spec(before, req.actor, req.target) {
                Err(e) => Err(e),
                Ok(s1) => match ejection_spec(before, req.target, req.actor) {
                    Err(e) => Err(e),
                    Ok(s2) => Ok(
                        (
                            i2,
                            seq![
                                SetDiploStep::Mutation(
                                    SetDiploMutation::ClearSharedVision {
                                        viewer: req.actor,
                                        source: req.target,
                                    },
                                ),
                                SetDiploStep::Mutation(
                                    SetDiploMutation::ClearSharedVision {
                                        viewer: req.target,
                                        source: req.actor,
                                    },
                                ),
                            ] + s1 + s2,
                        ),
                    ),
                },
            },
        },
    }
}

/// The announcement: shown only when the console is neither party and has a treaty with
/// both (the target's treaty is read only when the actor's holds).
pub open spec fn presentation_spec(before: SetDiploImageView, req: SetDiploRequest, old: Relation) -> Result<
    Seq<SetDiploStep>,
    SetDiploPlanError,
> {
    match before.local_who {
        None => Err(SetDiploPlanError::MissingLocalWho),
        Some(local) => if local == req.actor as i32 || local == req.target as i32 {
            Ok(Seq::empty())
        } else {
            match before.console_treaty_one[req.actor as int] {
                None => Err(SetDiploPlanError::MissingConsoleTreaty { who: req.actor }),
                Some(at) => if !at {
                    Ok(Seq::empty())
                } else {
                    match before.console_treaty_one[req.target as int] {
                        None => Err(SetDiploPlanError::MissingConsoleTreaty { who: req.target }),
                        Some(tt) => if !tt {
                            Ok(Seq::empty())
                        } else {
                            Ok(
                                seq![
                                    SetDiploStep::Presentation(
                                        SetDiploPresentation::ForeignRelation {
                                            actor: req.actor,
                                            target: req.target,
                                            kind: foreign_kind(req.state, old),
                                        },
                                    ),
                                    SetDiploStep::Presentation(
                                        SetDiploPresentation::Sound { id: FOREIGN_RELATION_SOUND },
                                    ),
                                ],
                            )
                        },
                    }
                },
            }
        },
    }
}

/// The image with `from`'s declaration toward `to` replaced.
pub open spec fn with_declaration(img: SetDiploImageView, from: usize, to: usize, state: Relation) -> SetDiploImageView {
    SetDiploImageView {
        leaders: img.leaders.update(
            from as int,
            LeaderFactsView {
                diplos: img.leaders[from as int].diplos.update(to as int, Some(state)),
                ..img.leaders[from as int]
            },
        ),
        ..img
    }
}

/// Entering an alliance: each side granted the other's vision, then the victory check. With
/// no independent active leader left, the actor wins and victory bit 22 is set.
pub open spec fn ally_spec(img: SetDiploImageView, req: SetDiploRequest) -> Result<
    (SetDiploImageView, Seq<SetDiploStep>),
    SetDiploPlanError,
> {
    match grant_spec(img, req.actor, req.target) {
        Err(e) => Err(e),
        Ok((i1, g1)) => match grant_spec(i1, req.target, req.actor) {
            Err(e) => Err(e),
            Ok((i2, g2)) => match independent_fold(i2, req.actor, req.target, 8) {
                Err(e) => Err(e),
                Ok(n) => if n == 0 {
                    Ok(
                        (
                            SetDiploImageView { victory_mask: i2.victory_mask | VICTORY_BIT_22, ..i2 },
                            g1 + g2 + seq![
                                SetDiploStep::Authority(
                                    SetDiploAuthority::Victory {
                                        winner: req.actor,
                                        victory_type: 0,
                                        instant: 0,
                                    },
                                ),
                                SetDiploStep::Mutation(SetDiploMutation::SetVictoryBit22),
                            ],
                        ),
                    )
                } else {
                    Ok((i2, g1 + g2))
                },
            },
        },
    }
}

/// The forced army processes of the actor, when its armies are enabled.
pub open spec fn armies_spec(img: SetDiploImageView, owner: usize) -> Result<
    Seq<SetDiploStep>,
    SetDiploPlanError,
> {
    match armies_enabled_spec(img, owner) {
        Err(e) => Err(e),
        Ok(en) => if !en {
            Ok(Seq::empty())
        } else {
            match img.leaders[owner as int].valid_armies {
                None => Err(SetDiploPlanError::MissingArmyRoster { owner }),
                Some(a) => Ok(army_fold(a, owner, 16)),
            }
        },
    }
}

/// `Leader::set_diplo`: after the checks, an unchanged declaration returns before every side
/// effect. Otherwise an alliance being left is unwound, the announcement is made, both
/// declarations are written (the actor's row first), an alliance being entered grants vision
/// and checks victory, the actor's armies are forced, and the interface is marked dirty.
pub open spec fn plan_set_diplo_spec(before: SetDiploImageView, req: SetDiploRequest) -> Result<
    PlanModel,
    SetDiploPlanError,
> {
    match request_check_spec(before, req) {
        Err(e) => Err(e),
        Ok(old) => if old == req.state {
            Ok(PlanModel { old_state: old, after: before, steps: Seq::empty() })
        } else {
            let unally: Result<(SetDiploImageView, Seq<SetDiploStep>), SetDiploPlanError> = if old
                == Relation::Ally {
                unally_spec(before, req)
            } else {
                Ok((before, Seq::empty()))
            };
            match unally {
                Err(e) => Err(e),
                Ok((i1, s1)) => match presentation_spec(before, req, old) {
                    Err(e) => Err(e),
                    Ok(s2) => {
                        let i2 = with_declaration(
                            with_declaration(i1, req.actor, req.target, req.state),
                            req.target,
                            req.actor,
                            req.state,
                        );
                        let s3 = seq![
                            SetDiploStep::Mutation(
                                SetDiploMutation::WriteDeclaration {
                                    from: req.actor,
                                    to: req.target,
                                    state: req.state,
                                },
                            ),
                            SetDiploStep::Mutation(
                                SetDiploMutation::WriteDeclaration {
                                    from: req.target,
                                    to: req.actor,
                                    state: req.state,
                                },
                            ),
                        ];
                        let ally: Result<(SetDiploImageView, Seq<SetDiploStep>), SetDiploPlanError> =
                            if req.state == Relation::Ally {
                            ally_spec(i2, req)
                        } else {
                            Ok((i2, Seq::empty()))
                        };
                        match ally {
                            Err(e) => Err(e),
                            Ok((i3, s4)) => match armies_spec(i3, req.actor) {
                                Err(e) => Err(e),
                                Ok(s5) => Ok(
                                    PlanModel {
                                        old_state: old,
                                        after: SetDiploImageView { interface_dirty: true, ..i3 },
                                        steps: s1 + s2 + s3 + s4 + s5 + seq![
                                            SetDiploStep::Mutation(
                                                SetDiploMutation::MarkInterfaceDirty,
                                            ),
                                        ],
                                    },
                                ),
                            },
                        }
                    },
                },
            }
        },
    }
}

// ---------------------------------------------------------------------------------------
// The planner.
// ---------------------------------------------------------------------------------------

/// The plan's fields agree with a model.
pub open spec fn plan_matches(p: SetDiploPlan, request: SetDiploRequest, m: PlanModel) -> bool {
    &&& p.request == request
    &&& p.old_state == m.old_state
    &&& p.after@ == m.after
    &&& p.steps@ == m.steps
}

/// Once the ejection fold fails it keeps failing with the same error.
proof fn lemma_ejection_err_persists(
    units: Seq<EjectionUnitFact>,
    owner: usize,
    revoked: usize,
    k: int,
    n: int,
)
    requires
        0 <= k <= n,
        ejection_fold(units, owner, revoked, k) is Err,
    ensures
        ejection_fold(units, owner, revoked, n) == ejection_fold(units, owner, revoked, k),
    decreases n - k,
{
    if n > k {
        lemma_ejection_err_persists(units, owner, revoked, k, n - 1);
    }
}

/// Once the independence fold fails it keeps failing with the same error.
proof fn lemma_independent_err_persists(
    img: SetDiploImageView,
    actor: usize,
    target: usize,
    k: int,
    n: int,
)
    requires
        0 <= k <= n,
        independent_fold(img, actor, target, k) is Err,
    ensures
        independent_fold(img, actor, target, n) == independent_fold(img, actor, target, k),
    decreases n - k,
{
    if n > k {
        lemma_independent_err_persists(img, actor, target, k, n - 1);
    }
}

fn identity(image: &SetDiploImage, slot: usize) -> (r: Result<(), SetDiploPlanError>)
    requires
        slot < 8,
    ensures
        r == identity_spec(image@, slot),
{
    match image.leaders[slot].who {
        None => Err(SetDiploPlanError::MissingIdentity { slot }),
        Some(who) => if who != slot as i32 {
            Err(SetDiploPlanError::LeaderIdentityMismatch { slot, who })
        } else {
            Ok(())
        },
    }
}

fn relation(image: &SetDiploImage, from: usize, to: usize) -> (r: Result<Relation, SetDiploPlanError>)
    requires
        from < 8,
        to < 8,
    ensures
        r == relation_spec(image@, from, to),
{
    if from == to {
        return Ok(Relation::Ally);
    }
    match image.leaders[from].diplos[to] {
        Some(r) => Ok(r),
        None => Err(SetDiploPlanError::MissingRelation { from, to }),
    }
}

fn is_ally(image: &SetDiploImage, first: usize, second: usize) -> (r: Result<bool, SetDiploPlanError>)
    requires
        first < 8,
        second < 8,
    ensures
        r == is_ally_spec(image@, first, second),
{
    if first == second {
        return Ok(true);
    }
    match relation(image, first, second) {
        Err(e) => Err(e),
        Ok(r1) => if !(r1 == Relation::Ally) {
            Ok(false)
        } else {
            match relation(image, second, first) {
                Err(e) => Err(e),
                Ok(r2) => Ok(r2 == Relation::Ally),
            }
        },
    }
}

fn set_vision(image: &mut SetDiploImage, viewer: usize, source: usize, enabled: bool) -> (r: Result<
    (),
    SetDiploPlanError,
>)
    requires
        viewer < 8,
        source < 8,
    ensures
        match set_vision_spec(old(image)@, viewer, source, enabled) {
            Ok(i) => r is Ok && final(image)@ == i,
            Err(e) => r == Err::<(), SetDiploPlanError>(e),
        },
{
    match image.leaders[viewer].shared_vision {
        None => Err(SetDiploPlanError::MissingSharedVision { who: viewer }),
        Some(b) => {
            let nb = if enabled {
                b | (1u8 << (source as u8))
            } else {
                b & !(1u8 << (source as u8))
            };
            image.leaders[viewer].shared_vision = Some(nb);
            assert(image@.leaders =~= with_vision(old(image)@, viewer, nb).leaders);
            Ok(())
        },
    }
}

fn plan_ejection(
    image: &SetDiploImage,
    owner: usize,
    revoked_carrier: usize,
    steps: &mut Vec<SetDiploStep>,
) -> (r: Result<(), SetDiploPlanError>)
    requires
        owner < 8,
    ensures
        match ejection_spec(image@, owner, revoked_carrier) {
            Ok(s) => r is Ok && final(steps)@ == old(steps)@ + s,
            Err(e) => r == Err::<(), SetDiploPlanError>(e),
        },
{
    let units = match &image.leaders[owner].ejection_units {
        None => {
            return Err(SetDiploPlanError::MissingEjectionRoster { owner });
        },
        Some(v) => v,
    };
    let mut i: usize = 0;
    while i < units.len()
        invariant
            i <= units.len(),
            image@.leaders[owner as int].ejection_units == Some(units@),
            ejection_fold(units@, owner, revoked_carrier, i as int) is Ok,
            steps@ == old(steps)@ + ejection_fold(units@, owner, revoked_carrier, i as int)->Ok_0,
        decreases units.len() - i,
    {
        let unit = units[i];
        let ghost prev = ejection_fold(units@, owner, revoked_carrier, i as int)->Ok_0;
        if unit.is_unit && unit.carrier_who == Some(revoked_carrier) {
            let come_out = match unit.come_out_return {
                None => {
                    proof {
                        lemma_ejection_err_persists(units@, owner, revoked_carrier, i + 1, units@.len() as int);
                    }
                    return Err(
                        SetDiploPlanError::MissingEjectionFact {
                            owner,
                            object_id: unit.object_id,
                            fact: MissingEjectionFact::ComeOutReturn,
                        },
                    );
                },
                Some(c) => c,
            };
            let x = SetDiploStep::Authority(
                SetDiploAuthority::ComeOut { owner, object_id: unit.object_id },
            );
            steps.push(x);
            if come_out != 0 {
                let y = SetDiploStep::Authority(
                    SetDiploAuthority::KillContainedUnit { owner, object_id: unit.object_id, reason: 0 },
                );
                steps.push(y);
                assert(steps@ =~= old(steps)@ + (prev + seq![x].push(y)));
            } else {
                let domain = match unit.domain {
                    None => {
                        proof {
                            lemma_ejection_err_persists(units@, owner, revoked_carrier, i + 1, units@.len() as int);
                        }
                        return Err(
                            SetDiploPlanError::MissingEjectionFact {
                                owner,
                                object_id: unit.object_id,
                                fact: MissingEjectionFact::Domain,
                            },
                        );
                    },
                    Some(d) => d,
                };
                if domain == 2 {
                    let has_order = match unit.has_air_patrol_order {
                        None => {
                            proof {
                                lemma_ejection_err_persists(units@, owner, revoked_carrier, i + 1, units@.len() as int);
                            }
                            return Err(
                                SetDiploPlanError::MissingEjectionFact {
                                    owner,
                                    object_id: unit.object_id,
                                    fact: MissingEjectionFact::AirPatrolOrder,
                                },
                            );
                        },
                        Some(h) => h,
                    };
                    if !has_order {
                        let y = SetDiploStep::Authority(
                            SetDiploAuthority::AddAirStrafeOrder {
                                owner,
                                object_id: unit.object_id,
                                queue_pos: 2,
                            },
                        );
                        steps.push(y);
                        assert(steps@ =~= old(steps)@ + (prev + seq![x].push(y)));
                    } else {
                        assert(steps@ =~= old(steps)@ + (prev + seq![x]));
                    }
                } else {
                    assert(steps@ =~= old(steps)@ + (prev + seq![x]));
                }
            }
        } else {
            assert(prev + Seq::<SetDiploStep>::empty() =~= prev);
        }
        i = i + 1;
    }
    Ok(())
}

fn grant_vision_if_enabled(
    image: &mut SetDiploImage,
    viewer: usize,
    source: usize,
    steps: &mut Vec<SetDiploStep>,
) -> (r: Result<(), SetDiploPlanError>)
    requires
        viewer < 8,
        source < 8,
    ensures
        match grant_spec(old(image)@, viewer, source) {
            Ok((i, s)) => r is Ok && final(image)@ == i && final(steps)@ == old(steps)@ + s,
            Err(e) => r == Err::<(), SetDiploPlanError>(e),
        },
{
    let preq = match image.leaders[viewer].has_shared_vision_preq {
        None => {
            return Err(SetDiploPlanError::MissingSharedVisionPreq { who: viewer });
        },
        Some(p) => p,
    };
    let enabled = if preq {
        true
    } else {
        match image.global_shared_vision {
            None => {
                return Err(SetDiploPlanError::MissingGlobalSharedVision);
            },
            Some(g) => g,
        }
    };
    if enabled {
        match set_vision(image, viewer, source, true) {
            Err(e) => {
                return Err(e);
            },
            Ok(()) => {},
        }
        let x = SetDiploStep::Mutation(SetDiploMutation::GrantSharedVision { viewer, source });
        steps.push(x);
        assert(steps@ =~= old(steps)@ + seq![x]);
    } else {
        assert(steps@ =~= old(steps)@ + Seq::<SetDiploStep>::empty());
    }
    Ok(())
}

fn owner_armies_enabled(image: &SetDiploImage, who: usize) -> (r: Result<bool, SetDiploPlanError>)
    requires
        who < 8,
    ensures
        r == armies_enabled_spec(image@, who),
{
    let flags = match image.leaders[who].leader_flags {
        None => {
            return Err(SetDiploPlanError::MissingLeaderFlags { who });
        },
        Some(f) => f,
    };
    if flags & 1 == 0 || flags & 0x0c == 4 {
        return Ok(false);
    }
    match image.leaders[who].leader_flags2 {
        None => Err(SetDiploPlanError::MissingLeaderFlags2 { who }),
        Some(flags2) => Ok(flags2 & 0x0a == 0),
    }
}

fn request_check(before: &SetDiploImage, request: SetDiploRequest) -> (r: Result<
    Relation,
    SetDiploPlanError,
>)
    ensures
        r == request_check_spec(before@, request),
{
    if request.actor >= 8 {
        return Err(SetDiploPlanError::LeaderOutOfRange { value: request.actor });
    }
    if request.target >= 8 {
        return Err(SetDiploPlanError::LeaderOutOfRange { value: request.target });
    }
    match identity(before, request.actor) {
        Err(e) => {
            return Err(e);
        },
        Ok(()) => {},
    }
    match identity(before, request.target) {
        Err(e) => {
            return Err(e);
        },
        Ok(()) => {},
    }
    relation(before, request.actor, request.target)
}

/// Leaving an alliance, on the copy `after` of `before`.
fn unally(
    after: &mut SetDiploImage,
    before: &SetDiploImage,
    request: SetDiploRequest,
    steps: &mut Vec<SetDiploStep>,
) -> (r: Result<(), SetDiploPlanError>)
    requires
        request.actor < 8,
        request.target < 8,
        old(after)@ == before@,
        old(steps)@.len() == 0,
    ensures
        match unally_spec(before@, request) {
            Ok((i, s)) => r is Ok && final(after)@ == i && final(steps)@ == s,
            Err(e) => r == Err::<(), SetDiploPlanError>(e),
        },
{
    match set_vision(after, request.actor, request.target, false) {
        Err(e) => {
            return Err(e);
        },
        Ok(()) => {},
    }
    let x = SetDiploStep::Mutation(
        SetDiploMutation::ClearSharedVision { viewer: request.actor, source: request.target },
    );
    steps.push(x);
    match set_vision(after, request.target, request.actor, false) {
        Err(e) => {
            return Err(e);
        },
        Ok(()) => {},
    }
    let y = SetDiploStep::Mutation(
        SetDiploMutation::ClearSharedVision { viewer: request.target, source: request.actor },
    );
    steps.push(y);
    let ghost s0 = steps@;
    match plan_ejection(before, request.actor, request.target, steps) {
        Err(e) => {
            return Err(e);
        },
        Ok(()) => {},
    }
    let ghost s1 = steps@;
    match plan_ejection(before, request.target, request.actor, steps) {
        Err(e) => {
            return Err(e);
        },
        Ok(()) => {},
    }
    proof {
        let e1 = ejection_spec(before@, request.actor, request.target)->Ok_0;
        let e2 = ejection_spec(before@, request.target, request.actor)->Ok_0;
        assert(s0 =~= seq![x, y]);
        assert(steps@ =~= seq![x, y] + e1 + e2);
    }
    Ok(())
}

/// The announcement steps.
fn presentation(
    before: &SetDiploImage,
    request: SetDiploRequest,
    old_state: Relation,
    steps: &mut Vec<SetDiploStep>,
) -> (r: Result<(), SetDiploPlanError>)
    requires
        request.actor < 8,
        request.target < 8,
    ensures
        match presentation_spec(before@, request, old_state) {
            Ok(s) => r is Ok && final(steps)@ == old(steps)@ + s,
            Err(e) => r == Err::<(), SetDiploPlanError>(e),
        },
{
    let local = match before.local_who {
        None => {
            return Err(SetDiploPlanError::MissingLocalWho);
        },
        Some(l) => l,
    };
    if local != request.actor as i32 && local != request.target as i32 {
        let actor_treaty = match before.console_treaty_one[request.actor] {
            None => {
                return Err(SetDiploPlanError::MissingConsoleTreaty { who: request.actor });
            },
            Some(t) => t,
        };
        if actor_treaty {
            let target_treaty = match before.console_treaty_one[request.target] {
                None => {
                    return Err(SetDiploPlanError::MissingConsoleTreaty { who: request.target });
                },
                Some(t) => t,
            };
            if target_treaty {
                let kind = match request.state {
                    Relation::War => ForeignRelationKind::War,
                    Relation::Peace => if old_state == Relation::Ally {
                        ForeignRelationKind::AllianceBroken
                    } else {
                        ForeignRelationKind::Peace
                    },
                    Relation::Ally => ForeignRelationKind::Alliance,
                };
                let x = SetDiploStep::Presentation(
                    SetDiploPresentation::ForeignRelation {
                        actor: request.actor,
                        target: request.target,
                        kind,
                    },
                );
                let y = SetDiploStep::Presentation(
                    SetDiploPresentation::Sound { id: FOREIGN_RELATION_SOUND },
                );
                steps.push(x);
                steps.push(y);
                assert(steps@ =~= old(steps)@ + seq![x, y]);
                return Ok(());
            }
        }
    }
    assert(steps@ =~= old(steps)@ + Seq::<SetDiploStep>::empty());
    Ok(())
}

/// The independent active leaders left by an alliance of `actor` and `target`.
fn count_independent(image: &SetDiploImage, actor: usize, target: usize) -> (r: Result<
    usize,
    SetDiploPlanError,
>)
    requires
        actor < 8,
        target < 8,
    ensures
        match independent_fold(image@, actor, target, 8) {
            Ok(n) => n <= 8 && r == Ok::<usize, SetDiploPlanError>(n as usize),
            Err(e) => r == Err::<usize, SetDiploPlanError>(e),
        },
{
    let mut independent_active: usize = 0;
    let mut candidate: usize = 0;
    while candidate < 8
        invariant
            candidate <= 8,
            actor < 8,
            target < 8,
            independent_fold(image@, actor, target, candidate as int) == Ok::<
                nat,
                SetDiploPlanError,
            >(independent_active as nat),
            independent_active <= candidate,
        decreases 8 - candidate,
    {
        if candidate != actor && candidate != target {
            let flags = match image.leaders[candidate].leader_flags {
                None => {
                    proof {
                        lemma_independent_err_persists(image@, actor, target, candidate + 1, 8);
                    }
                    return Err(SetDiploPlanError::MissingLeaderFlags { who: candidate });
                },
                Some(f) => f,
            };
            if flags & 3 == 3 {
                // Both `is_ally` calls use the candidate record's `who` field.
                match identity(image, candidate) {
                    Err(e) => {
                        proof {
                            lemma_independent_err_persists(image@, actor, target, candidate + 1, 8);
                        }
                        return Err(e);
                    },
                    Ok(()) => {},
                }
                let a1 = match is_ally(image, candidate, actor) {
                    Err(e) => {
                        proof {
                            lemma_independent_err_persists(image@, actor, target, candidate + 1, 8);
                        }
                        return Err(e);
                    },
                    Ok(a) => a,
                };
                if !a1 {
                    let a2 = match is_ally(image, candidate, target) {
                        Err(e) => {
                            proof {
                                lemma_independent_err_persists(image@, actor, target, candidate + 1, 8);
                            }
                            return Err(e);
                        },
                        Ok(a) => a,
                    };
                    if !a2 {
                        independent_active = independent_active + 1;
                    }
                }
            }
        }
        candidate = candidate + 1;
    }
    Ok(independent_active)
}

/// Entering an alliance: grants and the victory check.
fn ally(after: &mut SetDiploImage, request: SetDiploRequest, steps: &mut Vec<SetDiploStep>) -> (r:
    Result<(), SetDiploPlanError>)
    requires
        request.actor < 8,
        request.target < 8,
    ensures
        match ally_spec(old(after)@, request) {
            Ok((i, s)) => r is Ok && final(after)@ == i && final(steps)@ == old(steps)@ + s,
            Err(e) => r == Err::<(), SetDiploPlanError>(e),
        },
{
    let ghost s0 = steps@;
    match grant_vision_if_enabled(after, request.actor, request.target, steps) {
        Err(e) => {
            return Err(e);
        },
        Ok(()) => {},
    }
    let ghost s1 = steps@;
    match grant_vision_if_enabled(after, request.target, request.actor, steps) {
        Err(e) => {
            return Err(e);
        },
        Ok(()) => {},
    }
    let ghost s2 = steps@;
    let independent_active = match count_independent(after, request.actor, request.target) {
        Err(e) => {
            return Err(e);
        },
        Ok(n) => n,
    };
    if independent_active == 0 {
        let x = SetDiploStep::Authority(
            SetDiploAuthority::Victory { winner: request.actor, victory_type: 0, instant: 0 },
        );
        steps.push(x);
        after.victory_mask = after.victory_mask | VICTORY_BIT_22;
        let y = SetDiploStep::Mutation(SetDiploMutation::SetVictoryBit22);
        steps.push(y);
        proof {
            let g1 = grant_spec(old(after)@, request.actor, request.target)->Ok_0.1;
            let i1 = grant_spec(old(after)@, request.actor, request.target)->Ok_0.0;
            let g2 = grant_spec(i1, request.target, request.actor)->Ok_0.1;
            assert(steps@ =~= s0 + (g1 + g2 + seq![x, y]));
            assert(after@.leaders =~= grant_spec(i1, request.target, request.actor)->Ok_0.0.leaders);
        }
    } else {
        proof {
            let g1 = grant_spec(old(after)@, request.actor, request.target)->Ok_0.1;
            let i1 = grant_spec(old(after)@, request.actor, request.target)->Ok_0.0;
            let g2 = grant_spec(i1, request.target, request.actor)->Ok_0.1;
            assert(steps@ =~= s0 + (g1 + g2));
        }
    }
    Ok(())
}

/// The actor's forced army processes.
fn armies(after: &SetDiploImage, owner: usize, steps: &mut Vec<SetDiploStep>) -> (r: Result<
    (),
    SetDiploPlanError,
>)
    requires
        owner < 8,
    ensures
        match armies_spec(after@, owner) {
            Ok(s) => r is Ok && final(steps)@ == old(steps)@ + s,
            Err(e) => r == Err::<(), SetDiploPlanError>(e),
        },
{
    let enabled = match owner_armies_enabled(after, owner) {
        Err(e) => {
            return Err(e);
        },
        Ok(en) => en,
    };
    if !enabled {
        assert(steps@ =~= old(steps)@ + Seq::<SetDiploStep>::empty());
        return Ok(());
    }
    let valid = match after.leaders[owner].valid_armies {
        None => {
            return Err(SetDiploPlanError::MissingArmyRoster { owner });
        },
        Some(a) => a,
    };
    let mut army_slot: usize = 0;
    while army_slot < 16
        invariant
            army_slot <= 16,
            steps@ == old(steps)@ + army_fold(valid@, owner, army_slot as int),
        decreases 16 - army_slot,
    {
        if valid[army_slot] {
            let x = SetDiploStep::Authority(
                SetDiploAuthority::ForceArmyProcess { owner, army_slot, forced: 1 },
            );
            steps.push(x);
            assert(steps@ =~= old(steps)@ + army_fold(valid@, owner, army_slot + 1));
        }
        army_slot = army_slot + 1;
    }
    Ok(())
}

/// Plan the exact `Leader::set_diplo` body. The after-image holds only the fields owned
/// directly by that body; unit, victory and army calls remain mandatory authority steps.
#[verifier::rlimit(40)]
pub fn plan_set_diplo(before: &SetDiploImage, request: SetDiploRequest) -> (r: Result<
    SetDiploPlan,
    SetDiploPlanError,
>)
    ensures
        match plan_set_diplo_spec(before@, request) {
            Ok(m) => r is Ok && plan_matches(r->Ok_0, request, m),
            Err(e) => r == Err::<SetDiploPlan, SetDiploPlanError>(e),
        },
{
    let old_state = match request_check(before, request) {
        Err(e) => {
            return Err(e);
        },
        Ok(o) => o,
    };
    let mut after = before.duplicate();
    let mut steps: Vec<SetDiploStep> = Vec::new();
    // 0x006EC6BB: equal raw declarations return before every side effect.
    if old_state == request.state {
        assert(steps@ =~= Seq::<SetDiploStep>::empty());
        return Ok(SetDiploPlan { request, old_state, after, steps });
    }
    if old_state == Relation::Ally {
        match unally(&mut after, before, request, &mut steps) {
            Err(e) => {
                return Err(e);
            },
            Ok(()) => {},
        }
    } else {
        assert(steps@ =~= Seq::<SetDiploStep>::empty());
    }
    let ghost s1 = steps@;
    let ghost i1 = after@;
    match presentation(before, request, old_state, &mut steps) {
        Err(e) => {
            return Err(e);
        },
        Ok(()) => {},
    }
    let ghost s2 = steps@;
    // Two distinct writes: the actor's row first, then the target's row.
    after.leaders[request.actor].diplos[request.target] = Some(request.state);
    let x = SetDiploStep::Mutation(
        SetDiploMutation::WriteDeclaration {
            from: request.actor,
            to: request.target,
            state: request.state,
        },
    );
    steps.push(x);
    assert(after@.leaders =~= with_declaration(i1, request.actor, request.target, request.state).leaders);
    let ghost i1b = after@;
    after.leaders[request.target].diplos[request.actor] = Some(request.state);
    let y = SetDiploStep::Mutation(
        SetDiploMutation::WriteDeclaration {
            from: request.target,
            to: request.actor,
            state: request.state,
        },
    );
    steps.push(y);
    assert(after@.leaders =~= with_declaration(i1b, request.target, request.actor, request.state).leaders);
    let ghost s3 = steps@;
    let ghost i2 = after@;
    if request.state == Relation::Ally {
        match ally(&mut after, request, &mut steps) {
            Err(e) => {
                return Err(e);
            },
            Ok(()) => {},
        }
    } else {
        assert(steps@ =~= s3 + Seq::<SetDiploStep>::empty());
    }
    let ghost s4 = steps@;
    match armies(&after, request.actor, &mut steps) {
        Err(e) => {
            return Err(e);
        },
        Ok(()) => {},
    }
    after.interface_dirty = true;
    let z = SetDiploStep::Mutation(SetDiploMutation::MarkInterfaceDirty);
    steps.push(z);
    proof {
        let m = plan_set_diplo_spec(before@, request)->Ok_0;
        let s1m = if old_state == Relation::Ally {
            unally_spec(before@, request)->Ok_0.1
        } else {
            Seq::<SetDiploStep>::empty()
        };
        let s2m = presentation_spec(before@, request, old_state)->Ok_0;
        let s4m = if request.state == Relation::Ally {
            ally_spec(i2, request)->Ok_0.1
        } else {
            Seq::<SetDiploStep>::empty()
        };
        let i3 = if request.state == Relation::Ally {
            ally_spec(i2, request)->Ok_0.0
        } else {
            i2
        };
        let s5m = armies_spec(i3, request.actor)->Ok_0;
        assert(s1 == s1m);
        assert(s2 == s1m + s2m);
        assert(s3 =~= s1m + s2m + seq![x, y]);
        assert(s4 =~= s1m + s2m + seq![x, y] + s4m);
        assert(steps@ =~= s1m + s2m + seq![x, y] + s4m + s5m + seq![z]);
        assert(m.steps == s1m + s2m + seq![x, y] + s4m + s5m + seq![z]);
    }
    Ok(SetDiploPlan { request, old_state, after, steps })
}

// ---------------------------------------------------------------------------------------
// `action_respond(..., 1)` resource movement used by opcode 41.
// ---------------------------------------------------------------------------------------

#[derive(Clone, Copy, Debug, PartialEq, Eq)]
pub struct DealResourceLeader {
    pub buckets: [i32; 6],
    /// Six dwords at `LeaderData+0x498`, holding resources reserved by the pending deal.
    pub escrow: [i32; 6],
    pub sent_raw: i32,
    pub received_scaled: i32,
    pub tribute_scale_percent: Option<i32>,
    pub type_available: [Option<bool>; 6],
}

impl Default for DealResourceLeader {
    /// Empty buckets and escrow, nothing sent or received, every fact missing.
    fn default() -> (r: Self)
        ensures
            r == (DealResourceLeader {
                buckets: [0i32, 0i32, 0i32, 0i32, 0i32, 0i32],
                escrow: [0i32, 0i32, 0i32, 0i32, 0i32, 0i32],
                sent_raw: 0,
                received_scaled: 0,
                tribute_scale_percent: None,
                type_available: [None, None, None, None, None, None],
            }),
    {
        DealResourceLeader {
            buckets: [0, 0, 0, 0, 0, 0],
            escrow: [0, 0, 0, 0, 0, 0],
            sent_raw: 0,
            received_scaled: 0,
            tribute_scale_percent: None,
            type_available: [None, None, None, None, None, None],
        }
    }
}

#[derive(Clone, Copy, Debug, PartialEq, Eq)]
pub struct AcceptedDealResources {
    pub leaders: [DealResourceLeader; 8],
    /// Directional pair record: `offers[from][to][good]`.
    pub offers: [[[i32; 6]; 8]; 8],
    /// Directional `Diplomacy+0x24` array.
    pub declaration_costs: [[[i32; 6]; 8]; 8],
}

impl Default for AcceptedDealResources {
    /// Default leaders and no offers or declaration costs.
    fn default() -> (r: Self)
        ensures
            forall|i: int|
                0 <= i < 8 ==> #[trigger] r.leaders@[i] == (DealResourceLeader {
                    buckets: [0i32, 0i32, 0i32, 0i32, 0i32, 0i32],
                    escrow: [0i32, 0i32, 0i32, 0i32, 0i32, 0i32],
                    sent_raw: 0,
                    received_scaled: 0,
                    tribute_scale_percent: None,
                    type_available: [None, None, None, None, None, None],
                }),
            forall|i: int, j: int, g: int|
                0 <= i < 8 && 0 <= j < 8 && 0 <= g < 6 ==> #[trigger] r.offers@[i]@[j]@[g] == 0
                    && r.declaration_costs@[i]@[j]@[g] == 0,
    {
        let l = DealResourceLeader::default();
        let z: [i32; 6] = [0, 0, 0, 0, 0, 0];
        let row: [[i32; 6]; 8] = [z, z, z, z, z, z, z, z];
        let r = AcceptedDealResources {
            leaders: [l, l, l, l, l, l, l, l],
            offers: [row, row, row, row, row, row, row, row],
            declaration_costs: [row, row, row, row, row, row, row, row],
        };
        assert forall|i: int, j: int, g: int|
            0 <= i < 8 && 0 <= j < 8 && 0 <= g < 6 implies #[trigger] r.offers@[i]@[j]@[g] == 0
            && r.declaration_costs@[i]@[j]@[g] == 0 by {
            assert(r.offers@[i] == row);
            assert(r.declaration_costs@[i] == row);
            assert(row@[j] == z);
        }
        r
    }
}

#[derive(Clone, Copy, Debug, PartialEq, Eq, Structural)]
pub enum DealResourcePlanError {
    LeaderOutOfRange { value: usize },
    MissingTypeAvailability { who: usize, good: usize },
    MissingTributeScale { who: usize },
}

#[derive(Clone, Copy, Debug, PartialEq, Eq, Structural)]
pub enum AcceptedDealResourceStep {
    RefundDeclarationCost { who: usize, good: usize, amount: i32 },
    ClearDeclarationCost { from: usize, to: usize, good: usize },
    CreditScaledTribute { from: usize, to: usize, good: usize, raw: i32, scaled: i32 },
    DebitEscrow { who: usize, good: usize, raw: i32 },
    RecordSentRaw { who: usize, raw: i32 },
    RecordReceivedScaled { who: usize, scaled: i32 },
    ConsiderTribute { receiver: usize, sender: usize, good: usize, raw: i32 },
    ClampEscrow { who: usize, good: usize },
}

#[derive(Clone, Debug, PartialEq, Eq)]
pub struct AcceptedDealResourcePlan {
    pub accepter: usize,
    pub proposer: usize,
    pub after: AcceptedDealResources,
    pub steps: Vec<AcceptedDealResourceStep>,
}

/// A tribute of `raw` scaled by the sender's percentage, clamped to `1..=100`: exact at
/// 100; otherwise `raw * percent / 100` truncated, rounded half up from 20, and rounded up
/// from 100 (all in wrapping 32-bit arithmetic).
pub open spec fn scale_tribute_spec(raw: i32, percent: i32) -> i32 {
    let p: i32 = if percent < 1 {
        1
    } else if percent > 100 {
        100
    } else {
        percent
    };
    if p == 100 {
        raw
    } else {
        let product = raw.wrapping_mul(p);
        if raw < 20 {
            trunc_div(product as int, 100) as i32
        } else if raw < 100 {
            trunc_div(product.wrapping_add(50) as int, 100) as i32
        } else {
            trunc_div(product.wrapping_add(99) as int, 100) as i32
        }
    }
}

fn scale_tribute(raw: i32, percent: i32) -> (r: i32)
    ensures
        r == scale_tribute_spec(raw, percent),
{
    let percent = if percent < 1 {
        1
    } else if percent > 100 {
        100
    } else {
        percent
    };
    if percent == 100 {
        return raw;
    }
    let product = raw.wrapping_mul(percent);
    if raw < 20 {
        quot(product, 100)
    } else if raw < 100 {
        quot(product.wrapping_add(50), 100)
    } else {
        quot(product.wrapping_add(99), 100)
    }
}

/// The sender's tribute percentage as the transfer uses it: clamped to `1..=100`.
pub open spec fn clamped_percent(percent: i32) -> int {
    if percent < 1 {
        1
    } else if percent > 100 {
        100
    } else {
        percent as int
    }
}

proof fn lemma_product_does_not_wrap(raw: i32, p: i32)
    requires
        0 <= raw <= 21_474_835,
        1 <= p <= 100,
    ensures
        0 <= raw * p <= raw * 100,
        raw.wrapping_mul(p) == raw * p,
{
    assert(0 <= raw * p <= raw * 100) by (nonlinear_arith)
        requires
            0 <= raw,
            1 <= p <= 100,
    ;
    vstd::arithmetic::div_mod::lemma_small_mod((raw * p) as nat, 0x1_0000_0000nat);
}

/// Law of the tribute scaling: for a non-negative tribute small enough that no step wraps,
/// the credited amount is the sender's clamped percentage of the raw tribute: exactly the
/// raw tribute at 100%, otherwise `raw * p / 100` rounded down below 20, half up from 20 and
/// up from 100. It is never negative, never more than the raw tribute, and within one unit
/// of the exact share: `raw * p - 99 <= 100 * scaled <= raw * p + 99`.
pub proof fn lemma_scaled_tribute_is_the_percentage(raw: i32, percent: i32)
    requires
        0 <= raw <= 21_474_835,
    ensures
        ({
            let p = clamped_percent(percent);
            let r = scale_tribute_spec(raw, percent) as int;
            &&& p == 100 ==> r == raw
            &&& p < 100 && raw < 20 ==> r == (raw * p) / 100
            &&& p < 100 && 20 <= raw < 100 ==> r == (raw * p + 50) / 100
            &&& p < 100 && raw >= 100 ==> r == (raw * p + 99) / 100
            &&& 0 <= r <= raw
            &&& raw * p - 99 <= 100 * r <= raw * p + 99
        }),
{
    let p = clamped_percent(percent);
    let pi: i32 = p as i32;
    lemma_product_does_not_wrap(raw, pi);
    let prod = raw * p;
    if p < 100 {
        assert(prod <= raw * 99) by (nonlinear_arith)
            requires
                0 <= raw,
                1 <= p <= 99,
                prod == raw * p,
        ;
        let r = scale_tribute_spec(raw, percent) as int;
        if raw < 20 {
            assert(r == prod / 100);
        } else if raw < 100 {
            assert(r == (prod + 50) / 100);
        } else {
            assert(r == (prod + 99) / 100);
        }
        assert(0 <= r <= raw && prod - 99 <= 100 * r <= prod + 99) by (nonlinear_arith)
            requires
                0 <= raw,
                0 <= prod <= raw * 99,
                raw < 20 ==> r == prod / 100,
                20 <= raw < 100 ==> r == (prod + 50) / 100,
                raw >= 100 ==> r == (prod + 99) / 100,
        ;
    } else {
        assert(prod == raw * 100);
    }
}

/// The deal state with one leader replaced.
pub open spec fn with_deal_leader(st: AcceptedDealResources, who: usize, l: DealResourceLeader) -> AcceptedDealResources {
    AcceptedDealResources { leaders: vstd::array::spec_array_update(st.leaders, who as int, l), ..st }
}

/// The deal state with `costs[from][to][good]` replaced.
pub open spec fn with_cost(st: AcceptedDealResources, from: usize, to: usize, good: usize, v: i32) -> AcceptedDealResources {
    AcceptedDealResources {
        declaration_costs: vstd::array::spec_array_update(
            st.declaration_costs,
            from as int,
            vstd::array::spec_array_update(
                st.declaration_costs@[from as int],
                to as int,
                vstd::array::spec_array_update(st.declaration_costs@[from as int]@[to as int], good as int, v),
            ),
        ),
        ..st
    }
}

/// Refund `from`'s declaration cost toward `to` for `good` into `from`'s bucket.
pub open spec fn refund_spec(st: AcceptedDealResources, from: usize, to: usize, good: usize) -> (
    AcceptedDealResources,
    AcceptedDealResourceStep,
) {
    let amount = st.declaration_costs@[from as int]@[to as int]@[good as int];
    let l = st.leaders@[from as int];
    (
        with_deal_leader(
            st,
            from,
            DealResourceLeader {
                buckets: vstd::array::spec_array_update(
                    l.buckets,
                    good as int,
                    l.buckets@[good as int].wrapping_add(amount),
                ),
                ..l
            },
        ),
        AcceptedDealResourceStep::RefundDeclarationCost { who: from, good, amount },
    )
}

/// One direction of the transfer: the receiver is credited the scaled amount before the
/// sender's escrow is debited the raw amount; both totals are recorded and the tribute is
/// considered.
pub open spec fn transfer_spec(
    st: AcceptedDealResources,
    from: usize,
    to: usize,
    good: usize,
    raw: i32,
) -> Result<(AcceptedDealResources, Seq<AcceptedDealResourceStep>), DealResourcePlanError> {
    match st.leaders@[from as int].tribute_scale_percent {
        None => Err(DealResourcePlanError::MissingTributeScale { who: from }),
        Some(percent) => {
            let scaled = scale_tribute_spec(raw, percent);
            let lt = st.leaders@[to as int];
            let s1 = with_deal_leader(
                st,
                to,
                DealResourceLeader {
                    buckets: vstd::array::spec_array_update(
                        lt.buckets,
                        good as int,
                        lt.buckets@[good as int].wrapping_add(scaled),
                    ),
                    ..lt
                },
            );
            let lf = s1.leaders@[from as int];
            let s2 = with_deal_leader(
                s1,
                from,
                DealResourceLeader {
                    escrow: vstd::array::spec_array_update(
                        lf.escrow,
                        good as int,
                        lf.escrow@[good as int].wrapping_sub(raw),
                    ),
                    sent_raw: lf.sent_raw.wrapping_add(raw),
                    ..lf
                },
            );
            let lt2 = s2.leaders@[to as int];
            let s3 = with_deal_leader(
                s2,
                to,
                DealResourceLeader { received_scaled: lt2.received_scaled.wrapping_add(scaled), ..lt2 },
            );
            Ok(
                (
                    s3,
                    seq![
                        AcceptedDealResourceStep::CreditScaledTribute { from, to, good, raw, scaled },
                        AcceptedDealResourceStep::DebitEscrow { who: from, good, raw },
                        AcceptedDealResourceStep::RecordSentRaw { who: from, raw },
                        AcceptedDealResourceStep::RecordReceivedScaled { who: to, scaled },
                        AcceptedDealResourceStep::ConsiderTribute {
                            receiver: to,
                            sender: from,
                            good,
                            raw,
                        },
                    ],
                ),
            )
        },
    }
}

/// A negative escrow of `who` for `good` is clamped to zero.
pub open spec fn clamp_spec(st: AcceptedDealResources, who: usize, good: usize) -> AcceptedDealResources {
    let l = st.leaders@[who as int];
    if l.escrow@[good as int] < 0 {
        with_deal_leader(
            st,
            who,
            DealResourceLeader { escrow: vstd::array::spec_array_update(l.escrow, good as int, 0), ..l },
        )
    } else {
        st
    }
}

/// One good: both declaration costs refunded, then both cleared; when the good is available
/// to both leaders (the proposer's availability is read only when the accepter's holds), the
/// proposer's offer goes to the accepter, then the accepter's to the proposer (each offer
/// read before either transfer, negative offers as zero), and both escrows are clamped.
pub open spec fn deal_good_spec(st: AcceptedDealResources, a: usize, p: usize, good: usize) -> Result<
    (AcceptedDealResources, Seq<AcceptedDealResourceStep>),
    DealResourcePlanError,
> {
    let (r1, t1) = refund_spec(st, a, p, good);
    let (r2, t2) = refund_spec(r1, p, a, good);
    let c1 = with_cost(r2, a, p, good, 0);
    let c2 = with_cost(c1, p, a, good, 0);
    let pre = seq![
        t1,
        t2,
        AcceptedDealResourceStep::ClearDeclarationCost { from: a, to: p, good },
        AcceptedDealResourceStep::ClearDeclarationCost { from: p, to: a, good },
    ];
    match c2.leaders@[a as int].type_available@[good as int] {
        None => Err(DealResourcePlanError::MissingTypeAvailability { who: a, good }),
        Some(aa) => if !aa {
            Ok((c2, pre))
        } else {
            match c2.leaders@[p as int].type_available@[good as int] {
                None => Err(DealResourcePlanError::MissingTypeAvailability { who: p, good }),
                Some(pa) => if !pa {
                    Ok((c2, pre))
                } else {
                    let praw = c2.offers@[p as int]@[a as int]@[good as int];
                    let araw = c2.offers@[a as int]@[p as int]@[good as int];
                    let proposer_raw: i32 = if praw < 0 {
                        0
                    } else {
                        praw
                    };
                    let accepter_raw: i32 = if araw < 0 {
                        0
                    } else {
                        araw
                    };
                    match transfer_spec(c2, p, a, good, proposer_raw) {
                        Err(e) => Err(e),
                        Ok((x1, u1)) => match transfer_spec(x1, a, p, good, accepter_raw) {
                            Err(e) => Err(e),
                            Ok((x2, u2)) => Ok(
                                (
                                    clamp_spec(clamp_spec(x2, a, good), p, good),
                                    pre + u1 + u2 + seq![
                                        AcceptedDealResourceStep::ClampEscrow { who: a, good },
                                        AcceptedDealResourceStep::ClampEscrow { who: p, good },
                                    ],
                                ),
                            ),
                        },
                    }
                },
            }
        },
    }
}

/// Goods `0..k` in order.
pub open spec fn deal_fold(st: AcceptedDealResources, a: usize, p: usize, k: int) -> Result<
    (AcceptedDealResources, Seq<AcceptedDealResourceStep>),
    DealResourcePlanError,
>
    decreases k,
{
    if k <= 0 {
        Ok((st, Seq::empty()))
    } else {
        match deal_fold(st, a, p, k - 1) {
            Err(e) => Err(e),
            Ok((s1, t1)) => match deal_good_spec(s1, a, p, (k - 1) as usize) {
                Err(e) => Err(e),
                Ok((s2, t2)) => Ok((s2, t1 + t2)),
            },
        }
    }
}

/// The resource loop at `0x006D0E36..0x006D0FFA`: both leaders in range, then every good.
pub open spec fn accepted_deal_spec(before: AcceptedDealResources, accepter: usize, proposer: usize) -> Result<
    (AcceptedDealResources, Seq<AcceptedDealResourceStep>),
    DealResourcePlanError,
> {
    if accepter >= 8 {
        Err(DealResourcePlanError::LeaderOutOfRange { value: accepter })
    } else if proposer >= 8 {
        Err(DealResourcePlanError::LeaderOutOfRange { value: proposer })
    } else {
        deal_fold(before, accepter, proposer, 6)
    }
}

proof fn lemma_deal_err_persists(st: AcceptedDealResources, a: usize, p: usize, k: int, n: int)
    requires
        0 <= k <= n,
        deal_fold(st, a, p, k) is Err,
    ensures
        deal_fold(st, a, p, n) == deal_fold(st, a, p, k),
    decreases n - k,
{
    if n > k {
        lemma_deal_err_persists(st, a, p, k, n - 1);
    }
}

fn refund(st: &mut AcceptedDealResources, from: usize, to: usize, good: usize) -> (r:
    AcceptedDealResourceStep)
    requires
        from < 8,
        to < 8,
        good < 6,
    ensures
        (*final(st), r) == refund_spec(*old(st), from, to, good),
{
    let amount = st.declaration_costs[from][to][good];
    st.leaders[from].buckets[good] = st.leaders[from].buckets[good].wrapping_add(amount);
    AcceptedDealResourceStep::RefundDeclarationCost { who: from, good, amount }
}

fn transfer_one_direction(
    state: &mut AcceptedDealResources,
    from: usize,
    to: usize,
    good: usize,
    raw: i32,
    steps: &mut Vec<AcceptedDealResourceStep>,
) -> (r: Result<(), DealResourcePlanError>)
    requires
        from < 8,
        to < 8,
        good < 6,
    ensures
        match transfer_spec(*old(state), from, to, good, raw) {
            Ok((s, t)) => r is Ok && *final(state) == s && final(steps)@ == old(steps)@ + t,
            Err(e) => r == Err::<(), DealResourcePlanError>(e),
        },
{
    let percent = match state.leaders[from].tribute_scale_percent {
        None => {
            return Err(DealResourcePlanError::MissingTributeScale { who: from });
        },
        Some(p) => p,
    };
    let scaled = scale_tribute(raw, percent);
    let mut lt = state.leaders[to];
    lt.buckets[good] = lt.buckets[good].wrapping_add(scaled);
    state.leaders[to] = lt;
    let x1 = AcceptedDealResourceStep::CreditScaledTribute { from, to, good, raw, scaled };
    steps.push(x1);
    let mut lf = state.leaders[from];
    lf.escrow[good] = lf.escrow[good].wrapping_sub(raw);
    let x2 = AcceptedDealResourceStep::DebitEscrow { who: from, good, raw };
    steps.push(x2);
    lf.sent_raw = lf.sent_raw.wrapping_add(raw);
    state.leaders[from] = lf;
    let x3 = AcceptedDealResourceStep::RecordSentRaw { who: from, raw };
    steps.push(x3);
    let mut lt2 = state.leaders[to];
    lt2.received_scaled = lt2.received_scaled.wrapping_add(scaled);
    state.leaders[to] = lt2;
    let x4 = AcceptedDealResourceStep::RecordReceivedScaled { who: to, scaled };
    steps.push(x4);
    let x5 = AcceptedDealResourceStep::ConsiderTribute { receiver: to, sender: from, good, raw };
    steps.push(x5);
    assert(steps@ =~= old(steps)@ + seq![x1, x2, x3, x4, x5]);
    Ok(())
}

/// One good of the resource loop.
#[verifier::rlimit(40)]
fn deal_good(
    after: &mut AcceptedDealResources,
    accepter: usize,
    proposer: usize,
    good: usize,
    steps: &mut Vec<AcceptedDealResourceStep>,
) -> (r: Result<(), DealResourcePlanError>)
    requires
        accepter < 8,
        proposer < 8,
        good < 6,
    ensures
        match deal_good_spec(*old(after), accepter, proposer, good) {
            Ok((s, t)) => r is Ok && *final(after) == s && final(steps)@ == old(steps)@ + t,
            Err(e) => r == Err::<(), DealResourcePlanError>(e),
        },
{
    // Both bucket credits come before either declaration-cost field is cleared.
    let t1 = refund(after, accepter, proposer, good);
    let t2 = refund(after, proposer, accepter, good);
    after.declaration_costs[accepter][proposer][good] = 0;
    after.declaration_costs[proposer][accepter][good] = 0;
    let t3 = AcceptedDealResourceStep::ClearDeclarationCost { from: accepter, to: proposer, good };
    let t4 = AcceptedDealResourceStep::ClearDeclarationCost { from: proposer, to: accepter, good };
    steps.push(t1);
    steps.push(t2);
    steps.push(t3);
    steps.push(t4);
    let ghost pre = seq![t1, t2, t3, t4];
    assert(steps@ =~= old(steps)@ + pre);
    let accepter_available = match after.leaders[accepter].type_available[good] {
        None => {
            return Err(DealResourcePlanError::MissingTypeAvailability { who: accepter, good });
        },
        Some(v) => v,
    };
    if !accepter_available {
        return Ok(());
    }
    let proposer_available = match after.leaders[proposer].type_available[good] {
        None => {
            return Err(DealResourcePlanError::MissingTypeAvailability { who: proposer, good });
        },
        Some(v) => v,
    };
    if proposer_available {
        let praw = after.offers[proposer][accepter][good];
        let araw = after.offers[accepter][proposer][good];
        let proposer_raw = if praw < 0 {
            0
        } else {
            praw
        };
        let accepter_raw = if araw < 0 {
            0
        } else {
            araw
        };
        let ghost s_before = steps@;
        match transfer_one_direction(after, proposer, accepter, good, proposer_raw, steps) {
            Err(e) => {
                return Err(e);
            },
            Ok(()) => {},
        }
        let ghost s_mid = steps@;
        match transfer_one_direction(after, accepter, proposer, good, accepter_raw, steps) {
            Err(e) => {
                return Err(e);
            },
            Ok(()) => {},
        }
        if after.leaders[accepter].escrow[good] < 0 {
            after.leaders[accepter].escrow[good] = 0;
        }
        let c1 = AcceptedDealResourceStep::ClampEscrow { who: accepter, good };
        steps.push(c1);
        if after.leaders[proposer].escrow[good] < 0 {
            after.leaders[proposer].escrow[good] = 0;
        }
        let c2 = AcceptedDealResourceStep::ClampEscrow { who: proposer, good };
        steps.push(c2);
        assert(steps@ =~= old(steps)@ + (pre + (s_mid.subrange(s_before.len() as int, s_mid.len() as int)) + (steps@.subrange(s_mid.len() as int, steps@.len() - 2)) + seq![c1, c2]));
    }
    Ok(())
}

/// Reproduce the resource loop at `0x006D0E36..0x006D0FFA`. For every good, both
/// declaration-cost reservations are refunded and cleared first; if the good is available to
/// both leaders, proposer to accepter is transferred before accepter to proposer, each
/// direction crediting the scaled receiver before debiting raw escrow.
pub fn plan_accepted_deal_resources(before: &AcceptedDealResources, accepter: usize, proposer: usize) -> (r:
    Result<AcceptedDealResourcePlan, DealResourcePlanError>)
    ensures
        match accepted_deal_spec(*before, accepter, proposer) {
            Ok((s, t)) => r is Ok && r->Ok_0.accepter == accepter && r->Ok_0.proposer == proposer
                && r->Ok_0.after == s && r->Ok_0.steps@ == t,
            Err(e) => r == Err::<AcceptedDealResourcePlan, DealResourcePlanError>(e),
        },
{
    if accepter >= 8 {
        return Err(DealResourcePlanError::LeaderOutOfRange { value: accepter });
    }
    if proposer >= 8 {
        return Err(DealResourcePlanError::LeaderOutOfRange { value: proposer });
    }
    let mut after = *before;
    let mut steps: Vec<AcceptedDealResourceStep> = Vec::new();
    let mut good: usize = 0;
    while good < 6
        invariant
            good <= 6,
            accepter < 8,
            proposer < 8,
            deal_fold(*before, accepter, proposer, good as int) == Ok::<
                (AcceptedDealResources, Seq<AcceptedDealResourceStep>),
                DealResourcePlanError,
            >((after, steps@)),
        decreases 6 - good,
    {
        let ghost prev = steps@;
        match deal_good(&mut after, accepter, proposer, good, &mut steps) {
            Err(e) => {
                proof {
                    lemma_deal_err_persists(*before, accepter, proposer, good + 1, 6);
                }
                return Err(e);
            },
            Ok(()) => {},
        }
        good = good + 1;
    }
    Ok(AcceptedDealResourcePlan { accepter, proposer, after, steps })
}

/// What one good's processing leaves alone: the offers, every leader but the two parties,
/// the parties' availability facts, every declaration-cost pair but the two between the
/// parties, and both parties' buckets and costs for every other good.
pub open spec fn deal_frame(s: AcceptedDealResources, t: AcceptedDealResources, a: usize, p: usize, good: int) -> bool {
    &&& t.offers == s.offers
    &&& forall|i: int| 0 <= i < 8 && i != a && i != p ==> #[trigger] t.leaders@[i] == s.leaders@[i]
    &&& t.leaders@[a as int].type_available == s.leaders@[a as int].type_available
    &&& t.leaders@[p as int].type_available == s.leaders@[p as int].type_available
    &&& forall|i: int, j: int|
        0 <= i < 8 && 0 <= j < 8 && !(i == a && j == p) && !(i == p && j == a)
            ==> #[trigger] t.declaration_costs@[i]@[j] == s.declaration_costs@[i]@[j]
    &&& forall|g: int|
        0 <= g < 6 && g != good ==> {
            &&& #[trigger] t.declaration_costs@[a as int]@[p as int]@[g]
                == s.declaration_costs@[a as int]@[p as int]@[g]
            &&& t.declaration_costs@[p as int]@[a as int]@[g] == s.declaration_costs@[p as int]@[a as int]@[g]
            &&& t.leaders@[a as int].buckets@[g] == s.leaders@[a as int].buckets@[g]
            &&& t.leaders@[p as int].buckets@[g] == s.leaders@[p as int].buckets@[g]
        }
}

/// The good is unavailable to one of the two parties, so no resources change hands for it.
pub open spec fn deal_unavailable(st: AcceptedDealResources, a: usize, p: usize, g: int) -> bool {
    st.leaders@[a as int].type_available@[g] == Some(false) || st.leaders@[p as int].type_available@[g]
        == Some(false)
}

proof fn lemma_deal_leader_frame(st: AcceptedDealResources, a: usize, p: usize, who: usize, good: int, l: DealResourceLeader)
    requires
        a < 8,
        p < 8,
        who == a || who == p,
        0 <= good < 6,
        l.type_available == st.leaders@[who as int].type_available,
        forall|g: int| 0 <= g < 6 && g != good ==> #[trigger] l.buckets@[g] == st.leaders@[who as int].buckets@[g],
    ensures
        deal_frame(st, with_deal_leader(st, who, l), a, p, good),
        with_deal_leader(st, who, l).declaration_costs == st.declaration_costs,
        with_deal_leader(st, who, l).leaders@ == st.leaders@.update(who as int, l),
{
}

proof fn lemma_transfer_frame(st: AcceptedDealResources, a: usize, p: usize, from: usize, to: usize, good: usize, raw: i32)
    requires
        a < 8,
        p < 8,
        a != p,
        (from == a && to == p) || (from == p && to == a),
        good < 6,
        transfer_spec(st, from, to, good, raw) is Ok,
    ensures
        deal_frame(st, transfer_spec(st, from, to, good, raw)->Ok_0.0, a, p, good as int),
        transfer_spec(st, from, to, good, raw)->Ok_0.0.declaration_costs == st.declaration_costs,
{
    let percent = st.leaders@[from as int].tribute_scale_percent->Some_0;
    let scaled = scale_tribute_spec(raw, percent);
    let lt = st.leaders@[to as int];
    let l1 = DealResourceLeader {
        buckets: vstd::array::spec_array_update(lt.buckets, good as int, lt.buckets@[good as int].wrapping_add(scaled)),
        ..lt
    };
    lemma_deal_leader_frame(st, a, p, to, good as int, l1);
    let s1 = with_deal_leader(st, to, l1);
    let lf = s1.leaders@[from as int];
    let l2 = DealResourceLeader {
        escrow: vstd::array::spec_array_update(lf.escrow, good as int, lf.escrow@[good as int].wrapping_sub(raw)),
        sent_raw: lf.sent_raw.wrapping_add(raw),
        ..lf
    };
    lemma_deal_leader_frame(s1, a, p, from, good as int, l2);
    let s2 = with_deal_leader(s1, from, l2);
    let lt2 = s2.leaders@[to as int];
    let l3 = DealResourceLeader { received_scaled: lt2.received_scaled.wrapping_add(scaled), ..lt2 };
    lemma_deal_leader_frame(s2, a, p, to, good as int, l3);
}

proof fn lemma_clamp_frame(st: AcceptedDealResources, a: usize, p: usize, who: usize, good: usize)
    requires
        a < 8,
        p < 8,
        who == a || who == p,
        good < 6,
    ensures
        deal_frame(st, clamp_spec(st, who, good), a, p, good as int),
        clamp_spec(st, who, good).declaration_costs == st.declaration_costs,
        clamp_spec(st, who, good).leaders@[a as int].buckets == st.leaders@[a as int].buckets,
        clamp_spec(st, who, good).leaders@[p as int].buckets == st.leaders@[p as int].buckets,
{
    let l = st.leaders@[who as int];
    if l.escrow@[good as int] < 0 {
        lemma_deal_leader_frame(
            st,
            a,
            p,
            who,
            good as int,
            DealResourceLeader { escrow: vstd::array::spec_array_update(l.escrow, good as int, 0), ..l },
        );
    }
}

/// One good: the frame holds, both costs between the parties are cleared, and when the good
/// is unavailable to either party each party's bucket has gained its own declared cost.
proof fn lemma_deal_good_effect(s: AcceptedDealResources, a: usize, p: usize, good: usize)
    requires
        a < 8,
        p < 8,
        a != p,
        good < 6,
        deal_good_spec(s, a, p, good) is Ok,
    ensures
        ({
            let t = deal_good_spec(s, a, p, good)->Ok_0.0;
            &&& deal_frame(s, t, a, p, good as int)
            &&& t.declaration_costs@[a as int]@[p as int]@[good as int] == 0
            &&& t.declaration_costs@[p as int]@[a as int]@[good as int] == 0
            &&& deal_unavailable(s, a, p, good as int) ==> {
                &&& t.leaders@[a as int].buckets@[good as int] == s.leaders@[a as int].buckets@[good as int].wrapping_add(
                    s.declaration_costs@[a as int]@[p as int]@[good as int],
                )
                &&& t.leaders@[p as int].buckets@[good as int] == s.leaders@[p as int].buckets@[good as int].wrapping_add(
                    s.declaration_costs@[p as int]@[a as int]@[good as int],
                )
            }
        }),
{
    let g = good as int;
    let la = s.leaders@[a as int];
    let ca = s.declaration_costs@[a as int]@[p as int]@[g];
    let na = DealResourceLeader {
        buckets: vstd::array::spec_array_update(la.buckets, g, la.buckets@[g].wrapping_add(ca)),
        ..la
    };
    lemma_deal_leader_frame(s, a, p, a, g, na);
    let (r1, t1) = refund_spec(s, a, p, good);
    assert(r1 == with_deal_leader(s, a, na));
    let lp = r1.leaders@[p as int];
    let cp = r1.declaration_costs@[p as int]@[a as int]@[g];
    let np = DealResourceLeader {
        buckets: vstd::array::spec_array_update(lp.buckets, g, lp.buckets@[g].wrapping_add(cp)),
        ..lp
    };
    lemma_deal_leader_frame(r1, a, p, p, g, np);
    let (r2, t2) = refund_spec(r1, p, a, good);
    assert(r2 == with_deal_leader(r1, p, np));
    let c1 = with_cost(r2, a, p, good, 0);
    let c2 = with_cost(c1, p, a, good, 0);
    assert(deal_frame(s, r2, a, p, g));
    assert(deal_frame(r2, c1, a, p, g));
    assert(deal_frame(c1, c2, a, p, g));
    assert(deal_frame(s, c2, a, p, g));
    assert(c2.declaration_costs@[a as int]@[p as int]@[g] == 0);
    assert(c2.declaration_costs@[p as int]@[a as int]@[g] == 0);
    assert(c2.leaders@[a as int].buckets@[g] == s.leaders@[a as int].buckets@[g].wrapping_add(ca));
    assert(c2.leaders@[p as int].buckets@[g] == s.leaders@[p as int].buckets@[g].wrapping_add(
        s.declaration_costs@[p as int]@[a as int]@[g],
    ));
    if c2.leaders@[a as int].type_available@[g] == Some(true) && c2.leaders@[p as int].type_available@[g]
        == Some(true) {
        let praw = c2.offers@[p as int]@[a as int]@[g];
        let araw = c2.offers@[a as int]@[p as int]@[g];
        let proposer_raw: i32 = if praw < 0 { 0 } else { praw };
        let accepter_raw: i32 = if araw < 0 { 0 } else { araw };
        lemma_transfer_frame(c2, a, p, p, a, good, proposer_raw);
        let x1 = transfer_spec(c2, p, a, good, proposer_raw)->Ok_0.0;
        lemma_transfer_frame(x1, a, p, a, p, good, accepter_raw);
        let x2 = transfer_spec(x1, a, p, good, accepter_raw)->Ok_0.0;
        lemma_clamp_frame(x2, a, p, a, good);
        let y1 = clamp_spec(x2, a, good);
        lemma_clamp_frame(y1, a, p, p, good);
        assert(deal_frame(c2, x1, a, p, g));
        assert(deal_frame(x1, x2, a, p, g));
        assert(deal_frame(x2, y1, a, p, g));
        assert(deal_frame(y1, clamp_spec(y1, p, good), a, p, g));
        assert(deal_frame(s, clamp_spec(y1, p, good), a, p, g));
    }
}

/// Goods `0..k` processed: the frame outside the two parties holds, every processed good has
/// both costs cleared and, when unavailable to either party, both refunds in the buckets;
/// every good not yet processed is as it was.
proof fn lemma_deal_fold_effect(before: AcceptedDealResources, a: usize, p: usize, k: int)
    requires
        a < 8,
        p < 8,
        a != p,
        0 <= k <= 6,
        deal_fold(before, a, p, k) is Ok,
    ensures
        ({
            let st = deal_fold(before, a, p, k)->Ok_0.0;
            &&& st.offers == before.offers
            &&& forall|i: int| 0 <= i < 8 && i != a && i != p ==> #[trigger] st.leaders@[i] == before.leaders@[i]
            &&& st.leaders@[a as int].type_available == before.leaders@[a as int].type_available
            &&& st.leaders@[p as int].type_available == before.leaders@[p as int].type_available
            &&& forall|i: int, j: int|
                0 <= i < 8 && 0 <= j < 8 && !(i == a && j == p) && !(i == p && j == a)
                    ==> #[trigger] st.declaration_costs@[i]@[j] == before.declaration_costs@[i]@[j]
            &&& forall|g: int|
                0 <= g < k ==> {
                    &&& #[trigger] st.declaration_costs@[a as int]@[p as int]@[g] == 0
                    &&& st.declaration_costs@[p as int]@[a as int]@[g] == 0
                    &&& deal_unavailable(before, a, p, g) ==> {
                        &&& st.leaders@[a as int].buckets@[g] == before.leaders@[a as int].buckets@[g].wrapping_add(
                            before.declaration_costs@[a as int]@[p as int]@[g],
                        )
                        &&& st.leaders@[p as int].buckets@[g] == before.leaders@[p as int].buckets@[g].wrapping_add(
                            before.declaration_costs@[p as int]@[a as int]@[g],
                        )
                    }
                }
            &&& forall|g: int|
                k <= g < 6 ==> {
                    &&& #[trigger] st.declaration_costs@[a as int]@[p as int]@[g]
                        == before.declaration_costs@[a as int]@[p as int]@[g]
                    &&& st.declaration_costs@[p as int]@[a as int]@[g] == before.declaration_costs@[p as int]@[a as int]@[g]
                    &&& st.leaders@[a as int].buckets@[g] == before.leaders@[a as int].buckets@[g]
                    &&& st.leaders@[p as int].buckets@[g] == before.leaders@[p as int].buckets@[g]
                }
        }),
    decreases k,
{
    if k > 0 {
        lemma_deal_fold_effect(before, a, p, k - 1);
        let s1 = deal_fold(before, a, p, k - 1)->Ok_0.0;
        lemma_deal_good_effect(s1, a, p, (k - 1) as usize);
        let s2 = deal_good_spec(s1, a, p, (k - 1) as usize)->Ok_0.0;
        assert(deal_fold(before, a, p, k)->Ok_0.0 == s2);
        assert forall|g: int| 0 <= g < 6 && g != k - 1 implies {
            &&& #[trigger] s2.declaration_costs@[a as int]@[p as int]@[g] == s1.declaration_costs@[a as int]@[p as int]@[g]
            &&& s2.declaration_costs@[p as int]@[a as int]@[g] == s1.declaration_costs@[p as int]@[a as int]@[g]
            &&& s2.leaders@[a as int].buckets@[g] == s1.leaders@[a as int].buckets@[g]
            &&& s2.leaders@[p as int].buckets@[g] == s1.leaders@[p as int].buckets@[g]
        } by {}
    }
}

/// Law of an accepted deal between two different leaders: for every good both declaration
/// costs between them end at zero; for a good unavailable to either of them each party's
/// bucket gains exactly its own declared cost (wrapping) and nothing else; the offers, every
/// other declaration-cost pair and every other leader are unchanged.
pub proof fn lemma_accepted_deal_settles_declaration_costs(
    before: AcceptedDealResources,
    accepter: usize,
    proposer: usize,
)
    requires
        accepter < 8,
        proposer < 8,
        accepter != proposer,
        accepted_deal_spec(before, accepter, proposer) is Ok,
    ensures
        ({
            let after = accepted_deal_spec(before, accepter, proposer)->Ok_0.0;
            let (a, p) = (accepter as int, proposer as int);
            &&& forall|g: int|
                0 <= g < 6 ==> #[trigger] after.declaration_costs@[a]@[p]@[g] == 0
                    && after.declaration_costs@[p]@[a]@[g] == 0
            &&& forall|g: int|
                0 <= g < 6 && #[trigger] deal_unavailable(before, accepter, proposer, g) ==> {
                    &&& after.leaders@[a].buckets@[g] == before.leaders@[a].buckets@[g].wrapping_add(
                        before.declaration_costs@[a]@[p]@[g],
                    )
                    &&& after.leaders@[p].buckets@[g] == before.leaders@[p].buckets@[g].wrapping_add(
                        before.declaration_costs@[p]@[a]@[g],
                    )
                }
            &&& after.offers == before.offers
            &&& forall|i: int, j: int|
                0 <= i < 8 && 0 <= j < 8 && !(i == a && j == p) && !(i == p && j == a)
                    ==> #[trigger] after.declaration_costs@[i]@[j] == before.declaration_costs@[i]@[j]
            &&& forall|i: int| 0 <= i < 8 && i != a && i != p ==> #[trigger] after.leaders@[i] == before.leaders@[i]
        }),
{
    lemma_deal_fold_effect(before, accepter, proposer, 6);
    let after = deal_fold(before, accepter, proposer, 6)->Ok_0.0;
    assert forall|g: int| 0 <= g < 6 && #[trigger] deal_unavailable(before, accepter, proposer, g) implies {
        &&& after.leaders@[accepter as int].buckets@[g] == before.leaders@[accepter as int].buckets@[g].wrapping_add(
            before.declaration_costs@[accepter as int]@[proposer as int]@[g],
        )
        &&& after.leaders@[proposer as int].buckets@[g] == before.leaders@[proposer as int].buckets@[g].wrapping_add(
            before.declaration_costs@[proposer as int]@[accepter as int]@[g],
        )
    } by {
        assert(after.declaration_costs@[accepter as int]@[proposer as int]@[g] == 0);
    }
}

// ---------------------------------------------------------------------------------------
// `Leader::pay_dow` resource debit used by opcode 38.
// ---------------------------------------------------------------------------------------

#[derive(Clone, Copy, Debug, PartialEq, Eq)]
pub struct DeclarationPaymentImage {
    /// Encoded `Resources` values at the `0x00E41248` family, decoded for the planner.
    pub authoritative_buckets: [i32; 6],
    /// Mirrored `LeaderData+0x468` values (`0x00E3A7F8` family).
    pub leader_buckets: [i32; 6],
    pub type_available: [Option<bool>; 6],
    /// Result of the DOW type's virtual cost query for each good.
    pub costs: [Option<i32>; 6],
}

impl Default for DeclarationPaymentImage {
    /// Empty buckets, every fact missing.
    fn default() -> (r: Self)
        ensures
            r == (DeclarationPaymentImage {
                authoritative_buckets: [0i32, 0i32, 0i32, 0i32, 0i32, 0i32],
                leader_buckets: [0i32, 0i32, 0i32, 0i32, 0i32, 0i32],
                type_available: [None, None, None, None, None, None],
                costs: [None, None, None, None, None, None],
            }),
    {
        DeclarationPaymentImage {
            authoritative_buckets: [0, 0, 0, 0, 0, 0],
            leader_buckets: [0, 0, 0, 0, 0, 0],
            type_available: [None, None, None, None, None, None],
            costs: [None, None, None, None, None, None],
        }
    }
}

#[derive(Clone, Copy, Debug, PartialEq, Eq, Structural)]
pub enum DeclarationPaymentError {
    MissingTypeAvailability { good: usize },
    MissingCost { good: usize },
}

#[derive(Clone, Copy, Debug, PartialEq, Eq, Structural)]
pub enum DeclarationPaymentStep {
    DebitAuthoritativeBucket { payment: usize, good: usize, cost: i32 },
    DebitLeaderBucket { payment: usize, good: usize, cost: i32 },
}

#[derive(Clone, Debug, PartialEq, Eq)]
pub struct DeclarationPaymentPlan {
    pub payments: usize,
    pub after: DeclarationPaymentImage,
    pub steps: Vec<DeclarationPaymentStep>,
}

/// `x - cost` (wrapping), floored at zero.
pub open spec fn debit_floor(x: i32, cost: i32) -> i32 {
    let d = x.wrapping_sub(cost);
    if d < 0 {
        0
    } else {
        d
    }
}

/// One good of one payment: an unavailable good is skipped; otherwise its cost is debited
/// and floored, the authoritative bucket before the leader mirror.
pub open spec fn pay_good_spec(img: DeclarationPaymentImage, payment: usize, good: usize) -> Result<
    (DeclarationPaymentImage, Seq<DeclarationPaymentStep>),
    DeclarationPaymentError,
> {
    match img.type_available@[good as int] {
        None => Err(DeclarationPaymentError::MissingTypeAvailability { good }),
        Some(av) => if !av {
            Ok((img, Seq::empty()))
        } else {
            match img.costs@[good as int] {
                None => Err(DeclarationPaymentError::MissingCost { good }),
                Some(cost) => Ok(
                    (
                        DeclarationPaymentImage {
                            authoritative_buckets: vstd::array::spec_array_update(
                                img.authoritative_buckets,
                                good as int,
                                debit_floor(img.authoritative_buckets@[good as int], cost),
                            ),
                            leader_buckets: vstd::array::spec_array_update(
                                img.leader_buckets,
                                good as int,
                                debit_floor(img.leader_buckets@[good as int], cost),
                            ),
                            ..img
                        },
                        seq![
                            DeclarationPaymentStep::DebitAuthoritativeBucket { payment, good, cost },
                            DeclarationPaymentStep::DebitLeaderBucket { payment, good, cost },
                        ],
                    ),
                ),
            }
        },
    }
}

/// Goods `0..k` of one payment.
pub open spec fn pay_goods_fold(img: DeclarationPaymentImage, payment: usize, k: int) -> Result<
    (DeclarationPaymentImage, Seq<DeclarationPaymentStep>),
    DeclarationPaymentError,
>
    decreases k,
{
    if k <= 0 {
        Ok((img, Seq::empty()))
    } else {
        match pay_goods_fold(img, payment, k - 1) {
            Err(e) => Err(e),
            Ok((i1, t1)) => match pay_good_spec(i1, payment, (k - 1) as usize) {
                Err(e) => Err(e),
                Ok((i2, t2)) => Ok((i2, t1 + t2)),
            },
        }
    }
}

/// `Leader::pay_dow` (`0x006D2B10`) `n` times, each payment walking goods 0..5.
pub open spec fn declaration_payments_spec(img: DeclarationPaymentImage, n: int) -> Result<
    (DeclarationPaymentImage, Seq<DeclarationPaymentStep>),
    DeclarationPaymentError,
>
    decreases n,
{
    if n <= 0 {
        Ok((img, Seq::empty()))
    } else {
        match declaration_payments_spec(img, n - 1) {
            Err(e) => Err(e),
            Ok((i1, t1)) => match pay_goods_fold(i1, (n - 1) as usize, 6) {
                Err(e) => Err(e),
                Ok((i2, t2)) => Ok((i2, t1 + t2)),
            },
        }
    }
}

proof fn lemma_pay_goods_err_persists(img: DeclarationPaymentImage, payment: usize, k: int, n: int)
    requires
        0 <= k <= n,
        pay_goods_fold(img, payment, k) is Err,
    ensures
        pay_goods_fold(img, payment, n) == pay_goods_fold(img, payment, k),
    decreases n - k,
{
    if n > k {
        lemma_pay_goods_err_persists(img, payment, k, n - 1);
    }
}

proof fn lemma_payments_err_persists(img: DeclarationPaymentImage, k: int, n: int)
    requires
        0 <= k <= n,
        declaration_payments_spec(img, k) is Err,
    ensures
        declaration_payments_spec(img, n) == declaration_payments_spec(img, k),
    decreases n - k,
{
    if n > k {
        lemma_payments_err_persists(img, k, n - 1);
    }
}

/// `Leader::pay_dow` (`0x006D2B10`) once or twice. `action_declare` calls it once before
/// all declaration statistics and `set_diplo`; the allied-to-war arm calls it a second time
/// immediately after the first. Each payment walks goods 0..5 and debits and clamps the
/// authoritative bucket before the `LeaderData` mirror.
pub fn plan_declaration_payments(before: &DeclarationPaymentImage, payments: usize) -> (r: Result<
    DeclarationPaymentPlan,
    DeclarationPaymentError,
>)
    ensures
        match declaration_payments_spec(*before, payments as int) {
            Ok((s, t)) => r is Ok && r->Ok_0.payments == payments && r->Ok_0.after == s
                && r->Ok_0.steps@ == t,
            Err(e) => r == Err::<DeclarationPaymentPlan, DeclarationPaymentError>(e),
        },
{
    let mut after = *before;
    let mut steps: Vec<DeclarationPaymentStep> = Vec::new();
    let mut payment: usize = 0;
    while payment < payments
        invariant
            payment <= payments,
            declaration_payments_spec(*before, payment as int) == Ok::<
                (DeclarationPaymentImage, Seq<DeclarationPaymentStep>),
                DeclarationPaymentError,
            >((after, steps@)),
        decreases payments - payment,
    {
        let ghost start = after;
        let ghost start_steps = steps@;
        let mut good: usize = 0;
        while good < 6
            invariant
                good <= 6,
                payment < payments,
                declaration_payments_spec(*before, payment as int) == Ok::<
                    (DeclarationPaymentImage, Seq<DeclarationPaymentStep>),
                    DeclarationPaymentError,
                >((start, start_steps)),
                pay_goods_fold(start, payment, good as int) is Ok,
                after == pay_goods_fold(start, payment, good as int)->Ok_0.0,
                steps@ == start_steps + pay_goods_fold(start, payment, good as int)->Ok_0.1,
            decreases 6 - good,
        {
            let ghost prev = steps@;
            let available = match after.type_available[good] {
                None => {
                    proof {
                        lemma_pay_goods_err_persists(start, payment, good + 1, 6);
                        lemma_payments_err_persists(*before, payment + 1, payments as int);
                    }
                    return Err(DeclarationPaymentError::MissingTypeAvailability { good });
                },
                Some(v) => v,
            };
            if available {
                let cost = match after.costs[good] {
                    None => {
                        proof {
                            lemma_pay_goods_err_persists(start, payment, good + 1, 6);
                            lemma_payments_err_persists(*before, payment + 1, payments as int);
                        }
                        return Err(DeclarationPaymentError::MissingCost { good });
                    },
                    Some(c) => c,
                };
                let a = after.authoritative_buckets[good].wrapping_sub(cost);
                after.authoritative_buckets[good] = if a < 0 {
                    0
                } else {
                    a
                };
                let x = DeclarationPaymentStep::DebitAuthoritativeBucket { payment, good, cost };
                steps.push(x);
                let l = after.leader_buckets[good].wrapping_sub(cost);
                after.leader_buckets[good] = if l < 0 {
                    0
                } else {
                    l
                };
                let y = DeclarationPaymentStep::DebitLeaderBucket { payment, good, cost };
                steps.push(y);
                assert(steps@ =~= start_steps + (pay_goods_fold(start, payment, good as int)->Ok_0.1
                    + seq![x, y]));
            } else {
                assert(steps@ =~= start_steps + (pay_goods_fold(start, payment, good as int)->Ok_0.1
                    + Seq::<DeclarationPaymentStep>::empty()));
            }
            good = good + 1;
        }
        assert(steps@ =~= start_steps + pay_goods_fold(start, payment, 6)->Ok_0.1);
        payment = payment + 1;
    }
    Ok(DeclarationPaymentPlan { payments, after, steps })
}

/// `debit_floor(_, cost)` applied `n` times.
pub open spec fn debit_times(x: i32, cost: i32, n: nat) -> i32
    decreases n,
{
    if n == 0 {
        x
    } else {
        debit_floor(debit_times(x, cost, (n - 1) as nat), cost)
    }
}

/// What `k` goods of one payment do to each good of the image.
pub open spec fn paid_goods(img: DeclarationPaymentImage, t: DeclarationPaymentImage, k: int) -> bool {
    &&& t.type_available == img.type_available
    &&& t.costs == img.costs
    &&& forall|g: int|
        0 <= g < 6 ==> #[trigger] t.authoritative_buckets@[g] == if g < k && img.type_available@[g] == Some(true) {
            debit_floor(img.authoritative_buckets@[g], img.costs@[g]->Some_0)
        } else {
            img.authoritative_buckets@[g]
        }
    &&& forall|g: int|
        0 <= g < 6 ==> #[trigger] t.leader_buckets@[g] == if g < k && img.type_available@[g] == Some(true) {
            debit_floor(img.leader_buckets@[g], img.costs@[g]->Some_0)
        } else {
            img.leader_buckets@[g]
        }
}

proof fn lemma_pay_goods_effect(img: DeclarationPaymentImage, payment: usize, k: int)
    requires
        0 <= k <= 6,
        pay_goods_fold(img, payment, k) is Ok,
    ensures
        paid_goods(img, pay_goods_fold(img, payment, k)->Ok_0.0, k),
    decreases k,
{
    if k > 0 {
        lemma_pay_goods_effect(img, payment, k - 1);
        let i1 = pay_goods_fold(img, payment, k - 1)->Ok_0.0;
        let i2 = pay_good_spec(i1, payment, (k - 1) as usize)->Ok_0.0;
        assert(pay_goods_fold(img, payment, k)->Ok_0.0 == i2);
        assert forall|g: int| 0 <= g < 6 implies #[trigger] i2.authoritative_buckets@[g] == if g < k
            && img.type_available@[g] == Some(true) {
            debit_floor(img.authoritative_buckets@[g], img.costs@[g]->Some_0)
        } else {
            img.authoritative_buckets@[g]
        } && i2.leader_buckets@[g] == if g < k && img.type_available@[g] == Some(true) {
            debit_floor(img.leader_buckets@[g], img.costs@[g]->Some_0)
        } else {
            img.leader_buckets@[g]
        } by {
            assert(i1.authoritative_buckets@[g] == i1.authoritative_buckets@[g]);
            assert(i1.leader_buckets@[g] == i1.leader_buckets@[g]);
        }
    }
}

/// After `n` payments: availability and costs as before, every available good with a cost
/// carries `n` floored debits in both buckets, every other good is untouched.
proof fn lemma_payments_effect(img: DeclarationPaymentImage, n: int)
    requires
        0 <= n,
        declaration_payments_spec(img, n) is Ok,
    ensures
        ({
            let t = declaration_payments_spec(img, n)->Ok_0.0;
            &&& t.type_available == img.type_available
            &&& t.costs == img.costs
            &&& forall|g: int|
                0 <= g < 6 ==> #[trigger] t.authoritative_buckets@[g] == if img.type_available@[g] == Some(true) {
                    debit_times(img.authoritative_buckets@[g], img.costs@[g]->Some_0, n as nat)
                } else {
                    img.authoritative_buckets@[g]
                }
            &&& forall|g: int|
                0 <= g < 6 ==> #[trigger] t.leader_buckets@[g] == if img.type_available@[g] == Some(true) {
                    debit_times(img.leader_buckets@[g], img.costs@[g]->Some_0, n as nat)
                } else {
                    img.leader_buckets@[g]
                }
        }),
    decreases n,
{
    if n > 0 {
        lemma_payments_effect(img, n - 1);
        let i1 = declaration_payments_spec(img, n - 1)->Ok_0.0;
        lemma_pay_goods_effect(i1, (n - 1) as usize, 6);
        let i2 = pay_goods_fold(i1, (n - 1) as usize, 6)->Ok_0.0;
        assert(declaration_payments_spec(img, n)->Ok_0.0 == i2);
        assert forall|g: int| 0 <= g < 6 implies #[trigger] i2.authoritative_buckets@[g] == if img.type_available@[g]
            == Some(true) {
            debit_times(img.authoritative_buckets@[g], img.costs@[g]->Some_0, n as nat)
        } else {
            img.authoritative_buckets@[g]
        } && i2.leader_buckets@[g] == if img.type_available@[g] == Some(true) {
            debit_times(img.leader_buckets@[g], img.costs@[g]->Some_0, n as nat)
        } else {
            img.leader_buckets@[g]
        } by {
            assert(i1.authoritative_buckets@[g] == i1.authoritative_buckets@[g]);
            assert(i1.leader_buckets@[g] == i1.leader_buckets@[g]);
        }
    }
}

/// Law of declaration payments: no payment changes nothing and records no step; a good
/// unavailable to the declarer keeps both buckets; an available good with cost `c` has both
/// buckets debited by `c` and floored at zero once per payment, so both end non-negative
/// once at least one payment was made.
pub proof fn lemma_declaration_payments_debit_each_good(before: DeclarationPaymentImage, payments: usize)
    requires
        declaration_payments_spec(before, payments as int) is Ok,
    ensures
        ({
            let (after, steps) = declaration_payments_spec(before, payments as int)->Ok_0;
            &&& payments == 0 ==> after == before && steps.len() == 0
            &&& forall|g: int|
                0 <= g < 6 && #[trigger] before.type_available@[g] == Some(false) ==> after.authoritative_buckets@[g]
                    == before.authoritative_buckets@[g] && after.leader_buckets@[g] == before.leader_buckets@[g]
            &&& forall|g: int|
                0 <= g < 6 && before.type_available@[g] == Some(true) && #[trigger] before.costs@[g] is Some ==> {
                    let c = before.costs@[g]->Some_0;
                    &&& after.authoritative_buckets@[g] == debit_times(before.authoritative_buckets@[g], c, payments as nat)
                    &&& after.leader_buckets@[g] == debit_times(before.leader_buckets@[g], c, payments as nat)
                    &&& payments > 0 ==> after.authoritative_buckets@[g] >= 0 && after.leader_buckets@[g] >= 0
                }
        }),
{
    lemma_payments_effect(before, payments as int);
    let after = declaration_payments_spec(before, payments as int)->Ok_0.0;
    assert forall|g: int| 0 <= g < 6 && #[trigger] before.type_available@[g] == Some(false) implies after.authoritative_buckets@[g]
        == before.authoritative_buckets@[g] && after.leader_buckets@[g] == before.leader_buckets@[g] by {
        assert(after.authoritative_buckets@[g] == after.authoritative_buckets@[g]);
        assert(after.leader_buckets@[g] == after.leader_buckets@[g]);
    }
    assert forall|g: int|
        0 <= g < 6 && before.type_available@[g] == Some(true) && #[trigger] before.costs@[g] is Some implies {
            let c = before.costs@[g]->Some_0;
            &&& after.authoritative_buckets@[g] == debit_times(before.authoritative_buckets@[g], c, payments as nat)
            &&& after.leader_buckets@[g] == debit_times(before.leader_buckets@[g], c, payments as nat)
            &&& payments > 0 ==> after.authoritative_buckets@[g] >= 0 && after.leader_buckets@[g] >= 0
        } by {
        assert(after.authoritative_buckets@[g] == after.authoritative_buckets@[g]);
        assert(after.leader_buckets@[g] == after.leader_buckets@[g]);
    }
}

// ---------------------------------------------------------------------------------------
// Transaction receipts.
// ---------------------------------------------------------------------------------------

#[derive(Clone, Copy, Debug, PartialEq, Eq, Structural)]
pub enum SetDiploTransactionStatus {
    Applied,
    Unavailable,
}

#[derive(Clone, Debug, PartialEq, Eq)]
pub struct SetDiploTransactionRequest {
    pub before: SetDiploImage,
    pub change: SetDiploRequest,
}

#[derive(Clone, Debug, PartialEq, Eq)]
pub struct SetDiploReceipt {
    pub request: SetDiploTransactionRequest,
    pub status: SetDiploTransactionStatus,
    pub plan: Option<SetDiploPlan>,
    /// Authority calls completed by the host, in order. Presentation is absent.
    pub authority: Vec<SetDiploAuthority>,
}

/// The authority calls of a step list, in order.
pub open spec fn authority_of(steps: Seq<SetDiploStep>) -> Seq<SetDiploAuthority>
    decreases steps.len(),
{
    if steps.len() == 0 {
        Seq::empty()
    } else {
        let p = authority_of(steps.drop_last());
        match steps.last() {
            SetDiploStep::Authority(a) => p.push(a),
            _ => p,
        }
    }
}

/// Whether a receipt answers `expected`: it names the same request; an unavailable one
/// carries no plan and no calls and is owed only where planning would have succeeded; an
/// applied one carries exactly the plan and acknowledges exactly its authority calls.
pub open spec fn validates_spec(r: SetDiploReceipt, expected: SetDiploTransactionRequest) -> bool {
    &&& r.request.before@ == expected.before@
    &&& r.request.change == expected.change
    &&& match r.status {
        SetDiploTransactionStatus::Unavailable => r.plan is None && r.authority@.len() == 0
            && plan_set_diplo_spec(expected.before@, expected.change) is Ok,
        SetDiploTransactionStatus::Applied => match plan_set_diplo_spec(
            expected.before@,
            expected.change,
        ) {
            Err(_) => false,
            Ok(m) => match r.plan {
                None => false,
                Some(p) => plan_matches(p, expected.change, m) && r.authority@ == authority_of(
                    m.steps,
                ),
            },
        },
    }
}

fn same_units(a: &Vec<EjectionUnitFact>, b: &Vec<EjectionUnitFact>) -> (r: bool)
    ensures
        r == (a@ == b@),
{
    if a.len() != b.len() {
        return false;
    }
    let mut i: usize = 0;
    while i < a.len()
        invariant
            i <= a.len(),
            a.len() == b.len(),
            forall|j: int| 0 <= j < i ==> a@[j] == b@[j],
        decreases a.len() - i,
    {
        if a[i] != b[i] {
            return false;
        }
        i = i + 1;
    }
    assert(a@ =~= b@);
    true
}

fn same_facts(a: &LeaderSetDiploFacts, b: &LeaderSetDiploFacts) -> (r: bool)
    ensures
        r == (a@ == b@),
{
    if a.who != b.who || a.leader_flags != b.leader_flags || a.leader_flags2 != b.leader_flags2
        || a.shared_vision != b.shared_vision || a.has_shared_vision_preq
        != b.has_shared_vision_preq {
        return false;
    }
    let mut i: usize = 0;
    while i < 8
        invariant
            i <= 8,
            forall|j: int| 0 <= j < i ==> a.diplos@[j] == b.diplos@[j],
        decreases 8 - i,
    {
        if a.diplos[i] != b.diplos[i] {
            assert(a@.diplos[i as int] != b@.diplos[i as int]);
            return false;
        }
        i = i + 1;
    }
    assert(a.diplos@ =~= b.diplos@);
    match (&a.ejection_units, &b.ejection_units) {
        (Some(x), Some(y)) => {
            if !same_units(x, y) {
                return false;
            }
        },
        (None, None) => {},
        _ => {
            return false;
        },
    }
    match (&a.valid_armies, &b.valid_armies) {
        (Some(x), Some(y)) => {
            let mut k: usize = 0;
            while k < 16
                invariant
                    k <= 16,
                    a.valid_armies == Some(*x),
                    b.valid_armies == Some(*y),
                    forall|j: int| 0 <= j < k ==> x@[j] == y@[j],
                decreases 16 - k,
            {
                if x[k] != y[k] {
                    assert(x@[k as int] != y@[k as int]);
                    return false;
                }
                k = k + 1;
            }
            assert(x@ =~= y@);
        },
        (None, None) => {},
        _ => {
            return false;
        },
    }
    true
}

/// Whether two images have the same view.
pub fn same_image(a: &SetDiploImage, b: &SetDiploImage) -> (r: bool)
    ensures
        r == (a@ == b@),
{
    if a.local_who != b.local_who || a.global_shared_vision != b.global_shared_vision
        || a.interface_dirty != b.interface_dirty || a.victory_mask != b.victory_mask {
        return false;
    }
    let mut i: usize = 0;
    while i < 8
        invariant
            i <= 8,
            forall|j: int| 0 <= j < i ==> a.leaders@[j]@ == b.leaders@[j]@,
            forall|j: int| 0 <= j < i ==> a.console_treaty_one@[j] == b.console_treaty_one@[j],
        decreases 8 - i,
    {
        if !same_facts(&a.leaders[i], &b.leaders[i]) {
            assert(a@.leaders[i as int] != b@.leaders[i as int]);
            return false;
        }
        if a.console_treaty_one[i] != b.console_treaty_one[i] {
            assert(a@.console_treaty_one[i as int] != b@.console_treaty_one[i as int]);
            return false;
        }
        i = i + 1;
    }
    assert(a@.leaders =~= b@.leaders);
    assert(a@.console_treaty_one =~= b@.console_treaty_one);
    true
}

/// The authority calls of a step list.
fn authority_calls(steps: &Vec<SetDiploStep>) -> (r: Vec<SetDiploAuthority>)
    ensures
        r@ == authority_of(steps@),
{
    let mut out: Vec<SetDiploAuthority> = Vec::new();
    let mut i: usize = 0;
    while i < steps.len()
        invariant
            i <= steps.len(),
            out@ == authority_of(steps@.subrange(0, i as int)),
        decreases steps.len() - i,
    {
        assert(steps@.subrange(0, i + 1).drop_last() =~= steps@.subrange(0, i as int));
        match steps[i] {
            SetDiploStep::Authority(call) => {
                out.push(call);
            },
            _ => {},
        }
        i = i + 1;
    }
    assert(steps@.subrange(0, steps.len() as int) =~= steps@);
    out
}

fn same_authority(a: &Vec<SetDiploAuthority>, b: &Vec<SetDiploAuthority>) -> (r: bool)
    ensures
        r == (a@ == b@),
{
    if a.len() != b.len() {
        return false;
    }
    let mut i: usize = 0;
    while i < a.len()
        invariant
            i <= a.len(),
            a.len() == b.len(),
            forall|j: int| 0 <= j < i ==> a@[j] == b@[j],
        decreases a.len() - i,
    {
        if a[i] != b[i] {
            return false;
        }
        i = i + 1;
    }
    assert(a@ =~= b@);
    true
}

fn same_steps(a: &Vec<SetDiploStep>, b: &Vec<SetDiploStep>) -> (r: bool)
    ensures
        r == (a@ == b@),
{
    if a.len() != b.len() {
        return false;
    }
    let mut i: usize = 0;
    while i < a.len()
        invariant
            i <= a.len(),
            a.len() == b.len(),
            forall|j: int| 0 <= j < i ==> a@[j] == b@[j],
        decreases a.len() - i,
    {
        if a[i] != b[i] {
            return false;
        }
        i = i + 1;
    }
    assert(a@ =~= b@);
    true
}

impl SetDiploReceipt {
    /// The receipt of a transaction the host could not apply.
    pub fn unavailable(request: SetDiploTransactionRequest) -> (r: Self)
        ensures
            r.request == request,
            r.status == SetDiploTransactionStatus::Unavailable,
            r.plan is None,
            r.authority@.len() == 0,
    {
        SetDiploReceipt {
            request,
            status: SetDiploTransactionStatus::Unavailable,
            plan: None,
            authority: Vec::new(),
        }
    }

    /// Whether this receipt answers `expected`, as [`validates_spec`] says.
    pub fn validates(&self, expected: &SetDiploTransactionRequest) -> (r: bool)
        ensures
            r == validates_spec(*self, *expected),
    {
        if !same_image(&self.request.before, &expected.before) || self.request.change
            != expected.change {
            return false;
        }
        let planned = plan_set_diplo(&expected.before, expected.change);
        match self.status {
            SetDiploTransactionStatus::Unavailable => {
                self.plan.is_none() && self.authority.len() == 0 && planned.is_ok()
            },
            SetDiploTransactionStatus::Applied => {
                let plan = match planned {
                    Err(_) => {
                        return false;
                    },
                    Ok(p) => p,
                };
                let required = authority_calls(&plan.steps);
                match &self.plan {
                    None => false,
                    Some(mine) => {
                        mine.request == plan.request && mine.old_state == plan.old_state
                            && same_image(&mine.after, &plan.after) && same_steps(
                            &mine.steps,
                            &plan.steps,
                        ) && same_authority(&self.authority, &required)
                    },
                }
            },
        }
    }
}

// ---------------------------------------------------------------------------------------
// Laws.
// ---------------------------------------------------------------------------------------

/// An unchanged declaration returns before every side effect: the after-image is the
/// before-image and there are no steps.
pub proof fn lemma_unchanged_declaration_is_a_no_op(before: SetDiploImageView, req: SetDiploRequest)
    requires
        plan_set_diplo_spec(before, req) is Ok,
        plan_set_diplo_spec(before, req)->Ok_0.old_state == req.state,
    ensures
        plan_set_diplo_spec(before, req)->Ok_0.after == before,
        plan_set_diplo_spec(before, req)->Ok_0.steps.len() == 0,
{
}

/// Granting vision changes no declaration.
proof fn lemma_grant_keeps_declarations(img: SetDiploImageView, viewer: usize, source: usize)
    requires
        viewer < 8,
        img.leaders.len() == 8,
        grant_spec(img, viewer, source) is Ok,
    ensures
        grant_spec(img, viewer, source)->Ok_0.0.leaders.len() == 8,
        forall|i: int|
            0 <= i < 8 ==> (#[trigger] grant_spec(img, viewer, source)->Ok_0.0.leaders[i]).diplos
                == img.leaders[i].diplos,
{
}

/// A changed declaration is written in both directions, the interface is marked dirty, and
/// that mark is the last step.
pub proof fn lemma_changed_declaration_is_written_both_ways(before: SetDiploImageView, req: SetDiploRequest)
    requires
        before.leaders.len() == 8,
        forall|i: int| 0 <= i < 8 ==> (#[trigger] before.leaders[i]).diplos.len() == 8,
        plan_set_diplo_spec(before, req) is Ok,
        plan_set_diplo_spec(before, req)->Ok_0.old_state != req.state,
    ensures
        ({
            let m = plan_set_diplo_spec(before, req)->Ok_0;
            &&& m.after.leaders[req.actor as int].diplos[req.target as int] == Some(req.state)
            &&& m.after.leaders[req.target as int].diplos[req.actor as int] == Some(req.state)
            &&& m.after.interface_dirty
            &&& m.steps.last() == SetDiploStep::Mutation(SetDiploMutation::MarkInterfaceDirty)
        }),
{
    let old = request_check_spec(before, req)->Ok_0;
    let i1 = if old == Relation::Ally {
        unally_spec(before, req)->Ok_0.0
    } else {
        before
    };
    if old == Relation::Ally {
        let v1 = set_vision_spec(before, req.actor, req.target, false)->Ok_0;
        assert(v1.leaders.len() == 8);
    }
    assert(i1.leaders.len() == 8);
    assert(forall|i: int| 0 <= i < 8 ==> (#[trigger] i1.leaders[i]).diplos.len() == 8);
    let i2 = with_declaration(
        with_declaration(i1, req.actor, req.target, req.state),
        req.target,
        req.actor,
        req.state,
    );
    assert(i2.leaders[req.actor as int].diplos[req.target as int] == Some(req.state));
    assert(i2.leaders[req.target as int].diplos[req.actor as int] == Some(req.state));
    if req.state == Relation::Ally {
        lemma_grant_keeps_declarations(i2, req.actor, req.target);
        let g1 = grant_spec(i2, req.actor, req.target)->Ok_0.0;
        lemma_grant_keeps_declarations(g1, req.target, req.actor);
    }
    let m = plan_set_diplo_spec(before, req)->Ok_0;
    assert(m.steps.last() == SetDiploStep::Mutation(SetDiploMutation::MarkInterfaceDirty));
}

/// A receipt that carries the planner's plan and acknowledges exactly its authority calls
/// validates, and a valid applied receipt is exactly that; an unavailable receipt validates
/// exactly when planning succeeds.
pub proof fn lemma_receipt_validates_exactly_the_plan(r: SetDiploReceipt, expected: SetDiploTransactionRequest)
    requires
        r.request.before@ == expected.before@,
        r.request.change == expected.change,
    ensures
        r.status == SetDiploTransactionStatus::Applied ==> (validates_spec(r, expected) <==> (
        plan_set_diplo_spec(expected.before@, expected.change) is Ok && r.plan is Some
            && plan_matches(
            r.plan->Some_0,
            expected.change,
            plan_set_diplo_spec(expected.before@, expected.change)->Ok_0,
        ) && r.authority@ == authority_of(
            plan_set_diplo_spec(expected.before@, expected.change)->Ok_0.steps,
        ))),
        (r.status == SetDiploTransactionStatus::Unavailable && r.plan is None
            && r.authority@.len() == 0) ==> (validates_spec(r, expected) <==> plan_set_diplo_spec(
            expected.before@,
            expected.change,
        ) is Ok),
{
}

} // verus!
