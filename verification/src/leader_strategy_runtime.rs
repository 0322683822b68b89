//! The step-11 (`Leaders::strategy_all` `0x006ED430`) transaction records: the owned
//! leader fields a dispatcher run may change, their fixed-width snapshot codec, and the
//! Adler-32 receipt over their sparse images at the real `Leader` offsets.
use vstd::prelude::*;

use crate::checksum::{adler32, adler32_spec};
use crate::leaders::{count_true, StrategyCall, StrategyInputs, StrategyTrace};
use crate::leader_production_setup_runtime::le_i32_value;
use crate::map_terrain::{i32_le_bytes, le_i32};

verus! {

pub const QUEUED_UNITS_VA: u32 = 0x006c_e000;
pub const STRATEGY_ALL_VA: u32 = 0x006e_d430;
pub const BUILD_BAND_BASE: usize = 2000;
/// `b"DoNAI11\0"`.
pub const SNAPSHOT_MAGIC: [u8; 8] = [0x44, 0x6f, 0x4e, 0x41, 0x49, 0x31, 0x31, 0x00];
pub const SNAPSHOT_VERSION: u32 = 1;
/// Nine dwords per leader.
pub const SNAPSHOT_VALUES_PER_LEADER: usize = 9;
/// Magic, version, then eight leaders of nine dwords.
pub const SNAPSHOT_BYTES: usize = 300;
/// The sparse owned image reaches `effective_pop` at `0x9e0`.
pub const OWNED_IMAGE_LEN: usize = 0x9e4;

/// One admitted queued Unit row from an active production building.
#[derive(Clone, Copy, Debug, PartialEq, Eq)]
pub struct QueuedUnitEntry {
    pub build_object: i32,
    pub queue_slot: usize,
    pub type_index: i32,
    pub control_cost: i32,
}

/// The input-side receipt of `Leader::queued_units`.
#[derive(Clone, Debug, PartialEq, Eq)]
pub struct QueuedUnitsReceipt {
    pub owner: usize,
    /// Object ids, in the build-band order the registry stores.
    pub builds_visited: Vec<i32>,
    pub active_builds: usize,
    pub logical_entries: usize,
    pub admitted: Vec<QueuedUnitEntry>,
    pub total_control_cost: i32,
}

/// A structural invariant the engine guarantees but a detached or corrupt adapter may break.
#[derive(Clone, Debug, PartialEq, Eq)]
pub enum StrategyRuntimeError {
    OwnerOutsideLeaderTable { owner: usize },
    LeaderWhoOutsideTable { slot: usize, who: i32 },
    MissingBuildRow { owner: usize, row: usize },
    BuildOwnerMismatch { owner: usize, row: usize, actual: u8 },
    QueueLengthExceedsStorage { owner: usize, build_object: i32, queued: usize, stored: usize },
    MissingType { owner: usize, build_object: i32, type_index: i32 },
}

/// The engine-owned step-11 fields needed for a visible before/after and save/resume.
#[derive(Clone, Copy, Debug, Default, PartialEq, Eq)]
pub struct StrategyLeaderState {
    pub leader_flags: i32,
    pub leader_flags2: i32,
    pub who: i32,
    pub production_step: i32,
    pub prod_script_run: i32,
    pub script_step: i32,
    pub control: i32,
    pub explored: i32,
    pub effective_pop: i32,
}

/// A leader's nine dwords in snapshot order.
pub open spec fn state_values(s: StrategyLeaderState) -> Seq<i32> {
    seq![
        s.leader_flags,
        s.leader_flags2,
        s.who,
        s.production_step,
        s.prod_script_run,
        s.script_step,
        s.control,
        s.explored,
        s.effective_pop,
    ]
}

/// The `Leader` byte offset of each of the nine dwords.
pub open spec fn owned_offset(k: int) -> int {
    if k == 0 {
        0x000
    } else if k == 1 {
        0x004
    } else if k == 2 {
        0x008
    } else if k == 3 {
        0x788
    } else if k == 4 {
        0x78c
    } else if k == 5 {
        0x790
    } else if k == 6 {
        0x940
    } else if k == 7 {
        0x9d4
    } else {
        0x9e0
    }
}

/// Byte `j` of the sparse image once dwords `0..k` are written: dword `m` little-endian at
/// `owned_offset(m)`, zero elsewhere. The offsets are disjoint, so the order does not matter.
pub open spec fn owned_byte(s: StrategyLeaderState, j: int, k: int) -> u8
    decreases k,
{
    if k <= 0 {
        0
    } else if owned_offset(k - 1) <= j < owned_offset(k - 1) + 4 {
        le_i32(state_values(s)[k - 1])[j - owned_offset(k - 1)]
    } else {
        owned_byte(s, j, k - 1)
    }
}

/// The sparse owned image: each dword little-endian at its offset, zero elsewhere.
pub open spec fn owned_image_spec(s: StrategyLeaderState) -> Seq<u8> {
    Seq::new(0x9e4, |j: int| owned_byte(s, j, 9))
}

impl StrategyLeaderState {
    fn values(self) -> (r: [i32; 9])
        ensures
            r@ == state_values(self),
    {
        let r = [
            self.leader_flags,
            self.leader_flags2,
            self.who,
            self.production_step,
            self.prod_script_run,
            self.script_step,
            self.control,
            self.explored,
            self.effective_pop,
        ];
        assert(r@ =~= state_values(self));
        r
    }

    fn from_values(v: [i32; 9]) -> (r: Self)
        ensures
            state_values(r) == v@,
    {
        let r = StrategyLeaderState {
            leader_flags: v[0],
            leader_flags2: v[1],
            who: v[2],
            production_step: v[3],
            prod_script_run: v[4],
            script_step: v[5],
            control: v[6],
            explored: v[7],
            effective_pop: v[8],
        };
        assert(state_values(r) =~= v@);
        r
    }

    /// The sparse owned projection at the real offsets, for before/after receipts.
    fn owned_image(self) -> (r: Vec<u8>)
        ensures
            r@ == owned_image_spec(self),
    {
        let mut image: Vec<u8> = Vec::new();
        let mut i: usize = 0;
        while i < 0x9e4
            invariant
                i <= 0x9e4,
                image@.len() == i,
                forall|j: int| 0 <= j < i ==> image@[j] == 0,
            decreases 0x9e4 - i,
        {
            image.push(0);
            i = i + 1;
        }
        let values = self.values();
        let offsets: [usize; 9] = [0x000, 0x004, 0x008, 0x788, 0x78c, 0x790, 0x940, 0x9d4, 0x9e0];
        let mut k: usize = 0;
        while k < 9
            invariant
                k <= 9,
                image@.len() == 0x9e4,
                values@ == state_values(self),
                forall|m: int| 0 <= m < 9 ==> #[trigger] offsets@[m] == owned_offset(m),
                forall|j: int| 0 <= j < 0x9e4 ==> #[trigger] image@[j] == owned_byte(self, j, k as int),
            decreases 9 - k,
        {
            let bytes = i32_le_bytes(values[k]);
            let off = offsets[k];
            image[off] = bytes[0];
            image[off + 1] = bytes[1];
            image[off + 2] = bytes[2];
            image[off + 3] = bytes[3];
            k = k + 1;
        }
        assert(image@ =~= owned_image_spec(self));
        image
    }
}

#[derive(Clone, Debug, PartialEq, Eq)]
pub struct StrategySnapshot {
    pub leaders: [StrategyLeaderState; 8],
}

#[derive(Clone, Copy, Debug, PartialEq, Eq)]
pub enum StrategySnapshotError {
    Length { expected: usize, actual: usize },
    Magic,
    Version(u32),
}

/// The snapshot's 72 dwords: the leaders in slot order, each in [`state_values`] order.
pub open spec fn snapshot_values(s: StrategySnapshot) -> Seq<i32> {
    Seq::new(72, |k: int| state_values(s.leaders@[k / 9])[k % 9])
}

/// The little-endian bytes of a run of dwords.
pub open spec fn dwords_bytes(v: Seq<i32>) -> Seq<u8>
    decreases v.len(),
{
    if v.len() == 0 {
        Seq::empty()
    } else {
        dwords_bytes(v.drop_last()) + le_i32(v.last())
    }
}

/// The encoded snapshot: magic, version 1 little-endian, then every dword.
pub open spec fn snapshot_bytes(s: StrategySnapshot) -> Seq<u8> {
    SNAPSHOT_MAGIC@ + le_i32(1) + dwords_bytes(snapshot_values(s))
}

/// The Adler-32 of the owned images of leaders `0..k`, in slot order, from seed 1.
pub open spec fn owned_adler_fold(s: StrategySnapshot, k: int) -> u32
    decreases k,
{
    if k <= 0 {
        1
    } else {
        adler32_spec(owned_adler_fold(s, k - 1), owned_image_spec(s.leaders@[k - 1]))
    }
}

/// How `decode` answers a byte string: the length first, then the magic, then the version;
/// otherwise the dword `k` of the snapshot is bytes `12 + 4k ..` little-endian.
pub open spec fn decode_ok(bytes: Seq<u8>, s: StrategySnapshot) -> bool {
    forall|k: int|
        0 <= k < 72 ==> #[trigger] snapshot_values(s)[k] == le_i32_value(
            bytes[12 + 4 * k],
            bytes[13 + 4 * k],
            bytes[14 + 4 * k],
            bytes[15 + 4 * k],
        )
}

/// The version word of an encoded snapshot.
pub open spec fn version_of(bytes: Seq<u8>) -> u32 {
    le_i32_value(bytes[8], bytes[9], bytes[10], bytes[11]) as u32
}

/// Each dword's bytes sit at `4k` of the run.
proof fn lemma_dwords_bytes(v: Seq<i32>)
    ensures
        dwords_bytes(v).len() == 4 * v.len(),
        forall|k: int, j: int|
            0 <= k < v.len() && 0 <= j < 4 ==> #[trigger] dwords_bytes(v)[4 * k + j] == le_i32(v[k])[j],
    decreases v.len(),
{
    if v.len() > 0 {
        lemma_dwords_bytes(v.drop_last());
        assert forall|k: int, j: int| 0 <= k < v.len() && 0 <= j < 4 implies #[trigger] dwords_bytes(
            v,
        )[4 * k + j] == le_i32(v[k])[j] by {
            if k < v.len() - 1 {
                assert(v.drop_last()[k] == v[k]);
            }
        }
    }
}

impl StrategySnapshot {
    /// Adler-32 over each sparse owned image in slot order: an owned-field receipt, not the
    /// complete leader checksum channel.
    pub fn owned_adler32(&self) -> (r: u32)
        ensures
            r == owned_adler_fold(*self, 8),
    {
        let mut sum: u32 = 1;
        let mut i: usize = 0;
        while i < 8
            invariant
                i <= 8,
                sum == owned_adler_fold(*self, i as int),
            decreases 8 - i,
        {
            let image = self.leaders[i].owned_image();
            sum = adler32(sum, image.as_slice());
            i = i + 1;
        }
        sum
    }

    /// The fixed-width encoding: magic, version, then the 72 dwords little-endian.
    pub fn encode(&self) -> (r: Vec<u8>)
        ensures
            r@ == snapshot_bytes(*self),
            r@.len() == SNAPSHOT_BYTES,
    {
        let mut out: Vec<u8> = Vec::new();
        let mut i: usize = 0;
        while i < 8
            invariant
                i <= 8,
                out@ == SNAPSHOT_MAGIC@.subrange(0, i as int),
            decreases 8 - i,
        {
            out.push(SNAPSHOT_MAGIC[i]);
            assert(out@ =~= SNAPSHOT_MAGIC@.subrange(0, i + 1));
            i = i + 1;
        }
        let version = i32_le_bytes(1);
        out.push(version[0]);
        out.push(version[1]);
        out.push(version[2]);
        out.push(version[3]);
        let ghost head = out@;
        assert(head =~= SNAPSHOT_MAGIC@ + le_i32(1));
        let mut n: usize = 0;
        while n < 72
            invariant
                n <= 72,
                out@ == head + dwords_bytes(snapshot_values(*self).take(n as int)),
            decreases 72 - n,
        {
            let value = self.leaders[n / 9].values()[n % 9];
            let bytes = i32_le_bytes(value);
            out.push(bytes[0]);
            out.push(bytes[1]);
            out.push(bytes[2]);
            out.push(bytes[3]);
            proof {
                let t = snapshot_values(*self).take(n + 1);
                assert(t.drop_last() =~= snapshot_values(*self).take(n as int));
                assert(t.last() == value);
                assert(out@ =~= head + dwords_bytes(t));
            }
            n = n + 1;
        }
        proof {
            assert(snapshot_values(*self).take(72) =~= snapshot_values(*self));
            lemma_dwords_bytes(snapshot_values(*self));
        }
        out
    }

    /// Decode a snapshot: a wrong length, magic or version is refused, in that order.
    pub fn decode(bytes: &[u8]) -> (r: Result<Self, StrategySnapshotError>)
        ensures
            bytes@.len() != SNAPSHOT_BYTES ==> r == Err::<Self, StrategySnapshotError>(
                StrategySnapshotError::Length { expected: SNAPSHOT_BYTES, actual: bytes@.len() as usize },
            ),
            bytes@.len() == SNAPSHOT_BYTES && bytes@.subrange(0, 8) != SNAPSHOT_MAGIC@ ==> r == Err::<
                Self,
                StrategySnapshotError,
            >(StrategySnapshotError::Magic),
            bytes@.len() == SNAPSHOT_BYTES && bytes@.subrange(0, 8) == SNAPSHOT_MAGIC@ && version_of(
                bytes@,
            ) != SNAPSHOT_VERSION ==> r == Err::<Self, StrategySnapshotError>(
                StrategySnapshotError::Version(version_of(bytes@)),
            ),
            bytes@.len() == SNAPSHOT_BYTES && bytes@.subrange(0, 8) == SNAPSHOT_MAGIC@ && version_of(
                bytes@,
            ) == SNAPSHOT_VERSION ==> r is Ok && decode_ok(bytes@, r->Ok_0),
    {
        if bytes.len() != 300 {
            return Err(StrategySnapshotError::Length { expected: 300, actual: bytes.len() });
        }
        let mut i: usize = 0;
        while i < 8
            invariant
                i <= 8,
                bytes@.len() == 300,
                forall|j: int| 0 <= j < i ==> bytes@[j] == SNAPSHOT_MAGIC@[j],
            decreases 8 - i,
        {
            if bytes[i] != SNAPSHOT_MAGIC[i] {
                assert(bytes@.subrange(0, 8)[i as int] != SNAPSHOT_MAGIC@[i as int]);
                return Err(StrategySnapshotError::Magic);
            }
            i = i + 1;
        }
        assert(bytes@.subrange(0, 8) =~= SNAPSHOT_MAGIC@);
        let version = (((bytes[8] as u32) | ((bytes[9] as u32) << 8u32) | ((bytes[10] as u32)
            << 16u32) | ((bytes[11] as u32) << 24u32)) as i32) as u32;
        if version != SNAPSHOT_VERSION {
            return Err(StrategySnapshotError::Version(version));
        }
        let z = StrategyLeaderState::from_values([0, 0, 0, 0, 0, 0, 0, 0, 0]);
        let mut leaders = [z, z, z, z, z, z, z, z];
        let mut slot: usize = 0;
        while slot < 8
            invariant
                slot <= 8,
                bytes@.len() == 300,
                forall|k: int|
                    0 <= k < 9 * slot ==> #[trigger] state_values(leaders@[k / 9])[k % 9]
                        == le_i32_value(
                        bytes@[12 + 4 * k],
                        bytes@[13 + 4 * k],
                        bytes@[14 + 4 * k],
                        bytes@[15 + 4 * k],
                    ),
            decreases 8 - slot,
        {
            let mut values = [0i32; 9];
            let mut j: usize = 0;
            while j < 9
                invariant
                    j <= 9,
                    slot < 8,
                    bytes@.len() == 300,
                    forall|m: int|
                        0 <= m < j ==> #[trigger] values@[m] == le_i32_value(
                            bytes@[12 + 4 * (9 * slot + m)],
                            bytes@[13 + 4 * (9 * slot + m)],
                            bytes@[14 + 4 * (9 * slot + m)],
                            bytes@[15 + 4 * (9 * slot + m)],
                        ),
                decreases 9 - j,
            {
                let c = 12 + 4 * (9 * slot + j);
                values[j] = ((bytes[c] as u32) | ((bytes[c + 1] as u32) << 8u32) | ((bytes[c + 2]
                    as u32) << 16u32) | ((bytes[c + 3] as u32) << 24u32)) as i32;
                j = j + 1;
            }
            let ghost before = leaders@;
            leaders[slot] = StrategyLeaderState::from_values(values);
            assert forall|k: int|
                0 <= k < 9 * (slot + 1) implies #[trigger] state_values(leaders@[k / 9])[k % 9]
                == le_i32_value(
                bytes@[12 + 4 * k],
                bytes@[13 + 4 * k],
                bytes@[14 + 4 * k],
                bytes@[15 + 4 * k],
            ) by {
                if k >= 9 * slot {
                    assert(k / 9 == slot);
                    assert(k == 9 * slot + k % 9);
                    assert(values@[k % 9] == state_values(leaders@[k / 9])[k % 9]);
                } else {
                    assert(k / 9 < slot);
                    assert(leaders@[k / 9] == before[k / 9]);
                }
            }
            slot = slot + 1;
        }
        let s = StrategySnapshot { leaders };
        Ok(s)
    }
}

/// Decoding an encoded snapshot gives it back.
pub proof fn lemma_snapshot_round_trip(s: StrategySnapshot, t: StrategySnapshot)
    requires
        decode_ok(snapshot_bytes(s), t),
    ensures
        t == s,
{
    let b = snapshot_bytes(s);
    let v = snapshot_values(s);
    lemma_dwords_bytes(v);
    let head = SNAPSHOT_MAGIC@ + le_i32(1);
    assert(head.len() == 12);
    assert forall|k: int| 0 <= k < 72 implies #[trigger] snapshot_values(t)[k] == v[k] by {
        assert(b[12 + 4 * k] == dwords_bytes(v)[4 * k + 0]);
        assert(b[13 + 4 * k] == dwords_bytes(v)[4 * k + 1]);
        assert(b[14 + 4 * k] == dwords_bytes(v)[4 * k + 2]);
        assert(b[15 + 4 * k] == dwords_bytes(v)[4 * k + 3]);
        crate::leader_production_setup_runtime::lemma_le_i32_round_trip(v[k]);
    }
    assert forall|i: int| 0 <= i < 8 implies #[trigger] t.leaders@[i] == s.leaders@[i] by {
        assert forall|m: int| 0 <= m < 9 implies state_values(t.leaders@[i])[m] == state_values(
            s.leaders@[i],
        )[m] by {
            let k = 9 * i + m;
            assert(k / 9 == i && k % 9 == m);
            assert(snapshot_values(t)[k] == v[k]);
        }
        assert(state_values(t.leaders@[i]) =~= state_values(s.leaders@[i]));
    }
    assert(t.leaders =~= s.leaders);
}

/// Environment fields that live outside the step-8 adapter.
#[derive(Clone, Copy, Debug)]
pub struct StrategyCanonicalInputs<'a> {
    pub dispatcher: StrategyInputs<'a>,
    pub ai_off: bool,
    pub starting_resources: u8,
}

/// The before/after record of one complete dispatcher invocation.
#[derive(Clone, Debug, PartialEq, Eq)]
pub struct StrategyTransactionReceipt {
    pub dispatcher_va: u32,
    pub before: StrategySnapshot,
    pub after: StrategySnapshot,
    pub before_adler32: u32,
    pub after_adler32: u32,
    pub queued_units: [Option<QueuedUnitsReceipt>; 8],
    pub trace: StrategyTrace,
}

/// A count of every child reached by the dispatcher.
#[derive(Clone, Copy, Debug, Default, PartialEq, Eq)]
pub struct StrategyStageMap {
    pub check_explore: usize,
    pub plan_strategy: usize,
    pub compute_score: usize,
    pub diplomacy: usize,
    pub check_victory: bool,
}

/// How many of the calls are `plan_strategy` calls.
pub open spec fn plan_calls(calls: Seq<StrategyCall>) -> nat
    decreases calls.len(),
{
    if calls.len() == 0 {
        0
    } else {
        plan_calls(calls.drop_last()) + if calls.last() is PlanStrategy {
            1nat
        } else {
            0nat
        }
    }
}

/// How many of the calls are `diplomacy` calls.
pub open spec fn diplomacy_calls(calls: Seq<StrategyCall>) -> nat
    decreases calls.len(),
{
    if calls.len() == 0 {
        0
    } else {
        diplomacy_calls(calls.drop_last()) + if calls.last() is Diplomacy {
            1nat
        } else {
            0nat
        }
    }
}

/// The count of every child the dispatcher reached: `check_explore` and `compute_score`
/// once per processed leader (an explore call that was not due included), `plan_strategy`
/// and `diplomacy` as often as the trace calls them, and whether the victory check ran.
pub fn call_stage_map(trace: &StrategyTrace) -> (r: StrategyStageMap)
    ensures
        r.check_explore == count_true(trace.processed@),
        r.compute_score == count_true(trace.processed@),
        r.plan_strategy == plan_calls(trace.calls@),
        r.diplomacy == diplomacy_calls(trace.calls@),
        r.check_victory == exists|i: int| 0 <= i < trace.calls@.len() && #[trigger] trace.calls@[i] is CheckVictory,
{
    let reached = trace.leaders_processed();
    let mut plan: usize = 0;
    let mut diplomacy: usize = 0;
    let mut victory = false;
    let mut i: usize = 0;
    while i < trace.calls.len()
        invariant
            i <= trace.calls@.len(),
            plan == plan_calls(trace.calls@.subrange(0, i as int)),
            diplomacy == diplomacy_calls(trace.calls@.subrange(0, i as int)),
            plan <= i,
            diplomacy <= i,
            victory == exists|k: int| 0 <= k < i && #[trigger] trace.calls@[k] is CheckVictory,
        decreases trace.calls@.len() - i,
    {
        assert(trace.calls@.subrange(0, i + 1).drop_last() =~= trace.calls@.subrange(0, i as int));
        match trace.calls[i] {
            StrategyCall::PlanStrategy(_) => {
                plan = plan + 1;
            },
            StrategyCall::Diplomacy(_) => {
                diplomacy = diplomacy + 1;
            },
            StrategyCall::CheckVictory => {
                victory = true;
            },
            _ => {},
        }
        i = i + 1;
    }
    assert(trace.calls@.subrange(0, trace.calls@.len() as int) =~= trace.calls@);
    StrategyStageMap {
        check_explore: reached,
        plan_strategy: plan,
        compute_score: reached,
        diplomacy,
        check_victory: victory,
    }
}

// ---------------------------------------------------------------------------------------
// Leader::queued_units
// ---------------------------------------------------------------------------------------

/// What `Leader::queued_units` reads of one production building: its owner, whether it is
/// valid and active, its logical queue length and the type index of each stored entry.
#[derive(Clone, Debug, PartialEq, Eq)]
pub struct QueuedBuild {
    pub who: u8,
    pub valid: bool,
    pub active: bool,
    pub queued: usize,
    pub entries: Vec<i32>,
}

/// What `Leader::queued_units` reads of one installed production type for the owner:
/// whether it is a Unit type, whether it can be made, whether the owner holds its
/// prerequisites, and its control cost (`UnitTypeData +0x2F0`).
#[derive(Clone, Copy, Debug, PartialEq, Eq)]
pub struct QueuedTypeFacts {
    pub is_unit: bool,
    pub can_make: bool,
    pub prerequisites_held: bool,
    pub control_cost: i32,
}

/// The installed type of index `t`, `None` outside the table or for an empty slot.
pub open spec fn type_facts_at(types: Seq<Option<QueuedTypeFacts>>, t: i32) -> Option<QueuedTypeFacts> {
    if 0 <= t < types.len() {
        types[t as int]
    } else {
        None
    }
}

/// The object id of the building at band position `index`.
pub open spec fn build_object_of(index: int) -> i32 {
    (BUILD_BAND_BASE.wrapping_add(index as usize)) as i32
}

/// The admitted entries and control total after the first `n` logical queue entries of
/// one building, from `(admitted, total)`: an entry of a missing type is refused; an entry
/// of a makeable Unit type whose prerequisites are held adds its control cost (wrapping).
pub open spec fn entries_fold(
    admitted: Seq<QueuedUnitEntry>,
    total: i32,
    entries: Seq<i32>,
    types: Seq<Option<QueuedTypeFacts>>,
    owner: usize,
    build_object: i32,
    n: nat,
) -> Result<(Seq<QueuedUnitEntry>, i32), StrategyRuntimeError>
    decreases n,
{
    if n == 0 {
        Ok((admitted, total))
    } else {
        match entries_fold(admitted, total, entries, types, owner, build_object, (n - 1) as nat) {
            Err(e) => Err(e),
            Ok((a, t)) => {
                let ti = entries[n - 1];
                match type_facts_at(types, ti) {
                    None => Err(StrategyRuntimeError::MissingType { owner, build_object, type_index: ti }),
                    Some(f) => if !f.is_unit || !f.can_make || !f.prerequisites_held {
                        Ok((a, t))
                    } else {
                        Ok(
                            (
                                a.push(
                                    QueuedUnitEntry {
                                        build_object,
                                        queue_slot: (n - 1) as usize,
                                        type_index: ti,
                                        control_cost: f.control_cost,
                                    },
                                ),
                                t.wrapping_add(f.control_cost),
                            ),
                        )
                    },
                }
            },
        }
    }
}

/// The receipt fields after the first `n` buildings of the owner's build band: the
/// buildings visited, the active ones, the logical entries (wrapping), the admitted entries
/// and their control total. A band row without a building, a building of another owner, a
/// logical queue longer than its storage and a missing type are refused, in that order.
pub open spec fn band_fold(
    band: Seq<usize>,
    builds: Seq<QueuedBuild>,
    types: Seq<Option<QueuedTypeFacts>>,
    owner: usize,
    n: nat,
) -> Result<(Seq<i32>, nat, usize, Seq<QueuedUnitEntry>, i32), StrategyRuntimeError>
    decreases n,
{
    if n == 0 {
        Ok((Seq::empty(), 0, 0, Seq::empty(), 0))
    } else {
        match band_fold(band, builds, types, owner, (n - 1) as nat) {
            Err(e) => Err(e),
            Ok((vis, act, log, adm, tot)) => {
                let row = band[n - 1];
                if row >= builds.len() {
                    Err(StrategyRuntimeError::MissingBuildRow { owner, row })
                } else {
                    let b = builds[row as int];
                    if b.who as usize != owner {
                        Err(StrategyRuntimeError::BuildOwnerMismatch { owner, row, actual: b.who })
                    } else {
                        let obj = build_object_of(n - 1);
                        let vis2 = vis.push(obj);
                        if !b.valid || !b.active {
                            Ok((vis2, act, log, adm, tot))
                        } else if b.queued > b.entries@.len() {
                            Err(
                                StrategyRuntimeError::QueueLengthExceedsStorage {
                                    owner,
                                    build_object: obj,
                                    queued: b.queued,
                                    stored: b.entries@.len() as usize,
                                },
                            )
                        } else {
                            match entries_fold(adm, tot, b.entries@, types, owner, obj, b.queued as nat) {
                                Err(e) => Err(e),
                                Ok((adm2, tot2)) => Ok((vis2, act + 1, log.wrapping_add(b.queued), adm2, tot2)),
                            }
                        }
                    }
                }
            },
        }
    }
}

proof fn lemma_entries_error_stays(
    admitted: Seq<QueuedUnitEntry>,
    total: i32,
    entries: Seq<i32>,
    types: Seq<Option<QueuedTypeFacts>>,
    owner: usize,
    build_object: i32,
    n: nat,
    m: nat,
)
    requires
        n <= m,
        entries_fold(admitted, total, entries, types, owner, build_object, n) is Err,
    ensures
        entries_fold(admitted, total, entries, types, owner, build_object, m) == entries_fold(
            admitted,
            total,
            entries,
            types,
            owner,
            build_object,
            n,
        ),
    decreases m - n,
{
    if n < m {
        lemma_entries_error_stays(admitted, total, entries, types, owner, build_object, n, (m - 1) as nat);
    }
}

proof fn lemma_band_error_stays(
    band: Seq<usize>,
    builds: Seq<QueuedBuild>,
    types: Seq<Option<QueuedTypeFacts>>,
    owner: usize,
    n: nat,
    m: nat,
)
    requires
        n <= m,
        band_fold(band, builds, types, owner, n) is Err,
    ensures
        band_fold(band, builds, types, owner, m) == band_fold(band, builds, types, owner, n),
    decreases m - n,
{
    if n < m {
        lemma_band_error_stays(band, builds, types, owner, n, (m - 1) as nat);
    }
}

proof fn lemma_band_fold_counts(
    band: Seq<usize>,
    builds: Seq<QueuedBuild>,
    types: Seq<Option<QueuedTypeFacts>>,
    owner: usize,
    n: nat,
)
    requires
        band_fold(band, builds, types, owner, n) is Ok,
    ensures
        band_fold(band, builds, types, owner, n)->Ok_0.0.len() == n,
        band_fold(band, builds, types, owner, n)->Ok_0.1 <= n,
    decreases n,
{
    if n > 0 {
        if band_fold(band, builds, types, owner, (n - 1) as nat) is Ok {
            lemma_band_fold_counts(band, builds, types, owner, (n - 1) as nat);
        }
    }
}

/// The logical queue entries of one active building, as [`entries_fold`] says from
/// `admitted` and `total`.
fn queued_entries(
    b: &QueuedBuild,
    types: &[Option<QueuedTypeFacts>],
    owner: usize,
    build_object: i32,
    admitted: &mut Vec<QueuedUnitEntry>,
    total: &mut i32,
) -> (r: Result<(), StrategyRuntimeError>)
    requires
        b.queued <= b.entries@.len(),
    ensures
        match entries_fold(old(admitted)@, *old(total), b.entries@, types@, owner, build_object, b.queued as nat) {
            Ok((a, t)) => r is Ok && final(admitted)@ == a && *final(total) == t,
            Err(e) => r == Err::<(), StrategyRuntimeError>(e),
        },
{
    let ghost a0 = admitted@;
    let ghost t0 = *total;
    let mut slot: usize = 0;
    while slot < b.queued
        invariant
            slot <= b.queued,
            b.queued <= b.entries@.len(),
            entries_fold(a0, t0, b.entries@, types@, owner, build_object, slot as nat) == Ok::<
                (Seq<QueuedUnitEntry>, i32),
                StrategyRuntimeError,
            >((admitted@, *total)),
            a0 == old(admitted)@,
            t0 == *old(total),
        decreases b.queued - slot,
    {
        let type_index = b.entries[slot];
        let facts = if 0 <= type_index && (type_index as usize) < types.len() {
            types[type_index as usize]
        } else {
            None
        };
        match facts {
            None => {
                proof {
                    lemma_entries_error_stays(a0, t0, b.entries@, types@, owner, build_object, (slot + 1) as nat, b.queued as nat);
                }
                return Err(StrategyRuntimeError::MissingType { owner, build_object, type_index });
            },
            Some(f) => {
                if f.is_unit && f.can_make && f.prerequisites_held {
                    *total = total.wrapping_add(f.control_cost);
                    admitted.push(
                        QueuedUnitEntry { build_object, queue_slot: slot, type_index, control_cost: f.control_cost },
                    );
                }
            },
        }
        slot = slot + 1;
    }
    Ok(())
}

/// `Leader::queued_units` `0x006CE000` (394 bytes) over the owner's build band: from object
/// index 2000, each valid and active building's logical queue is read, and every entry of
/// a makeable Unit type whose prerequisites the owner holds adds that type's control cost.
/// An owner outside the eight slots and the structural failures of [`band_fold`] are
/// refused, the first one met.
pub fn queued_units(
    build_band: &[usize],
    builds: &[QueuedBuild],
    types: &[Option<QueuedTypeFacts>],
    owner: usize,
) -> (r: Result<QueuedUnitsReceipt, StrategyRuntimeError>)
    ensures
        owner >= 8 ==> r == Err::<QueuedUnitsReceipt, StrategyRuntimeError>(
            StrategyRuntimeError::OwnerOutsideLeaderTable { owner },
        ),
        owner < 8 ==> match band_fold(build_band@, builds@, types@, owner, build_band@.len()) {
            Ok((vis, act, log, adm, tot)) => r matches Ok(receipt) && receipt.owner == owner
                && receipt.builds_visited@ == vis && receipt.active_builds == act && receipt.logical_entries == log
                && receipt.admitted@ == adm && receipt.total_control_cost == tot,
            Err(e) => r == Err::<QueuedUnitsReceipt, StrategyRuntimeError>(e),
        },
{
    if owner >= 8 {
        return Err(StrategyRuntimeError::OwnerOutsideLeaderTable { owner });
    }
    let mut receipt = QueuedUnitsReceipt {
        owner,
        builds_visited: Vec::new(),
        active_builds: 0,
        logical_entries: 0,
        admitted: Vec::new(),
        total_control_cost: 0,
    };
    let mut index: usize = 0;
    while index < build_band.len()
        invariant
            index <= build_band@.len(),
            owner < 8,
            receipt.owner == owner,
            band_fold(build_band@, builds@, types@, owner, index as nat) == Ok::<
                (Seq<i32>, nat, usize, Seq<QueuedUnitEntry>, i32),
                StrategyRuntimeError,
            >(
                (
                    receipt.builds_visited@,
                    receipt.active_builds as nat,
                    receipt.logical_entries,
                    receipt.admitted@,
                    receipt.total_control_cost,
                ),
            ),
        decreases build_band@.len() - index,
    {
        proof {
            lemma_band_fold_counts(build_band@, builds@, types@, owner, index as nat);
        }
        let row = build_band[index];
        if row >= builds.len() {
            proof {
                lemma_band_error_stays(build_band@, builds@, types@, owner, (index + 1) as nat, build_band@.len());
            }
            return Err(StrategyRuntimeError::MissingBuildRow { owner, row });
        }
        let b = &builds[row];
        if b.who as usize != owner {
            proof {
                lemma_band_error_stays(build_band@, builds@, types@, owner, (index + 1) as nat, build_band@.len());
            }
            return Err(StrategyRuntimeError::BuildOwnerMismatch { owner, row, actual: b.who });
        }
        let build_object = BUILD_BAND_BASE.wrapping_add(index) as i32;
        receipt.builds_visited.push(build_object);
        if b.valid && b.active {
            if b.queued > b.entries.len() {
                proof {
                    lemma_band_error_stays(build_band@, builds@, types@, owner, (index + 1) as nat, build_band@.len());
                }
                return Err(
                    StrategyRuntimeError::QueueLengthExceedsStorage {
                        owner,
                        build_object,
                        queued: b.queued,
                        stored: b.entries.len(),
                    },
                );
            }
            receipt.active_builds = receipt.active_builds + 1;
            receipt.logical_entries = receipt.logical_entries.wrapping_add(b.queued);
            match queued_entries(b, types, owner, build_object, &mut receipt.admitted, &mut receipt.total_control_cost) {
                Ok(()) => {},
                Err(e) => {
                    proof {
                        lemma_band_error_stays(build_band@, builds@, types@, owner, (index + 1) as nat, build_band@.len());
                    }
                    return Err(e);
                },
            }
        }
        index = index + 1;
    }
    Ok(receipt)
}


/// The wrapping sum of the control costs of `entries`.
pub open spec fn control_sum(entries: Seq<QueuedUnitEntry>) -> i32
    decreases entries.len(),
{
    if entries.len() == 0 {
        0
    } else {
        control_sum(entries.drop_last()).wrapping_add(entries.last().control_cost)
    }
}

/// An admitted entry names an installed, makeable Unit type whose prerequisites the owner
/// holds, and carries that type's control cost.
pub open spec fn admissible(types: Seq<Option<QueuedTypeFacts>>, e: QueuedUnitEntry) -> bool {
    match type_facts_at(types, e.type_index) {
        Some(f) => f.is_unit && f.can_make && f.prerequisites_held && f.control_cost == e.control_cost,
        None => false,
    }
}

proof fn lemma_entries_fold_sound(
    admitted: Seq<QueuedUnitEntry>,
    total: i32,
    entries: Seq<i32>,
    types: Seq<Option<QueuedTypeFacts>>,
    owner: usize,
    build_object: i32,
    n: nat,
)
    requires
        total == control_sum(admitted),
        forall|k: int| 0 <= k < admitted.len() ==> admissible(types, #[trigger] admitted[k]),
        entries_fold(admitted, total, entries, types, owner, build_object, n) is Ok,
    ensures
        ({
            let (a2, t2) = entries_fold(admitted, total, entries, types, owner, build_object, n)->Ok_0;
            &&& t2 == control_sum(a2)
            &&& forall|k: int| 0 <= k < a2.len() ==> admissible(types, #[trigger] a2[k])
        }),
    decreases n,
{
    if n > 0 {
        lemma_entries_fold_sound(admitted, total, entries, types, owner, build_object, (n - 1) as nat);
        let (a, t) = entries_fold(admitted, total, entries, types, owner, build_object, (n - 1) as nat)->Ok_0;
        let ti = entries[n - 1];
        let f = type_facts_at(types, ti)->Some_0;
        if f.is_unit && f.can_make && f.prerequisites_held {
            let e = QueuedUnitEntry { build_object, queue_slot: (n - 1) as usize, type_index: ti, control_cost: f.control_cost };
            assert(a.push(e).drop_last() =~= a);
            assert forall|k: int| 0 <= k < a.push(e).len() implies admissible(types, #[trigger] a.push(e)[k]) by {
                if k < a.len() {
                    assert(a.push(e)[k] == a[k]);
                }
            }
        }
    }
}

proof fn lemma_band_fold_sound(
    band: Seq<usize>,
    builds: Seq<QueuedBuild>,
    types: Seq<Option<QueuedTypeFacts>>,
    owner: usize,
    n: nat,
)
    requires
        band_fold(band, builds, types, owner, n) is Ok,
    ensures
        ({
            let (vis, act, log, adm, tot) = band_fold(band, builds, types, owner, n)->Ok_0;
            &&& vis.len() == n
            &&& forall|k: int| 0 <= k < n ==> #[trigger] vis[k] == build_object_of(k)
            &&& act <= n
            &&& tot == control_sum(adm)
            &&& forall|k: int| 0 <= k < adm.len() ==> admissible(types, #[trigger] adm[k])
        }),
    decreases n,
{
    if n > 0 {
        lemma_band_fold_sound(band, builds, types, owner, (n - 1) as nat);
        let (vis, act, log, adm, tot) = band_fold(band, builds, types, owner, (n - 1) as nat)->Ok_0;
        let row = band[n - 1];
        let b = builds[row as int];
        let obj = build_object_of(n - 1);
        assert forall|k: int| 0 <= k < n implies #[trigger] vis.push(obj)[k] == build_object_of(k) by {
            if k < n - 1 {
                assert(vis.push(obj)[k] == vis[k]);
            }
        }
        if b.valid && b.active && b.queued <= b.entries@.len() {
            lemma_entries_fold_sound(adm, tot, b.entries@, types, owner, obj, b.queued as nat);
        }
    }
}

/// Law of `Leader::queued_units`: on success the build band is visited in order, one object
/// id `2000 + index` per band row; no more buildings are active than were visited; the
/// control total is the wrapping sum of the admitted entries' control costs; and every
/// admitted entry is of an installed, makeable Unit type whose prerequisites the owner holds.
pub proof fn lemma_queued_units_receipt(
    band: Seq<usize>,
    builds: Seq<QueuedBuild>,
    types: Seq<Option<QueuedTypeFacts>>,
    owner: usize,
)
    requires
        band_fold(band, builds, types, owner, band.len()) is Ok,
    ensures
        ({
            let (vis, act, log, adm, tot) = band_fold(band, builds, types, owner, band.len())->Ok_0;
            &&& vis.len() == band.len()
            &&& forall|k: int| 0 <= k < band.len() ==> #[trigger] vis[k] == build_object_of(k)
            &&& act <= vis.len()
            &&& tot == control_sum(adm)
            &&& forall|k: int| 0 <= k < adm.len() ==> admissible(types, #[trigger] adm[k])
        }),
{
    lemma_band_fold_sound(band, builds, types, owner, band.len());
}

} // verus!
