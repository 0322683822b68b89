//! Atomic dual-mirror owner for the Citizen `Unit::think` leader request bit.
//!
//! Type 50/51 units clear their instance masks and then OR `0x0008_0000` into
//! `LeaderData::leader_flags` at `0x005F6FA3`. The engine mirrors that one dword in the
//! step-8 and victory-score owners, and the leaders checksum refuses when they disagree.
//! This module therefore prepares and commits both stores as one stale-checked
//! transaction. The later `leader_flags2 & 2` AI gate does not suppress this earlier OR.
use vstd::prelude::*;

verus! {

pub const UNIT_THINK_VA: u32 = 0x005f_6e40;
pub const UNIT_THINK_CITIZEN_TYPE_GATE_VA: u32 = 0x005f_6f83;
pub const UNIT_THINK_CITIZEN_MASK_CLEAR_VA: u32 = 0x005f_6f91;
pub const UNIT_THINK_LEADER_PENDING_OR_VA: u32 = 0x005f_6fa3;
pub const UNIT_THINK_FLAGS2_GATE_VA: u32 = 0x005f_6fde;
/// `LeaderData::leader_flags` bit the citizen's think requests.
pub const UNIT_THINK_PENDING_FLAG: u32 = 0x0008_0000;
/// The victory-score leader flags an owner must carry: valid and active.
pub const OWNER_REQUIRED_FLAGS: u32 = 0x0000_0003;
/// The victory-score `leader_flags2` bit that turns the unit AI off.
pub const UNIT_AI_OFF_FLAG2: u32 = 0x0000_0002;

#[derive(Clone, Copy, Debug, PartialEq, Eq)]
pub struct UnitThinkLeaderPendingSource {
    pub revision: u64,
    pub composition_digest: [u8; 32],
    pub owner: usize,
    pub unit_o: i32,
    pub unit_type: i32,
}

#[derive(Clone, Copy, Debug, PartialEq, Eq)]
pub struct PreparedUnitThinkLeaderPending {
    pub source: UnitThinkLeaderPendingSource,
    pub victory_flags_before: i32,
    pub step8_flags_before: u32,
    pub victory_flags2_before: i32,
    pub step8_flags2_before: u32,
    pub flags_after: u32,
}

#[derive(Clone, Copy, Debug, PartialEq, Eq)]
pub struct UnitThinkLeaderPendingReceipt {
    pub source: UnitThinkLeaderPendingSource,
    pub flags_before: u32,
    pub flags_after: u32,
    pub leader_flags2: u32,
    pub unit_ai_disabled: bool,
    pub changed: bool,
    pub retail_store_va: u32,
}

#[derive(Clone, Copy, Debug, PartialEq, Eq)]
pub enum UnitThinkLeaderPendingError {
    MissingRevision,
    MissingCompositionDigest,
    OwnerOutOfRange { owner: usize },
    UnsupportedActor { unit_o: i32, unit_type: i32 },
    MirrorDisagreement { victory_flags: i32, step8_flags: u32 },
    Flags2MirrorDisagreement { victory_flags2: i32, step8_flags2: u32 },
    InactiveOwner { flags: u32 },
    SourceMismatch { prepared: UnitThinkLeaderPendingSource, current: UnitThinkLeaderPendingSource },
    StaleBeforeImage {
        expected_victory_flags: i32,
        actual_victory_flags: i32,
        expected_step8_flags: u32,
        actual_step8_flags: u32,
        expected_victory_flags2: i32,
        actual_victory_flags2: i32,
        expected_step8_flags2: u32,
        actual_step8_flags2: u32,
    },
}

/// A digest of all zero bytes names no composition.
pub open spec fn digest_missing(d: [u8; 32]) -> bool {
    forall|i: int| 0 <= i < 32 ==> d@[i] == 0
}

/// Why a source is refused for a table of `leader_slots` leaders, checked in order: no
/// revision, no composition digest, an owner outside the table, or an actor that is not a
/// live citizen (`unit_o >= 0`, type 50 or 51).
pub open spec fn source_error(
    source: UnitThinkLeaderPendingSource,
    leader_slots: usize,
) -> Option<UnitThinkLeaderPendingError> {
    if source.revision == 0 {
        Some(UnitThinkLeaderPendingError::MissingRevision)
    } else if digest_missing(source.composition_digest) {
        Some(UnitThinkLeaderPendingError::MissingCompositionDigest)
    } else if source.owner >= leader_slots {
        Some(UnitThinkLeaderPendingError::OwnerOutOfRange { owner: source.owner })
    } else if source.unit_o < 0 || !(source.unit_type == 50 || source.unit_type == 51) {
        Some(
            UnitThinkLeaderPendingError::UnsupportedActor {
                unit_o: source.unit_o,
                unit_type: source.unit_type,
            },
        )
    } else {
        None
    }
}

/// The prepared transaction, or the refusal: after the source checks, the two flag mirrors
/// and the two `flags2` mirrors must agree bit for bit, and the owner must be valid and
/// active. The prepared store ORs the pending bit into the step-8 flags.
pub open spec fn prepare_spec(
    source: UnitThinkLeaderPendingSource,
    leader_slots: usize,
    victory_flags: i32,
    step8_flags: u32,
    victory_flags2: i32,
    step8_flags2: u32,
) -> Result<PreparedUnitThinkLeaderPending, UnitThinkLeaderPendingError> {
    match source_error(source, leader_slots) {
        Some(e) => Err(e),
        None => if victory_flags as u32 != step8_flags {
            Err(UnitThinkLeaderPendingError::MirrorDisagreement { victory_flags, step8_flags })
        } else if victory_flags2 as u32 != step8_flags2 {
            Err(UnitThinkLeaderPendingError::Flags2MirrorDisagreement { victory_flags2, step8_flags2 })
        } else if step8_flags & OWNER_REQUIRED_FLAGS != OWNER_REQUIRED_FLAGS {
            Err(UnitThinkLeaderPendingError::InactiveOwner { flags: step8_flags })
        } else {
            Ok(
                PreparedUnitThinkLeaderPending {
                    source,
                    victory_flags_before: victory_flags,
                    step8_flags_before: step8_flags,
                    victory_flags2_before: victory_flags2,
                    step8_flags2_before: step8_flags2,
                    flags_after: step8_flags | UNIT_THINK_PENDING_FLAG,
                },
            )
        },
    }
}

/// The receipt of a commit of `prepared` by `source`.
pub open spec fn receipt_spec(
    source: UnitThinkLeaderPendingSource,
    prepared: PreparedUnitThinkLeaderPending,
) -> UnitThinkLeaderPendingReceipt {
    UnitThinkLeaderPendingReceipt {
        source,
        flags_before: prepared.step8_flags_before,
        flags_after: prepared.flags_after,
        leader_flags2: prepared.step8_flags2_before,
        unit_ai_disabled: prepared.step8_flags2_before & UNIT_AI_OFF_FLAG2 != 0,
        changed: prepared.step8_flags_before != prepared.flags_after,
        retail_store_va: UNIT_THINK_LEADER_PENDING_OR_VA,
    }
}

/// Whether the mirrors still show the before-image the transaction was prepared on.
pub open spec fn before_image_holds(
    prepared: PreparedUnitThinkLeaderPending,
    victory_flags: i32,
    step8_flags: u32,
    victory_flags2: i32,
    step8_flags2: u32,
) -> bool {
    &&& victory_flags == prepared.victory_flags_before
    &&& step8_flags == prepared.step8_flags_before
    &&& victory_flags2 == prepared.victory_flags2_before
    &&& step8_flags2 == prepared.step8_flags2_before
}

/// Field-by-field equality of two sources, digest byte by byte.
fn same_source(a: &UnitThinkLeaderPendingSource, b: &UnitThinkLeaderPendingSource) -> (r: bool)
    ensures
        r == (*a == *b),
{
    if a.revision != b.revision || a.owner != b.owner || a.unit_o != b.unit_o || a.unit_type
        != b.unit_type {
        return false;
    }
    let mut i: usize = 0;
    while i < 32
        invariant
            i <= 32,
            forall|j: int| 0 <= j < i ==> a.composition_digest@[j] == b.composition_digest@[j],
        decreases 32 - i,
    {
        if a.composition_digest[i] != b.composition_digest[i] {
            return false;
        }
        i = i + 1;
    }
    assert(a.composition_digest =~= b.composition_digest);
    true
}

/// Whether every digest byte is zero.
fn is_missing_digest(d: &[u8; 32]) -> (r: bool)
    ensures
        r == digest_missing(*d),
{
    let mut i: usize = 0;
    while i < 32
        invariant
            i <= 32,
            forall|j: int| 0 <= j < i ==> d@[j] == 0,
        decreases 32 - i,
    {
        if d[i] != 0 {
            return false;
        }
        i = i + 1;
    }
    true
}

fn validate_source(source: UnitThinkLeaderPendingSource, leader_slots: usize) -> (r: Result<
    (),
    UnitThinkLeaderPendingError,
>)
    ensures
        match source_error(source, leader_slots) {
            Some(e) => r == Err::<(), UnitThinkLeaderPendingError>(e),
            None => r is Ok,
        },
{
    if source.revision == 0 {
        return Err(UnitThinkLeaderPendingError::MissingRevision);
    }
    if is_missing_digest(&source.composition_digest) {
        return Err(UnitThinkLeaderPendingError::MissingCompositionDigest);
    }
    if source.owner >= leader_slots {
        return Err(UnitThinkLeaderPendingError::OwnerOutOfRange { owner: source.owner });
    }
    if source.unit_o < 0 || !(source.unit_type == 50 || source.unit_type == 51) {
        return Err(
            UnitThinkLeaderPendingError::UnsupportedActor {
                unit_o: source.unit_o,
                unit_type: source.unit_type,
            },
        );
    }
    Ok(())
}

/// Prepare the OR of the pending bit into both mirrors, refusing as [`prepare_spec`] says.
pub fn prepare_unit_think_leader_pending(
    source: UnitThinkLeaderPendingSource,
    leader_slots: usize,
    victory_flags: i32,
    step8_flags: u32,
    victory_flags2: i32,
    step8_flags2: u32,
) -> (r: Result<PreparedUnitThinkLeaderPending, UnitThinkLeaderPendingError>)
    ensures
        r == prepare_spec(
            source,
            leader_slots,
            victory_flags,
            step8_flags,
            victory_flags2,
            step8_flags2,
        ),
{
    match validate_source(source, leader_slots) {
        Err(e) => {
            return Err(e);
        },
        Ok(()) => {},
    }
    if victory_flags as u32 != step8_flags {
        return Err(UnitThinkLeaderPendingError::MirrorDisagreement { victory_flags, step8_flags });
    }
    if victory_flags2 as u32 != step8_flags2 {
        return Err(
            UnitThinkLeaderPendingError::Flags2MirrorDisagreement { victory_flags2, step8_flags2 },
        );
    }
    if step8_flags & OWNER_REQUIRED_FLAGS != OWNER_REQUIRED_FLAGS {
        return Err(UnitThinkLeaderPendingError::InactiveOwner { flags: step8_flags });
    }
    Ok(
        PreparedUnitThinkLeaderPending {
            source,
            victory_flags_before: victory_flags,
            step8_flags_before: step8_flags,
            victory_flags2_before: victory_flags2,
            step8_flags2_before: step8_flags2,
            flags_after: step8_flags | UNIT_THINK_PENDING_FLAG,
        },
    )
}

/// Commit a prepared transaction: refused, with neither mirror moved, when the source
/// differs from the prepared one or any mirror differs from the before-image; otherwise both
/// mirrors take the prepared flags.
pub fn commit_unit_think_leader_pending(
    source: UnitThinkLeaderPendingSource,
    prepared: PreparedUnitThinkLeaderPending,
    victory_flags: &mut i32,
    step8_flags: &mut u32,
    victory_flags2: i32,
    step8_flags2: u32,
) -> (r: Result<UnitThinkLeaderPendingReceipt, UnitThinkLeaderPendingError>)
    ensures
        source != prepared.source ==> {
            &&& r == Err::<UnitThinkLeaderPendingReceipt, _>(
                UnitThinkLeaderPendingError::SourceMismatch {
                    prepared: prepared.source,
                    current: source,
                },
            )
            &&& *final(victory_flags) == *old(victory_flags)
            &&& *final(step8_flags) == *old(step8_flags)
        },
        source == prepared.source && !before_image_holds(
            prepared,
            *old(victory_flags),
            *old(step8_flags),
            victory_flags2,
            step8_flags2,
        ) ==> {
            &&& r == Err::<UnitThinkLeaderPendingReceipt, _>(
                UnitThinkLeaderPendingError::StaleBeforeImage {
                    expected_victory_flags: prepared.victory_flags_before,
                    actual_victory_flags: *old(victory_flags),
                    expected_step8_flags: prepared.step8_flags_before,
                    actual_step8_flags: *old(step8_flags),
                    expected_victory_flags2: prepared.victory_flags2_before,
                    actual_victory_flags2: victory_flags2,
                    expected_step8_flags2: prepared.step8_flags2_before,
                    actual_step8_flags2: step8_flags2,
                },
            )
            &&& *final(victory_flags) == *old(victory_flags)
            &&& *final(step8_flags) == *old(step8_flags)
        },
        source == prepared.source && before_image_holds(
            prepared,
            *old(victory_flags),
            *old(step8_flags),
            victory_flags2,
            step8_flags2,
        ) ==> {
            &&& r == Ok::<_, UnitThinkLeaderPendingError>(receipt_spec(source, prepared))
            &&& *final(victory_flags) == prepared.flags_after as i32
            &&& *final(step8_flags) == prepared.flags_after
        },
{
    if !same_source(&source, &prepared.source) {
        return Err(
            UnitThinkLeaderPendingError::SourceMismatch { prepared: prepared.source, current: source },
        );
    }
    if *victory_flags != prepared.victory_flags_before || *step8_flags
        != prepared.step8_flags_before || victory_flags2 != prepared.victory_flags2_before
        || step8_flags2 != prepared.step8_flags2_before {
        return Err(
            UnitThinkLeaderPendingError::StaleBeforeImage {
                expected_victory_flags: prepared.victory_flags_before,
                actual_victory_flags: *victory_flags,
                expected_step8_flags: prepared.step8_flags_before,
                actual_step8_flags: *step8_flags,
                expected_victory_flags2: prepared.victory_flags2_before,
                actual_victory_flags2: victory_flags2,
                expected_step8_flags2: prepared.step8_flags2_before,
                actual_step8_flags2: step8_flags2,
            },
        );
    }
    // No fallible work follows the first store: either both mirrors commit or neither moves.
    *victory_flags = prepared.flags_after as i32;
    *step8_flags = prepared.flags_after;
    Ok(
        UnitThinkLeaderPendingReceipt {
            source,
            flags_before: prepared.step8_flags_before,
            flags_after: prepared.flags_after,
            leader_flags2: prepared.step8_flags2_before,
            unit_ai_disabled: prepared.step8_flags2_before & UNIT_AI_OFF_FLAG2 != 0,
            changed: prepared.step8_flags_before != prepared.flags_after,
            retail_store_va: UNIT_THINK_LEADER_PENDING_OR_VA,
        },
    )
}

/// A committed transaction leaves the two mirrors in agreement, and preparing again on
/// them succeeds with the same flags: the OR is idempotent, so the second commit reports no
/// change.
pub proof fn lemma_commit_then_prepare_is_idempotent(
    source: UnitThinkLeaderPendingSource,
    leader_slots: usize,
    victory_flags: i32,
    step8_flags: u32,
    victory_flags2: i32,
    step8_flags2: u32,
)
    requires
        prepare_spec(
            source,
            leader_slots,
            victory_flags,
            step8_flags,
            victory_flags2,
            step8_flags2,
        ) is Ok,
    ensures
        ({
            let after = prepare_spec(
                source,
                leader_slots,
                victory_flags,
                step8_flags,
                victory_flags2,
                step8_flags2,
            )->Ok_0.flags_after;
            let again = prepare_spec(
                source,
                leader_slots,
                after as i32,
                after,
                victory_flags2,
                step8_flags2,
            );
            &&& (after as i32) as u32 == after
            &&& again is Ok
            &&& again->Ok_0.flags_after == after
            &&& !receipt_spec(source, again->Ok_0).changed
        }),
{
    let after = step8_flags | UNIT_THINK_PENDING_FLAG;
    assert((after as i32) as u32 == after) by (bit_vector);
    assert(after & OWNER_REQUIRED_FLAGS == OWNER_REQUIRED_FLAGS) by (bit_vector)
        requires
            step8_flags & OWNER_REQUIRED_FLAGS == OWNER_REQUIRED_FLAGS,
            after == step8_flags | UNIT_THINK_PENDING_FLAG,
    ;
    assert(after | UNIT_THINK_PENDING_FLAG == after) by (bit_vector)
        requires
            after == step8_flags | UNIT_THINK_PENDING_FLAG,
    ;
}

} // verus!
