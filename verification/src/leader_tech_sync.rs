//! Atomic synchronization of the committed production tech state into the duplicate leader
//! views.
//!
//! Production completion owns current tech mutation. Victory queries keep a separate
//! `has_tech[806]` view, while the step-8 and compatibility economy views keep the decoded
//! `LeaderDataEncrypt::ages`. Every destination is checked before any is written, then one
//! committed production state is published to all of them. The views and the production
//! state are held here as plain values: [`LeaderTechViews`] and [`ProductionTechRuntime`].
use vstd::prelude::*;

verus! {

/// The number of tech types the victory view holds.
pub const RETAIL_TECH_BITS: usize = 806;

#[derive(Debug, Clone, Copy, PartialEq, Eq)]
pub enum LeaderTechSyncError {
    SlotOutOfRange { slot: usize },
    MissingProductionLeader { slot: usize, available: usize },
    VictoryTechLength { slot: usize, expected: usize, actual: usize },
}

#[derive(Debug, Clone, Copy, PartialEq, Eq)]
pub struct LeaderTechSyncReceipt {
    pub slot: u8,
    pub changed_tech_bits: usize,
    pub step8_ages_before: i32,
    pub facade_ages_before: i32,
    pub ages_after: i32,
}

/// One leader's committed production tech state: the tech bits by type index and the
/// decoded ages counter.
#[derive(Debug, Clone, PartialEq, Eq)]
pub struct ProductionTechLeader {
    pub tech: Vec<bool>,
    pub ages: i32,
}

/// The committed production state of every leader.
#[derive(Debug, Clone, PartialEq, Eq)]
pub struct ProductionTechRuntime {
    pub leaders: Vec<ProductionTechLeader>,
}

/// The duplicate views: the step-8 and compatibility `age_alt` words and the victory
/// `has_tech` rows, each indexed by slot.
#[derive(Debug, Clone, PartialEq, Eq)]
pub struct LeaderTechViews {
    pub step8_ages: Vec<i32>,
    pub facade_ages: Vec<i32>,
    pub victory_has_tech: Vec<Vec<bool>>,
}

/// Tech `i` of a bit list; a type past its end is not held.
pub open spec fn tech_bit(tech: Seq<bool>, i: int) -> bool {
    0 <= i < tech.len() && tech[i]
}

/// The victory row a production leader publishes.
pub open spec fn desired_row(tech: Seq<bool>) -> Seq<bool> {
    Seq::new(806, |i: int| tech_bit(tech, i))
}

/// The number of positions `0..k` where two rows differ.
pub open spec fn differing(a: Seq<bool>, b: Seq<bool>, k: int) -> nat
    decreases k,
{
    if k <= 0 {
        0
    } else {
        differing(a, b, k - 1) + if a[k - 1] != b[k - 1] {
            1nat
        } else {
            0nat
        }
    }
}

/// The victory rows as sequences.
pub open spec fn victory_rows(v: LeaderTechViews) -> Seq<Seq<bool>> {
    v.victory_has_tech@.map_values(|r: Vec<bool>| r@)
}

/// Why `slot` cannot be published, checked in order: a view without the slot, no
/// production leader for it, or a victory row of the wrong length.
pub open spec fn preflight_spec(views: LeaderTechViews, runtime: ProductionTechRuntime, slot: usize) -> Option<
    LeaderTechSyncError,
> {
    if slot >= views.step8_ages@.len() || slot >= views.facade_ages@.len() || slot
        >= views.victory_has_tech@.len() {
        Some(LeaderTechSyncError::SlotOutOfRange { slot })
    } else if slot >= runtime.leaders@.len() {
        Some(
            LeaderTechSyncError::MissingProductionLeader {
                slot,
                available: runtime.leaders@.len() as usize,
            },
        )
    } else if victory_rows(views)[slot as int].len() != 806 {
        Some(
            LeaderTechSyncError::VictoryTechLength {
                slot,
                expected: 806,
                actual: victory_rows(views)[slot as int].len() as usize,
            },
        )
    } else {
        None
    }
}

/// Check every dynamically shaped destination. A production transaction calls this before
/// its first tech mutation, making a malformed duplicate view a refusal rather than a
/// partially published completion.
pub fn preflight_production_tech_views(
    views: &LeaderTechViews,
    runtime: &ProductionTechRuntime,
    slot: usize,
) -> (r: Result<(), LeaderTechSyncError>)
    ensures
        match preflight_spec(*views, *runtime, slot) {
            Some(e) => r == Err::<(), LeaderTechSyncError>(e),
            None => r is Ok,
        },
{
    if slot >= views.step8_ages.len() || slot >= views.facade_ages.len() || slot
        >= views.victory_has_tech.len() {
        return Err(LeaderTechSyncError::SlotOutOfRange { slot });
    }
    if slot >= runtime.leaders.len() {
        return Err(
            LeaderTechSyncError::MissingProductionLeader { slot, available: runtime.leaders.len() },
        );
    }
    let actual = views.victory_has_tech[slot].len();
    if actual != 806 {
        return Err(LeaderTechSyncError::VictoryTechLength { slot, expected: 806, actual });
    }
    Ok(())
}

/// Publish the committed production tech state of `slot` to its duplicate views. All
/// checks precede all writes, so an error leaves every destination unchanged; on success
/// the victory row becomes the production bits of the first 806 types, both `age_alt`
/// words become the production ages, and nothing else moves.
pub fn synchronize_production_tech_views(
    views: &mut LeaderTechViews,
    runtime: &ProductionTechRuntime,
    slot: usize,
) -> (r: Result<LeaderTechSyncReceipt, LeaderTechSyncError>)
    ensures
        match preflight_spec(*old(views), *runtime, slot) {
            Some(e) => r == Err::<LeaderTechSyncReceipt, LeaderTechSyncError>(e) && *final(views)
                == *old(views),
            None => {
                let p = runtime.leaders@[slot as int];
                let desired = desired_row(p.tech@);
                &&& r == Ok::<LeaderTechSyncReceipt, LeaderTechSyncError>(
                    LeaderTechSyncReceipt {
                        slot: slot as u8,
                        changed_tech_bits: differing(
                            victory_rows(*old(views))[slot as int],
                            desired,
                            806,
                        ) as usize,
                        step8_ages_before: old(views).step8_ages@[slot as int],
                        facade_ages_before: old(views).facade_ages@[slot as int],
                        ages_after: p.ages,
                    },
                )
                &&& final(views).step8_ages@ == old(views).step8_ages@.update(slot as int, p.ages)
                &&& final(views).facade_ages@ == old(views).facade_ages@.update(slot as int, p.ages)
                &&& victory_rows(*final(views)) == victory_rows(*old(views)).update(slot as int, desired)
            },
        },
{
    match preflight_production_tech_views(views, runtime, slot) {
        Err(e) => {
            return Err(e);
        },
        Ok(()) => {},
    }
    let production = &runtime.leaders[slot];
    let mut desired: Vec<bool> = Vec::new();
    let mut i: usize = 0;
    while i < 806
        invariant
            i <= 806,
            desired@ == desired_row(production.tech@).take(i as int),
        decreases 806 - i,
    {
        let bit = i < production.tech.len() && production.tech[i];
        desired.push(bit);
        assert(desired@ =~= desired_row(production.tech@).take(i + 1));
        i = i + 1;
    }
    assert(desired@ =~= desired_row(production.tech@));
    let mut changed_tech_bits: usize = 0;
    let mut k: usize = 0;
    let ghost row = victory_rows(*views)[slot as int];
    assert(row == views.victory_has_tech@[slot as int]@);
    while k < 806
        invariant
            k <= 806,
            slot < views.victory_has_tech@.len(),
            row == views.victory_has_tech@[slot as int]@,
            row.len() == 806,
            desired@ == desired_row(production.tech@),
            changed_tech_bits == differing(row, desired@, k as int),
            changed_tech_bits <= k,
        decreases 806 - k,
    {
        if views.victory_has_tech[slot][k] != desired[k] {
            changed_tech_bits = changed_tech_bits + 1;
        }
        k = k + 1;
    }
    let ages_after = production.ages;
    let receipt = LeaderTechSyncReceipt {
        slot: slot as u8,
        changed_tech_bits,
        step8_ages_before: views.step8_ages[slot],
        facade_ages_before: views.facade_ages[slot],
        ages_after,
    };
    let ghost rows_before = victory_rows(*views);
    views.victory_has_tech[slot] = desired;
    views.step8_ages[slot] = ages_after;
    views.facade_ages[slot] = ages_after;
    assert(victory_rows(*views) =~= rows_before.update(slot as int, desired_row(production.tech@)));
    Ok(receipt)
}

/// A publication leaves the victory row equal to the production bits, so publishing the
/// same state again changes no bit.
pub proof fn lemma_republication_changes_nothing(tech: Seq<bool>)
    ensures
        differing(desired_row(tech), desired_row(tech), 806) == 0,
{
    lemma_differing_self(desired_row(tech), 806);
}

proof fn lemma_differing_self(a: Seq<bool>, k: int)
    ensures
        differing(a, a, k) == 0,
    decreases k,
{
    if k > 0 {
        lemma_differing_self(a, k - 1);
    }
}

} // verus!
