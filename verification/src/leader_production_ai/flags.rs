//! `LeaderData::leader_flags` bits the production machine reads.
use vstd::prelude::*;

verus! {

/// `& 4`: the human bit. Converting a player to AI requires it and clears it.
pub const HUMAN: u32 = 0x0000_0004;
/// `& 8`: a human leader still runs the production cycle when this is also set.
pub const PRODUCTION_DESPITE_HUMAN: u32 = 0x0000_0008;

} // verus!
