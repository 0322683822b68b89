//! Byte offsets inside `LeaderData` the production machine reads or writes.
use vstd::prelude::*;

verus! {

/// `leader_flags`, read as a byte for the human/AI-assist gate.
pub const LEADER_FLAGS: usize = 0x000;
/// `leader_flags2`.
pub const LEADER_FLAGS2: usize = 0x004;
/// `who`.
pub const WHO: usize = 0x008;
/// `control`.
pub const CONTROL: usize = 0x940;
/// `production_step`.
pub const PRODUCTION_STEP: usize = 0x788;
/// `prod_script_run`.
pub const PROD_SCRIPT_RUN: usize = 0x78c;
/// `script_step`.
pub const SCRIPT_STEP: usize = 0x790;
/// `effective_pop`.
pub const EFFECTIVE_POP: usize = 0x9e0;
/// `pers`, a `Personality`.
pub const PERS: usize = 0x6dd4;
/// `prod_script`, a `String`.
pub const PROD_SCRIPT: usize = 0x6ea4;
/// `make_list`, a `MakeList`.
pub const MAKE_LIST: usize = 0x6ec8;
/// `make_list + 0x10` is `ArrayBase<MakeObject>::list`.
pub const MAKE_LIST_LIST: usize = 0x6ed8;

} // verus!
