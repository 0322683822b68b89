//! Music moods requested by the console leader's combat summary.
use vstd::prelude::*;

verus! {

pub const WINNING: i32 = 0;
pub const LOSING: i32 = 1;
pub const QUIET: i32 = 2;

} // verus!
