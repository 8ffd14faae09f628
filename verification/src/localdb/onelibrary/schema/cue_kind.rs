//! Values of the `kind` column of the `cue` table.

use vstd::prelude::*;

verus! {

pub const MEMORY_CUE: i64 = 0;

pub const HOT_CUE: i64 = 1;

} // verus!
