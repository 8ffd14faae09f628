//! Values of the `attribute` column of the `myTag` table.

use vstd::prelude::*;

verus! {

pub const TAG: i64 = 0;

pub const FOLDER: i64 = 1;

} // verus!
