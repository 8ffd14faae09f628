//! Values of the `attribute` column of the `playlist` table.

use vstd::prelude::*;

verus! {

pub const PLAYLIST: i64 = 0;

pub const FOLDER: i64 = 1;

} // verus!
