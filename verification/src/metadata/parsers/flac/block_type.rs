//! FLAC metadata block types.

use vstd::prelude::*;

verus! {

pub const STREAMINFO: u8 = 0;

pub const PADDING: u8 = 1;

pub const APPLICATION: u8 = 2;

pub const SEEKTABLE: u8 = 3;

pub const VORBIS_COMMENT: u8 = 4;

pub const CUESHEET: u8 = 5;

pub const PICTURE: u8 = 6;

} // verus!
