//! Values of the `kind` column of the `menuItem` table.

use vstd::prelude::*;

verus! {

pub const GENRE: i64 = 128;

pub const ARTIST: i64 = 129;

pub const ALBUM: i64 = 130;

pub const TRACK: i64 = 131;

pub const PLAYLIST: i64 = 132;

pub const BPM: i64 = 133;

pub const RATING: i64 = 134;

pub const YEAR: i64 = 135;

pub const REMIXER: i64 = 136;

pub const LABEL: i64 = 137;

pub const ORIGINAL_ARTIST: i64 = 138;

pub const KEY: i64 = 139;

pub const DATE_ADDED: i64 = 140;

pub const CUE: i64 = 141;

pub const COLOR: i64 = 142;

pub const FOLDER: i64 = 144;

pub const SEARCH: i64 = 145;

pub const TIME: i64 = 146;

pub const BITRATE: i64 = 147;

pub const FILE_NAME: i64 = 148;

pub const HISTORY: i64 = 149;

pub const COMMENTS: i64 = 150;

pub const DJ_PLAY_COUNT: i64 = 151;

pub const HOT_CUE_BANK: i64 = 152;

pub const DEFAULT: i64 = 161;

pub const ALPHABET: i64 = 162;

pub const MATCHING: i64 = 170;

} // verus!
