//! iTunes-style metadata atom types.

use vstd::prelude::*;

verus! {

pub const TITLE: [u8; 4] = [0xa9, 0x6e, 0x61, 0x6d];

pub const ARTIST: [u8; 4] = [0xa9, 0x41, 0x52, 0x54];

pub const ALBUM: [u8; 4] = [0xa9, 0x61, 0x6c, 0x62];

/// Genre (text).
pub const GENRE: [u8; 4] = [0xa9, 0x67, 0x65, 0x6e];

/// Genre (ID3v1 numeric).
pub const GENRE_ID: [u8; 4] = [0x67, 0x6e, 0x72, 0x65];

/// Release date/year.
pub const YEAR: [u8; 4] = [0xa9, 0x64, 0x61, 0x79];

/// BPM (tempo).
pub const BPM: [u8; 4] = [0x74, 0x6d, 0x70, 0x6f];

/// Cover artwork.
pub const COVER: [u8; 4] = [0x63, 0x6f, 0x76, 0x72];

/// Non-standard field, identified by its own name atom.
pub const FREEFORM: [u8; 4] = [0x2d, 0x2d, 0x2d, 0x2d];

pub const ALBUM_ARTIST: [u8; 4] = [0x61, 0x41, 0x52, 0x54];

pub const COMPOSER: [u8; 4] = [0xa9, 0x77, 0x72, 0x74];

pub const COMMENT: [u8; 4] = [0xa9, 0x63, 0x6d, 0x74];

} // verus!
