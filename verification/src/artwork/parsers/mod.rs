//! Artwork parsers for the supported audio formats.

pub mod aiff;
pub mod flac;
pub mod id3;
pub mod mp4;
