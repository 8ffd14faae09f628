//! Tag parsers for the supported audio formats.

pub mod utils;
pub mod id3;
pub mod flac;
pub mod mp4;
pub mod aiff;
