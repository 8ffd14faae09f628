//! Artwork extraction directly from audio files: the front cover, or else
//! any other picture, of a file's tag.

pub mod parsers;
pub mod types;

use vstd::prelude::*;
use crate::artwork::parsers::aiff::{aiff_artwork, extract_from_aiff};
use crate::artwork::parsers::flac::{extract_from_flac, flac_artwork};
use crate::artwork::parsers::id3::{extract_from_mp3, mp3_artwork};
use crate::artwork::parsers::mp4::{extract_from_mp4, mp4_artwork};
use crate::artwork::types::{artwork_view, ArtworkV};
use crate::error::Error;
use crate::text::{lowercase, str_eq, to_lower};

pub use crate::artwork::types::ExtractedArtwork;
pub use crate::metadata::reader::{create_buffer_reader, BufferReader};
pub use crate::metadata::types::{ArtworkMimeType, FileReader, PictureType};

verus! {

/// True for the extensions artwork can be extracted from, in any case.
pub open spec fn artwork_extension(e: Seq<char>) -> bool {
    let n = lowercase(e);
    n == "mp3"@ || n == "m4a"@ || n == "mp4"@ || n == "aac"@ || n == "flac"@ || n == "aiff"@ || n == "aif"@
}

/// True for the extensions artwork can be extracted from.
pub fn is_artwork_extraction_supported(extension: &str) -> (r: bool)
    ensures
        r == artwork_extension(extension@),
{
    let lower = to_lower(extension);
    let n = lower.as_str();
    str_eq(n, "mp3") || str_eq(n, "m4a") || str_eq(n, "mp4") || str_eq(n, "aac") || str_eq(n, "flac") || str_eq(
        n,
        "aiff",
    ) || str_eq(n, "aif")
}

/// The artwork of a file with the given extension: by the parser for the
/// extension, or, for any other extension, the MP3 parser and then the MP4
/// one. `None` where an ID3 tag cannot be read.
pub open spec fn artwork_for(c: Seq<u8>, e: Seq<char>) -> Option<Option<ArtworkV>> {
    let n = lowercase(e);
    if n == "mp3"@ {
        mp3_artwork(c)
    } else if n == "m4a"@ || n == "mp4"@ || n == "aac"@ {
        Some(mp4_artwork(c))
    } else if n == "flac"@ {
        Some(flac_artwork(c))
    } else if n == "aiff"@ || n == "aif"@ {
        aiff_artwork(c)
    } else {
        match mp3_artwork(c) {
            None => None,
            Some(Some(a)) => Some(Some(a)),
            Some(None) => Some(mp4_artwork(c)),
        }
    }
}

/// Extract artwork from a file, choosing the parser by the reader's extension.
pub fn extract_artwork<R: FileReader>(reader: &R) -> (r: Result<Option<ExtractedArtwork>, Error>)
    ensures
        r matches Ok(o) ==> artwork_for(reader.content(), reader.file_extension()) == Some(artwork_view(o)),
        reader.reads_succeed() && artwork_for(reader.content(), reader.file_extension()) is Some ==> r is Ok,
{
    let ext = to_lower(reader.extension());
    let n = ext.as_str();
    if str_eq(n, "mp3") {
        extract_from_mp3(reader)
    } else if str_eq(n, "m4a") || str_eq(n, "mp4") || str_eq(n, "aac") {
        extract_from_mp4(reader)
    } else if str_eq(n, "flac") {
        extract_from_flac(reader)
    } else if str_eq(n, "aiff") || str_eq(n, "aif") {
        extract_from_aiff(reader)
    } else {
        match extract_from_mp3(reader)? {
            Some(mp3) => Ok(Some(mp3)),
            None => extract_from_mp4(reader),
        }
    }
}

} // verus!
