//! Full metadata extraction (title, artist, album, BPM, key, genre, artwork)
//! from audio files, using partial file reads: only the tag areas of a file
//! are read, not the whole file.

pub mod extract;
pub mod parsers;
pub mod reader;
pub mod types;

use vstd::prelude::*;
use crate::metadata::extract::parser_for;
use crate::text::{extension_of, lowercase, path_extension};

pub use crate::metadata::extract::{
    extract_full_metadata, extract_metadata, get_parser_for_extension, get_supported_extensions, is_extension_supported,
    MetadataParser,
};
pub use crate::metadata::reader::{create_buffer_reader, BufferReader};
pub use crate::metadata::types::{ArtworkMimeType, ExtractedMetadata, FileReader, PictureType};

verus! {

/// Check if metadata extraction is supported for a file extension (with or
/// without leading dot).
pub fn is_metadata_extraction_supported(extension: &str) -> (r: bool)
    ensures
        r == parser_for(extension@) is Some,
{
    is_extension_supported(extension)
}

/// The lower-cased extension of the file at `path` on a device, by which its
/// metadata is read over NFS (see [`extension_of`]); `None` where no parser
/// reads that extension or the file is empty (`size` 0), so that nothing is
/// fetched.
pub open spec fn device_extension(path: Seq<char>, size: u32) -> Option<Seq<char>> {
    let e = lowercase(extension_of(path));
    if parser_for(e) is None || size == 0 {
        None
    } else {
        Some(e)
    }
}

/// Decides whether the metadata of the file at `file_path`, `size` bytes
/// long, is read from the device, and by which extension.
pub fn device_metadata_extension(file_path: &str, size: u32) -> (r: Option<String>)
    ensures
        r is Some <==> device_extension(file_path@, size) is Some,
        r matches Some(e) ==> device_extension(file_path@, size) == Some(e@),
{
    let extension = path_extension(file_path);
    if !is_extension_supported(extension.as_str()) {
        return None;
    }
    if size == 0 {
        return None;
    }
    Some(extension)
}

} // verus!
