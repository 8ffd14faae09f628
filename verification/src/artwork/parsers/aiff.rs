//! Artwork from the ID3 chunk of an AIFF file.

use vstd::prelude::*;
use crate::artwork::parsers::id3::{extract_from_mp3, mp3_artwork};
use crate::artwork::types::{artwork_view, ArtworkV, ExtractedArtwork};
use crate::error::Error;
use crate::metadata::parsers::aiff::{aiff_id3_chunk, find_aiff_id3_chunk};
use crate::metadata::reader::BufferReader;
use crate::metadata::types::{window, FileReader};

verus! {

/// The artwork of an AIFF file: that of the ID3 tag in its ID3 chunk.
pub open spec fn aiff_artwork(c: Seq<u8>) -> Option<Option<ArtworkV>> {
    match aiff_id3_chunk(c) {
        None => Some(None),
        Some((o, n)) => mp3_artwork(window(c, o, n)),
    }
}

/// Extract artwork from an AIFF file by delegating its ID3 chunk to the ID3 parser.
pub fn extract_from_aiff<R: FileReader>(reader: &R) -> (r: Result<Option<ExtractedArtwork>, Error>)
    ensures
        r matches Ok(o) ==> aiff_artwork(reader.content()) == Some(artwork_view(o)),
        reader.reads_succeed() && aiff_artwork(reader.content()) is Some ==> r is Ok,
{
    let (offset, size) = match find_aiff_id3_chunk(reader)? {
        Some(chunk) => chunk,
        None => return Ok(None),
    };
    let id3_data = reader.read(offset, size)?;
    let id3_reader = BufferReader::new(id3_data, "mp3");
    extract_from_mp3(&id3_reader)
}

} // verus!
