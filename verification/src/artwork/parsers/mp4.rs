//! Artwork from the MP4 `covr` atom.

use vstd::prelude::*;
use crate::artwork::types::{artwork_view, ArtworkV, ExtractedArtwork};
use crate::error::Error;
use crate::metadata::parsers::mp4::{
    add_sat, covr_type, covr_type_bytes, cover_atom, find_atom, find_from, find_ilst_atom, find_moov_atom, ilst_in,
    is_mp4, is_mp4_file, moov_of, read_cover_artwork, sat_add,
};
use crate::metadata::types::{FileReader, PictureType};

verus! {

/// The artwork of an MP4 file: the cover of the `covr` item of its
/// metadata list, as the front cover.
pub open spec fn mp4_artwork(c: Seq<u8>) -> Option<ArtworkV> {
    if !is_mp4_file(c) {
        None
    } else {
        match moov_of(c) {
            None => None,
            Some(moov) => match ilst_in(c, moov) {
                None => None,
                Some(l) => match find_from(c, l.0, sat_add(l.0, l.1), covr_type()) {
                    None => None,
                    Some(cv) => match cover_atom(c, cv.0, cv.1) {
                        None => None,
                        Some((d, mt)) => Some(
                            ArtworkV {
                                data: d,
                                mime_type: mt,
                                width: None,
                                height: None,
                                picture_type: Some(PictureType::FrontCover),
                            },
                        ),
                    },
                },
            },
        }
    }
}

/// Extract cover art from an MP4/M4A file.
pub fn extract_from_mp4<R: FileReader>(reader: &R) -> (r: Result<Option<ExtractedArtwork>, Error>)
    ensures
        r matches Ok(o) ==> artwork_view(o) == mp4_artwork(reader.content()),
        reader.reads_succeed() ==> r is Ok,
{
    if !is_mp4(reader)? {
        return Ok(None);
    }
    let moov = match find_moov_atom(reader)? {
        Some(m) => m,
        None => return Ok(None),
    };
    let ilst = match find_ilst_atom(reader, moov)? {
        Some(l) => l,
        None => return Ok(None),
    };
    let t = covr_type_bytes();
    let covr = match find_atom(reader, ilst.data_offset, add_sat(ilst.data_offset, ilst.data_size), &t)? {
        Some(cv) => cv,
        None => return Ok(None),
    };
    let (data, mime_type) = match read_cover_artwork(reader, covr.data_offset, covr.data_size)? {
        Some(found) => found,
        None => return Ok(None),
    };
    Ok(Some(ExtractedArtwork { data, mime_type, width: None, height: None, picture_type: Some(PictureType::FrontCover) }))
}

} // verus!
