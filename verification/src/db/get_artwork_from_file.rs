//! Full-resolution artwork extracted from the audio file over NFS: which
//! tracks are worth the download.

use vstd::prelude::*;
use crate::artwork::{artwork_extension, is_artwork_extraction_supported};
use crate::text::{extension_of, lowercase, path_extension};

verus! {

/// The lower-cased extension that artwork is extracted by, for a track at
/// `path` in a slot that is (`nfs_slot`) or is not reachable over NFS; `None`
/// where the extraction is skipped: the slot is not an NFS one, the track has
/// no file path, or its extension names no format that holds artwork.
pub open spec fn extraction_extension(nfs_slot: bool, path: Seq<char>) -> Option<Seq<char>> {
    if !nfs_slot || path.len() == 0 {
        None
    } else {
        let e = lowercase(extension_of(path));
        if artwork_extension(e) {
            Some(e)
        } else {
            None
        }
    }
}

/// Decides whether the artwork of the file at `file_path` is extracted, and
/// by which extension.
pub fn file_extraction_extension(nfs_slot: bool, file_path: &str) -> (r: Option<String>)
    ensures
        r is Some <==> extraction_extension(nfs_slot, file_path@) is Some,
        r matches Some(e) ==> extraction_extension(nfs_slot, file_path@) == Some(e@),
{
    if !nfs_slot {
        return None;
    }
    if file_path.is_empty() {
        return None;
    }
    let extension = path_extension(file_path);
    if !is_artwork_extraction_supported(extension.as_str()) {
        return None;
    }
    Some(extension)
}

} // verus!
