//! Artwork extraction types.

use vstd::prelude::*;
use crate::metadata::types::{ArtworkMimeType, ArtworkResult, PictureType};

verus! {

/// Extracted artwork from an audio file.
#[derive(Debug, Clone, PartialEq, Eq)]
pub struct ExtractedArtwork {
    pub data: Vec<u8>,
    pub mime_type: ArtworkMimeType,
    pub width: Option<u32>,
    pub height: Option<u32>,
    pub picture_type: Option<PictureType>,
}

/// A picture, with its image as bytes.
pub struct ArtworkV {
    pub data: Seq<u8>,
    pub mime_type: ArtworkMimeType,
    pub width: Option<u32>,
    pub height: Option<u32>,
    pub picture_type: Option<PictureType>,
}

impl View for ExtractedArtwork {
    type V = ArtworkV;

    open spec fn view(&self) -> ArtworkV {
        ArtworkV {
            data: self.data@,
            mime_type: self.mime_type,
            width: self.width,
            height: self.height,
            picture_type: self.picture_type,
        }
    }
}

/// The artwork a parsed picture gives.
pub open spec fn artwork_of(r: ArtworkResult) -> ArtworkV {
    ArtworkV {
        data: r.data@,
        mime_type: r.mime_type,
        width: r.width,
        height: r.height,
        picture_type: Some(r.picture_type),
    }
}

impl From<ArtworkResult> for ExtractedArtwork {
    fn from(r: ArtworkResult) -> (a: ExtractedArtwork) {
        ExtractedArtwork { data: r.data, mime_type: r.mime_type, width: r.width, height: r.height, picture_type: Some(r.picture_type) }
    }
}

impl vstd::std_specs::convert::FromSpecImpl<ArtworkResult> for ExtractedArtwork {
    open spec fn obeys_from_spec() -> bool {
        true
    }

    open spec fn from_spec(r: ArtworkResult) -> ExtractedArtwork {
        ExtractedArtwork { data: r.data, mime_type: r.mime_type, width: r.width, height: r.height, picture_type: Some(r.picture_type) }
    }
}

/// The view of an optional artwork.
pub open spec fn artwork_view(o: Option<ExtractedArtwork>) -> Option<ArtworkV> {
    match o {
        Some(a) => Some(a@),
        None => None,
    }
}

/// What a walk over the pictures of a tag has found: the front cover (the
/// last one wins) and the first other picture.
pub struct PictureWalk {
    pub front: Option<ArtworkV>,
    pub any: Option<ArtworkV>,
}

/// A picture offered to the walk.
pub open spec fn offer(w: PictureWalk, a: ArtworkV) -> PictureWalk {
    if a.picture_type == Some(PictureType::FrontCover) {
        PictureWalk { front: Some(a), ..w }
    } else if w.any is None {
        PictureWalk { any: Some(a), ..w }
    } else {
        w
    }
}

/// The picture a walk chose: the front cover, or else the first other.
pub open spec fn chosen(w: PictureWalk) -> Option<ArtworkV> {
    if w.front is Some { w.front } else { w.any }
}

} // verus!
