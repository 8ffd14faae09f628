//! Artwork from ID3v2 APIC frames.

use vstd::prelude::*;
use crate::artwork::types::{artwork_of, artwork_view, chosen, offer, ArtworkV, ExtractedArtwork, PictureWalk};
use crate::error::Error;
use crate::metadata::parsers::id3::{apic_of, frame_views, frames, frames_from, id3_tag_of, read_id3_frames, FrameV};
use crate::metadata::parsers::id3::parse_apic_frame;
use crate::metadata::types::FileReader;
use crate::text::str_eq;

verus! {

/// One frame's contribution: an `APIC` frame offers its picture.
pub open spec fn picture_step(w: PictureWalk, f: FrameV) -> PictureWalk {
    if f.id == "APIC"@ {
        match apic_of(f.data) {
            Some(a) => offer(
                w,
                ArtworkV { data: a.data, mime_type: a.mime_type, width: None, height: None, picture_type: Some(a.picture_type) },
            ),
            None => w,
        }
    } else {
        w
    }
}

/// The walk over a run of frames.
pub open spec fn picture_fold(frames: Seq<FrameV>) -> PictureWalk
    decreases frames.len(),
{
    if frames.len() == 0 {
        PictureWalk { front: None, any: None }
    } else {
        picture_step(picture_fold(frames.drop_last()), frames.last())
    }
}

/// The artwork of an MP3 file: `Some(None)` when there is none; `None`
/// when the ID3 tag cannot be read.
pub open spec fn mp3_artwork(c: Seq<u8>) -> Option<Option<ArtworkV>> {
    match id3_tag_of(c) {
        None => None,
        Some(None) => Some(None),
        Some(Some((major, t))) => Some(chosen(picture_fold(frames_from(major, t, 0)))),
    }
}

/// Extract the front cover (or any other picture) from an MP3's ID3v2 tag.
pub fn extract_from_mp3<R: FileReader>(reader: &R) -> (r: Result<Option<ExtractedArtwork>, Error>)
    ensures
        r matches Ok(o) ==> mp3_artwork(reader.content()) == Some(artwork_view(o)),
        mp3_artwork(reader.content()) is None ==> r is Err,
        reader.reads_succeed() && mp3_artwork(reader.content()) is Some ==> r is Ok,
{
    let (major_version, tag_data) = match read_id3_frames(reader)? {
        Some(t) => t,
        None => return Ok(None),
    };
    let fs = frames(major_version, tag_data.as_slice());
    let ghost fv = frame_views(fs@);

    let mut front_cover: Option<ExtractedArtwork> = None;
    let mut any_artwork: Option<ExtractedArtwork> = None;
    let mut i: usize = 0;
    while i < fs.len()
        invariant
            fv == frame_views(fs@),
            i <= fs@.len(),
            picture_fold(fv.take(i as int)) == (PictureWalk { front: artwork_view(front_cover), any: artwork_view(any_artwork) }),
        decreases fs@.len() - i,
    {
        assert(fv.take(i + 1).drop_last() =~= fv.take(i as int));
        let ghost before = PictureWalk { front: artwork_view(front_cover), any: artwork_view(any_artwork) };
        let frame = &fs[i];
        if str_eq(frame.id.as_str(), "APIC") {
            match parse_apic_frame(frame.data) {
                Some(artwork) => {
                    let artwork = ExtractedArtwork::from(artwork);
                    if artwork.picture_type == Some(crate::metadata::types::PictureType::FrontCover) {
                        front_cover = Some(artwork);
                    } else if any_artwork.is_none() {
                        any_artwork = Some(artwork);
                    }
                },
                None => {},
            }
        }
        assert(picture_step(before, fv[i as int]) == (PictureWalk {
            front: artwork_view(front_cover),
            any: artwork_view(any_artwork),
        }));
        i = i + 1;
    }
    assert(fv.take(fs@.len() as int) =~= fv);
    Ok(match front_cover {
        Some(a) => Some(a),
        None => any_artwork,
    })
}

} // verus!
