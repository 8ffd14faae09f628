//! Artwork from FLAC PICTURE blocks.

use vstd::prelude::*;
use crate::artwork::types::{artwork_view, chosen, offer, ArtworkV, ExtractedArtwork, PictureWalk};
use crate::error::Error;
use crate::metadata::parsers::flac::{block_views, blocks_from, flac_blocks, flac_picture_of, is_flac, parse_picture_block, BlockV};
use crate::metadata::types::{window, FileReader};

verus! {

/// One block's contribution: a picture block offers its picture.
pub open spec fn picture_block_step(w: PictureWalk, c: Seq<u8>, b: BlockV) -> PictureWalk {
    if b.block_type == 6 {
        match flac_picture_of(window(c, b.offset, b.length)) {
            Some(p) => offer(
                w,
                ArtworkV {
                    data: p.art.data,
                    mime_type: p.art.mime_type,
                    width: p.width,
                    height: p.height,
                    picture_type: Some(p.art.picture_type),
                },
            ),
            None => w,
        }
    } else {
        w
    }
}

/// The walk over a run of blocks.
pub open spec fn picture_block_fold(c: Seq<u8>, blocks: Seq<BlockV>) -> PictureWalk
    decreases blocks.len(),
{
    if blocks.len() == 0 {
        PictureWalk { front: None, any: None }
    } else {
        picture_block_step(picture_block_fold(c, blocks.drop_last()), c, blocks.last())
    }
}

/// The artwork of a FLAC file.
pub open spec fn flac_artwork(c: Seq<u8>) -> Option<ArtworkV> {
    if !is_flac(c) {
        None
    } else {
        chosen(picture_block_fold(c, blocks_from(c, 4)))
    }
}

/// Extract the front cover (or any other picture) from a FLAC file.
pub fn extract_from_flac<R: FileReader>(reader: &R) -> (r: Result<Option<ExtractedArtwork>, Error>)
    ensures
        r matches Ok(o) ==> artwork_view(o) == flac_artwork(reader.content()),
        reader.reads_succeed() ==> r is Ok,
{
    let blocks = match flac_blocks(reader)? {
        Some(b) => b,
        None => return Ok(None),
    };
    let ghost c = reader.content();
    let ghost bv = block_views(blocks@);

    let mut front_cover: Option<ExtractedArtwork> = None;
    let mut any_artwork: Option<ExtractedArtwork> = None;
    let mut i: usize = 0;
    while i < blocks.len()
        invariant
            c == reader.content(),
            bv == block_views(blocks@),
            i <= blocks@.len(),
            picture_block_fold(c, bv.take(i as int)) == (PictureWalk {
                front: artwork_view(front_cover),
                any: artwork_view(any_artwork),
            }),
        decreases blocks@.len() - i,
    {
        assert(bv.take(i + 1).drop_last() =~= bv.take(i as int));
        let ghost before = PictureWalk { front: artwork_view(front_cover), any: artwork_view(any_artwork) };
        let (bt, offset, length) = blocks[i];
        if bt == 6 {
            let data = reader.read(offset, length)?;
            match parse_picture_block(data.as_slice()) {
                Some(artwork) => {
                    let artwork = ExtractedArtwork::from(artwork);
                    if artwork.picture_type == Some(crate::metadata::types::PictureType::FrontCover) {
                        front_cover = Some(artwork);
                    } else if any_artwork.is_none() {
                        any_artwork = Some(artwork);
                    }
                },
                None => {},
            }
        }
        assert(picture_block_step(before, c, bv[i as int]) == (PictureWalk {
            front: artwork_view(front_cover),
            any: artwork_view(any_artwork),
        }));
        i = i + 1;
    }
    assert(bv.take(blocks@.len() as int) =~= bv);
    Ok(match front_cover {
        Some(a) => Some(a),
        None => any_artwork,
    })
}

} // verus!
