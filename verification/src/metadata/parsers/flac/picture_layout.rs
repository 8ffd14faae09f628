//! The layout of a FLAC PICTURE block, as a writer lays it out.

use vstd::prelude::*;
use crate::bytes::be_u32;
use crate::metadata::parsers::flac::{flac_picture_of, positive, PictureV};
use crate::metadata::parsers::id3::ArtV;
use crate::metadata::parsers::utils::mime_of;
use crate::metadata::types::picture_type_of;
use crate::text::utf8_lossy;

verus! {

/// The four bytes of a 32-bit number, most significant first.
pub open spec fn be32_bytes(v: u32) -> Seq<u8> {
    seq![(v / 0x100_0000) as u8, (v / 0x1_0000 % 0x100) as u8, (v / 0x100 % 0x100) as u8, (v % 0x100) as u8]
}

/// A PICTURE block as a writer lays it out: picture type, MIME type and
/// description (each after its 32-bit length), width, height, colour depth
/// and colour count, then the image after its length; all numbers
/// big-endian.
pub open spec fn picture_block(
    picture_type: u32,
    mime: Seq<u8>,
    description: Seq<u8>,
    width: u32,
    height: u32,
    depth: u32,
    colors: u32,
    image: Seq<u8>,
) -> Seq<u8> {
    be32_bytes(picture_type) + be32_bytes(mime.len() as u32) + mime + be32_bytes(description.len() as u32) + description
        + be32_bytes(width) + be32_bytes(height) + be32_bytes(depth) + be32_bytes(colors) + be32_bytes(
        image.len() as u32,
    ) + image
}

/// The four bytes [`be32_bytes`] lays out read back as the number.
pub proof fn lemma_be32_reads_back(v: u32, s: Seq<u8>, i: int)
    requires
        0 <= i,
        i + 4 <= s.len(),
        s.subrange(i, i + 4) == be32_bytes(v),
    ensures
        be_u32(s, i) == v,
{
    assert(s[i] == s.subrange(i, i + 4)[0]);
    assert(s[i + 1] == s.subrange(i, i + 4)[1]);
    assert(s[i + 2] == s.subrange(i, i + 4)[2]);
    assert(s[i + 3] == s.subrange(i, i + 4)[3]);
    let a = v / 0x100_0000;
    let b = v / 0x1_0000 % 0x100;
    let c = v / 0x100 % 0x100;
    let d = v % 0x100;
    assert(a * 0x100_0000 + b * 0x1_0000 + c * 0x100 + d == v) by (nonlinear_arith)
        requires
            a == v / 0x100_0000,
            b == v / 0x1_0000 % 0x100,
            c == v / 0x100 % 0x100,
            d == v % 0x100,
            v < 0x1_0000_0000,
    ;
    assert(a < 0x100) by (nonlinear_arith)
        requires
            a == v / 0x100_0000,
            v < 0x1_0000_0000,
    ;
}

proof fn lemma_concat_left(a: Seq<u8>, b: Seq<u8>, i: int, j: int)
    requires
        0 <= i <= j <= a.len(),
    ensures
        (a + b).subrange(i, j) == a.subrange(i, j),
{
    assert((a + b).subrange(i, j) =~= a.subrange(i, j));
}

proof fn lemma_concat_right(a: Seq<u8>, b: Seq<u8>, i: int, j: int)
    requires
        a.len() <= i <= j <= a.len() + b.len(),
    ensures
        (a + b).subrange(i, j) == b.subrange(i - a.len(), j - a.len()),
{
    assert((a + b).subrange(i, j) =~= b.subrange(i - a.len(), j - a.len()));
}

/// A picture block reads back as what was written into it: the image, the
/// picture type, the MIME type (read from its text), and the width and
/// height (none for 0), whatever the description and colour fields hold.
#[verifier::rlimit(50)]
pub proof fn law_picture_block_round_trip(
    picture_type: u32,
    mime: Seq<u8>,
    description: Seq<u8>,
    width: u32,
    height: u32,
    depth: u32,
    colors: u32,
    image: Seq<u8>,
)
    requires
        mime.len() < 0x1_0000_0000,
        description.len() < 0x1_0000_0000,
        0 < image.len() < 0x1_0000_0000,
    ensures
        flac_picture_of(picture_block(picture_type, mime, description, width, height, depth, colors, image)) == Some(
            PictureV {
                art: ArtV { data: image, mime_type: mime_of(utf8_lossy(mime)), picture_type: picture_type_of(picture_type) },
                width: positive(width),
                height: positive(height),
            },
        ),
{
    let d = picture_block(picture_type, mime, description, width, height, depth, colors, image);
    let ml = mime.len() as int;
    let dl = description.len() as int;
    let il = image.len() as int;
    let q1 = be32_bytes(picture_type) + be32_bytes(mime.len() as u32);
    let p1 = q1 + mime;
    let p2 = p1 + be32_bytes(description.len() as u32);
    let p3 = p2 + description;
    let p4 = p3 + be32_bytes(width);
    let p5 = p4 + be32_bytes(height);
    let p6 = p5 + be32_bytes(depth);
    let p7 = p6 + be32_bytes(colors);
    let p8 = p7 + be32_bytes(image.len() as u32);
    assert(d == p8 + image);
    let o = 8 + ml;
    let o2 = o + 4 + dl;
    let o3 = o2 + 16;
    let o4 = o3 + 4;
    assert(p8.len() == o4);
    // Each field, found in the prefix that ends with it.
    lemma_concat_left(p8, image, 0, 4);
    lemma_concat_left(p7, be32_bytes(image.len() as u32), 0, 4);
    lemma_concat_left(p6, be32_bytes(colors), 0, 4);
    lemma_concat_left(p5, be32_bytes(depth), 0, 4);
    lemma_concat_left(p4, be32_bytes(height), 0, 4);
    lemma_concat_left(p3, be32_bytes(width), 0, 4);
    lemma_concat_left(p2, description, 0, 4);
    lemma_concat_left(p1, be32_bytes(description.len() as u32), 0, 4);
    lemma_concat_left(q1, mime, 0, 4);
    lemma_concat_left(be32_bytes(picture_type), be32_bytes(mime.len() as u32), 0, 4);
    assert(be32_bytes(picture_type).subrange(0, 4) =~= be32_bytes(picture_type));
    lemma_be32_reads_back(picture_type, d, 0);

    lemma_concat_left(p8, image, 4, 8);
    lemma_concat_left(p7, be32_bytes(image.len() as u32), 4, 8);
    lemma_concat_left(p6, be32_bytes(colors), 4, 8);
    lemma_concat_left(p5, be32_bytes(depth), 4, 8);
    lemma_concat_left(p4, be32_bytes(height), 4, 8);
    lemma_concat_left(p3, be32_bytes(width), 4, 8);
    lemma_concat_left(p2, description, 4, 8);
    lemma_concat_left(p1, be32_bytes(description.len() as u32), 4, 8);
    lemma_concat_left(q1, mime, 4, 8);
    lemma_concat_right(be32_bytes(picture_type), be32_bytes(mime.len() as u32), 4, 8);
    assert(be32_bytes(mime.len() as u32).subrange(0, 4) =~= be32_bytes(mime.len() as u32));
    lemma_be32_reads_back(mime.len() as u32, d, 4);

    lemma_concat_left(p8, image, 8, o);
    lemma_concat_left(p7, be32_bytes(image.len() as u32), 8, o);
    lemma_concat_left(p6, be32_bytes(colors), 8, o);
    lemma_concat_left(p5, be32_bytes(depth), 8, o);
    lemma_concat_left(p4, be32_bytes(height), 8, o);
    lemma_concat_left(p3, be32_bytes(width), 8, o);
    lemma_concat_left(p2, description, 8, o);
    lemma_concat_left(p1, be32_bytes(description.len() as u32), 8, o);
    lemma_concat_right(q1, mime, 8, o);
    assert(mime.subrange(0, ml) =~= mime);

    lemma_concat_left(p8, image, o, o + 4);
    lemma_concat_left(p7, be32_bytes(image.len() as u32), o, o + 4);
    lemma_concat_left(p6, be32_bytes(colors), o, o + 4);
    lemma_concat_left(p5, be32_bytes(depth), o, o + 4);
    lemma_concat_left(p4, be32_bytes(height), o, o + 4);
    lemma_concat_left(p3, be32_bytes(width), o, o + 4);
    lemma_concat_left(p2, description, o, o + 4);
    lemma_concat_right(p1, be32_bytes(description.len() as u32), o, o + 4);
    assert(be32_bytes(description.len() as u32).subrange(0, 4) =~= be32_bytes(description.len() as u32));
    lemma_be32_reads_back(description.len() as u32, d, o);

    lemma_concat_left(p8, image, o2, o2 + 4);
    lemma_concat_left(p7, be32_bytes(image.len() as u32), o2, o2 + 4);
    lemma_concat_left(p6, be32_bytes(colors), o2, o2 + 4);
    lemma_concat_left(p5, be32_bytes(depth), o2, o2 + 4);
    lemma_concat_left(p4, be32_bytes(height), o2, o2 + 4);
    lemma_concat_right(p3, be32_bytes(width), o2, o2 + 4);
    assert(be32_bytes(width).subrange(0, 4) =~= be32_bytes(width));
    lemma_be32_reads_back(width, d, o2);

    lemma_concat_left(p8, image, o2 + 4, o2 + 8);
    lemma_concat_left(p7, be32_bytes(image.len() as u32), o2 + 4, o2 + 8);
    lemma_concat_left(p6, be32_bytes(colors), o2 + 4, o2 + 8);
    lemma_concat_left(p5, be32_bytes(depth), o2 + 4, o2 + 8);
    lemma_concat_right(p4, be32_bytes(height), o2 + 4, o2 + 8);
    assert(be32_bytes(height).subrange(0, 4) =~= be32_bytes(height));
    lemma_be32_reads_back(height, d, o2 + 4);

    lemma_concat_left(p8, image, o3, o3 + 4);
    lemma_concat_right(p7, be32_bytes(image.len() as u32), o3, o3 + 4);
    assert(be32_bytes(image.len() as u32).subrange(0, 4) =~= be32_bytes(image.len() as u32));
    lemma_be32_reads_back(image.len() as u32, d, o3);

    lemma_concat_right(p8, image, o4, o4 + il);
    assert(image.subrange(0, il) =~= image);
    reveal(flac_picture_of);
}

} // verus!
