//! What each item of an MP4 metadata list contributes, by its type.

use vstd::prelude::*;
use crate::metadata::parsers::flac::picture_layout::{be32_bytes, lemma_be32_reads_back};
use crate::metadata::parsers::mp4::{
    atom_header_at,
    album_type, artist_type, bpm_type, covr_type, freeform_type, genre_id_type, genre_type, mp4_step, numeric_atom,
    sat_sub, text_atom, title_type, year_type, HeaderV,
};
use crate::metadata::types::{BpmTagV, MetadataV};

verus! {

/// What one item of the metadata list gives, by its four-byte type: `©nam`
/// the title, `©ART` the artist, `©alb` the album and `©gen` the genre,
/// each as the text of its data atom and only where that field is not yet
/// found; `tmpo` a whole tempo, kept where it lies between 0 and 500; and
/// no other field changes.
pub proof fn law_mp4_item_fields(m: MetadataV, c: Seq<u8>, item: (HeaderV, int))
    ensures
        ({
            let o = item.1 + item.0.header_size;
            let n = sat_sub(item.0.size, item.0.header_size);
            let t = item.0.atom_type;
            &&& t == seq![0xa9u8, 0x6e, 0x61, 0x6d] ==> mp4_step(m, c, item) == MetadataV {
                title: if m.title is Some { m.title } else { text_atom(c, o, n) },
                ..m
            }
            &&& t == seq![0xa9u8, 0x41, 0x52, 0x54] ==> mp4_step(m, c, item) == MetadataV {
                artist: if m.artist is Some { m.artist } else { text_atom(c, o, n) },
                ..m
            }
            &&& t == seq![0xa9u8, 0x61, 0x6c, 0x62] ==> mp4_step(m, c, item) == MetadataV {
                album: if m.album is Some { m.album } else { text_atom(c, o, n) },
                ..m
            }
            &&& t == seq![0xa9u8, 0x67, 0x65, 0x6e] ==> mp4_step(m, c, item) == MetadataV {
                genre: if m.genre is Some { m.genre } else { text_atom(c, o, n) },
                ..m
            }
            &&& t == seq![0x74u8, 0x6d, 0x70, 0x6f] ==> mp4_step(m, c, item) == match numeric_atom(c, o, n) {
                Some(b) => if 0 < b && b < 500 { MetadataV { bpm_tags: m.bpm_tags.push(BpmTagV::Whole(b)), ..m } } else { m },
                None => m,
            }
        }),
{
    let t = item.0.atom_type;
    let types = seq![
        title_type(), artist_type(), album_type(), genre_type(), genre_id_type(), year_type(), bpm_type(),
        freeform_type(), covr_type(),
    ];
    assert forall|i: int, j: int| 0 <= i < j < types.len() implies types[i] != types[j] by {
        if types[i] == types[j] {
            assert(types[i][0] == types[j][0]);
            assert(types[i][1] == types[j][1]);
            assert(types[i][2] == types[j][2]);
            assert(types[i][3] == types[j][3]);
        }
    }
    assert(title_type() =~= seq![0xa9u8, 0x6e, 0x61, 0x6d]);
    assert(artist_type() =~= seq![0xa9u8, 0x41, 0x52, 0x54]);
    assert(album_type() =~= seq![0xa9u8, 0x61, 0x6c, 0x62]);
    assert(genre_type() =~= seq![0xa9u8, 0x67, 0x65, 0x6e]);
    assert(bpm_type() =~= seq![0x74u8, 0x6d, 0x70, 0x6f]);
    assert(types[0] != types[1] && types[0] != types[2] && types[0] != types[3] && types[1] != types[2]);
    assert(types[1] != types[3] && types[2] != types[3] && types[6] != types[0] && types[6] != types[1]);
    assert(types[6] != types[2] && types[6] != types[3] && types[6] != types[4] && types[6] != types[5]);
}

/// An atom header as a writer lays it out: its size (big-endian, counting
/// the header) and its four-byte type; a size of 1 announces a 64-bit size
/// after the type, a size of 0 an atom that runs to the end.
pub proof fn law_atom_header_reads_back(size: u32, atom_type: Seq<u8>, rest: Seq<u8>)
    requires
        size >= 8,
        atom_type.len() == 4,
    ensures
        atom_header_at(be32_bytes(size) + atom_type + rest, 0) == Some(HeaderV {
            size: size as int,
            atom_type: atom_type,
            header_size: 8,
        }),
{
    let c = be32_bytes(size) + atom_type + rest;
    assert(c.subrange(0, 4) =~= be32_bytes(size));
    lemma_be32_reads_back(size, c, 0);
    assert(c.subrange(4, 8) =~= atom_type);
}

} // verus!
