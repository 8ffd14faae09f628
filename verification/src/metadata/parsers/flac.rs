//! FLAC metadata block parsing.

pub mod block_type;
pub mod picture_layout;

use vstd::prelude::*;
use crate::bytes::{be_u32, le_u32, read_be_u32, read_le_u32};
use crate::error::Error;
use crate::metadata::parsers::id3::{art_opt, art_view, meta_view, walk_result, ArtV, TagWalk};
use crate::metadata::parsers::utils::{clean_text, cleaned, mime_of, normalize_mime_type, parse_year, year_of};
use crate::metadata::types::{
    window, ArtworkResult, BpmTag, BpmTagV, ExtractedMetadata, FileReader, MetadataV, PictureType, empty_metadata,
    picture_type_of, view_empty,
};
use crate::text::{chars_of, decode_utf8_lossy, str_eq, string_from_chars, to_upper, uppercase, utf8_lossy};

use crate::metadata::parsers::utils::{holds_tempo, text_holds_tempo};

verus! {

broadcast use vstd::slice::group_slice_axioms;

/// The type of a Vorbis comment block.
pub open spec fn vorbis_comment_block() -> u8 {
    4
}

/// The type of a picture block.
pub open spec fn picture_block() -> u8 {
    6
}

// ---------------------------------------------------------------------------
// Picture blocks.
// ---------------------------------------------------------------------------

/// A picture block: its picture and the width and height it declares
/// (`None` for zero).
pub struct PictureV {
    pub art: ArtV,
    pub width: Option<u32>,
    pub height: Option<u32>,
}

/// `None` for zero.
pub open spec fn positive(v: u32) -> Option<u32> {
    if v > 0 { Some(v) } else { None }
}

/// The picture of a FLAC PICTURE block: picture type, MIME type and
/// description (each after a 32-bit big-endian length), width, height,
/// depth and colours, then the image after its length.
#[verifier::opaque]
pub open spec fn flac_picture_of(d: Seq<u8>) -> Option<PictureV> {
    if d.len() < 32 {
        None
    } else {
        let pt = picture_type_of(be_u32(d, 0));
        let mime_len = be_u32(d, 4) as int;
        if 8 + mime_len > d.len() {
            None
        } else {
            let mime = utf8_lossy(d.subrange(8, 8 + mime_len));
            let o = 8 + mime_len;
            if o + 4 > d.len() {
                None
            } else {
                let o2 = o + 4 + be_u32(d, o) as int;
                if o2 + 16 > d.len() {
                    None
                } else {
                    let width = be_u32(d, o2);
                    let height = be_u32(d, o2 + 4);
                    let o3 = o2 + 16;
                    if o3 + 4 > d.len() {
                        None
                    } else {
                        let img_len = be_u32(d, o3) as int;
                        let o4 = o3 + 4;
                        if o4 + img_len > d.len() || img_len == 0 {
                            None
                        } else {
                            Some(PictureV {
                                art: ArtV { data: d.subrange(o4, o4 + img_len), mime_type: mime_of(mime), picture_type: pt },
                                width: positive(width),
                                height: positive(height),
                            })
                        }
                    }
                }
            }
        }
    }
}

/// Parse a FLAC PICTURE metadata block.
pub fn parse_picture_block(data: &[u8]) -> (r: Option<ArtworkResult>)
    ensures
        r is Some <==> flac_picture_of(data@) is Some,
        r matches Some(a) ==> flac_picture_of(data@) == Some(
            PictureV { art: art_view(a), width: a.width, height: a.height },
        ),
{
    reveal(flac_picture_of);
    if data.len() < 32 {
        return None;
    }

    let picture_type = PictureType::from_u32(read_be_u32(data, 0));
    let mime_length = read_be_u32(data, 4) as u64;
    if mime_length > (data.len() - 8) as u64 {
        return None;
    }
    let mime_length = mime_length as usize;
    let mime_type = decode_utf8_lossy(&data[8..8 + mime_length]);
    let offset = 8 + mime_length;

    if data.len() - offset < 4 {
        return None;
    }
    let desc_length = read_be_u32(data, offset) as u64;
    if desc_length > (data.len() - offset - 4) as u64 || data.len() - offset - 4 - (desc_length as usize) < 16 {
        return None;
    }
    let offset = offset + 4 + desc_length as usize;
    let width = read_be_u32(data, offset);
    let height = read_be_u32(data, offset + 4);
    // Skip depth and colors
    let offset = offset + 16;

    if data.len() - offset < 4 {
        return None;
    }
    let image_length = read_be_u32(data, offset) as u64;
    let offset = offset + 4;
    if image_length > (data.len() - offset) as u64 || image_length == 0 {
        return None;
    }
    let image_data = crate::bytes::copy_range(data, offset, offset + image_length as usize);

    Some(ArtworkResult {
        data: image_data,
        mime_type: normalize_mime_type(mime_type.as_str()),
        width: if width > 0 { Some(width) } else { None },
        height: if height > 0 { Some(height) } else { None },
        picture_type,
    })
}

// ---------------------------------------------------------------------------
// Vorbis comments.
// ---------------------------------------------------------------------------

/// The position of the first `=` in a comment.
pub open spec fn eq_sign_from(s: Seq<char>, i: int) -> Option<int>
    decreases s.len() - i,
{
    if i < 0 || i >= s.len() {
        None
    } else if s[i] == '=' {
        Some(i)
    } else {
        eq_sign_from(s, i + 1)
    }
}

/// A comment `FIELD=value` as (upper-cased field, value); nothing where it
/// has no `=` or an empty field name.
pub open spec fn comment_pair(c: Seq<char>) -> Option<(Seq<char>, Seq<char>)> {
    match eq_sign_from(c, 0) {
        Some(eq) => if eq > 0 { Some((uppercase(c.take(eq)), c.skip(eq + 1))) } else { None },
        None => None,
    }
}

/// The comments from `offset` on, `count` of them at most, in order; the
/// walk stops at one that overruns the block.
pub open spec fn comments_from(d: Seq<u8>, offset: int, count: int) -> Seq<(Seq<char>, Seq<char>)>
    decreases count,
{
    if count <= 0 || offset < 0 || offset + 4 > d.len() {
        Seq::empty()
    } else {
        let len = le_u32(d, offset) as int;
        let start = offset + 4;
        if start + len > d.len() {
            Seq::empty()
        } else {
            let here = match comment_pair(utf8_lossy(d.subrange(start, start + len))) {
                Some(p) => seq![p],
                None => Seq::empty(),
            };
            here + comments_from(d, start + len, count - 1)
        }
    }
}

/// True when some pair has the field name `k`.
pub open spec fn has_field(pairs: Seq<(Seq<char>, Seq<char>)>, k: Seq<char>) -> bool {
    exists|i: int| 0 <= i < pairs.len() && (#[trigger] pairs[i]).0 == k
}

/// The pairs with only the first value of each field kept.
pub open spec fn first_values(pairs: Seq<(Seq<char>, Seq<char>)>) -> Seq<(Seq<char>, Seq<char>)>
    decreases pairs.len(),
{
    if pairs.len() == 0 {
        pairs
    } else if has_field(first_values(pairs.drop_last()), pairs.last().0) {
        first_values(pairs.drop_last())
    } else {
        first_values(pairs.drop_last()).push(pairs.last())
    }
}

/// The comments of a Vorbis comment block: vendor string length (32-bit
/// LE) and vendor string, comment count (32-bit LE), then each comment
/// after its length; the first value of each field.
#[verifier::opaque]
pub open spec fn vorbis_comments_of(d: Seq<u8>) -> Seq<(Seq<char>, Seq<char>)> {
    if d.len() < 8 {
        Seq::empty()
    } else {
        let o = 4 + le_u32(d, 0) as int;
        if o + 4 > d.len() {
            Seq::empty()
        } else {
            first_values(comments_from(d, o + 4, le_u32(d, o) as int))
        }
    }
}

/// The views of the pairs.
pub open spec fn pair_views(v: Seq<(String, String)>) -> Seq<(Seq<char>, Seq<char>)> {
    v.map_values(|p: (String, String)| (p.0@, p.1@))
}

fn find_field(comments: &Vec<(String, String)>, field: &str) -> (r: Option<usize>)
    ensures
        r is None <==> !has_field(pair_views(comments@), field@),
        r is None ==> lookup_from(pair_views(comments@), 0, field@) is None,
        r matches Some(i) ==> i < comments@.len() && comments@[i as int].0@ == field@
            && lookup_from(pair_views(comments@), 0, field@) == Some(comments@[i as int].1@),
{
    let ghost pv = pair_views(comments@);
    let mut i: usize = 0;
    while i < comments.len()
        invariant
            pv == pair_views(comments@),
            i <= comments@.len(),
            forall|j: int| 0 <= j < i ==> (#[trigger] pv[j]).0 != field@,
            lookup_from(pv, i as int, field@) == lookup_from(pv, 0, field@),
        decreases comments@.len() - i,
    {
        if str_eq(comments[i].0.as_str(), field) {
            assert(pv[i as int].0 == field@);
            return Some(i);
        }
        i = i + 1;
    }
    None
}

/// Parse a Vorbis comment block. Format: vendor string length (32-bit LE) +
/// vendor string + comment count (32-bit LE) + comments; each comment:
/// length (32-bit LE) + "FIELD=value". Only the first value of each field
/// is kept, in the order the fields first appear.
pub fn parse_vorbis_comment_block(data: &[u8]) -> (r: Vec<(String, String)>)
    ensures
        pair_views(r@) == vorbis_comments_of(data@),
{
    reveal(vorbis_comments_of);
    let mut comments: Vec<(String, String)> = Vec::new();
    assert(pair_views(comments@) =~= Seq::<(Seq<char>, Seq<char>)>::empty());
    if data.len() < 8 {
        return comments;
    }

    // Skip vendor string
    let vendor_length = read_le_u32(data, 0) as u64;
    if vendor_length > (data.len() - 4) as u64 || data.len() - 4 - (vendor_length as usize) < 4 {
        return comments;
    }
    let offset = 4 + vendor_length as usize;

    let comment_count = read_le_u32(data, offset);
    let mut offset = offset + 4;
    let ghost all = comments_from(data@, offset as int, comment_count as int);
    let mut k: u32 = 0;
    let ghost mut seen: Seq<(Seq<char>, Seq<char>)> = Seq::empty();
    assert(seen + comments_from(data@, offset as int, comment_count as int) =~= all);

    assert(vorbis_comments_of(data@) == first_values(all));
    while k < comment_count
        invariant
            vorbis_comments_of(data@) == first_values(all),
            offset <= data@.len(),
            k <= comment_count,
            seen + comments_from(data@, offset as int, (comment_count - k) as int) == all,
            pair_views(comments@) == first_values(seen),
        decreases comment_count - k,
    {
        if data.len() - offset < 4 {
            assert(comments_from(data@, offset as int, (comment_count - k) as int) =~= Seq::empty());
            assert(seen + Seq::<(Seq<char>, Seq<char>)>::empty() =~= seen);
            return comments;
        }
        let comment_length = read_le_u32(data, offset) as u64;
        let start = offset + 4;
        if comment_length > (data.len() - start) as u64 {
            assert(comments_from(data@, offset as int, (comment_count - k) as int) =~= Seq::empty());
            assert(seen + Seq::<(Seq<char>, Seq<char>)>::empty() =~= seen);
            return comments;
        }
        let end = start + comment_length as usize;
        let comment = decode_utf8_lossy(&data[start..end]);
        let ghost rest = comments_from(data@, end as int, (comment_count - k - 1) as int);
        let ghost here = match comment_pair(comment@) {
            Some(p) => seq![p],
            None => Seq::empty(),
        };
        assert(comments_from(data@, offset as int, (comment_count - k) as int) == here + rest);
        offset = end;

        // Split on first '='
        let cs = chars_of(comment.as_str());
        let mut eq: usize = 0;
        while eq < cs.len() && cs[eq] != '='
            invariant
                cs@ == comment@,
                eq <= cs@.len(),
                eq_sign_from(cs@, eq as int) == eq_sign_from(cs@, 0),
            decreases cs@.len() - eq,
        {
            eq = eq + 1;
        }
        let ghost before = seen;
        if eq < cs.len() && eq > 0 {
            let name = string_from_chars(&cs.as_slice()[0..eq]);
            let field = to_upper(name.as_str());
            let value = string_from_chars(&cs.as_slice()[eq + 1..cs.len()]);
            assert(name@ == comment@.take(eq as int));
            assert(value@ == comment@.skip(eq + 1));
            let ghost p = (field@, value@);
            assert(here == seq![p]);
            proof {
                seen = seen.push(p);
                assert(seen.drop_last() =~= before);
            }
            // Only store first value for each field
            match find_field(&comments, field.as_str()) {
                Some(_) => {},
                None => {
                    let ghost old_views = pair_views(comments@);
                    comments.push((field, value));
                    assert(pair_views(comments@) =~= old_views.push(p));
                },
            }
        } else {
            assert(here =~= Seq::<(Seq<char>, Seq<char>)>::empty());
        }
        assert(before + (here + rest) =~= seen + rest);
        k = k + 1;
    }
    assert(seen + Seq::<(Seq<char>, Seq<char>)>::empty() =~= seen);
    comments
}

/// The value of the first pair from `i` on with field name `k`.
pub open spec fn lookup_from(pairs: Seq<(Seq<char>, Seq<char>)>, i: int, k: Seq<char>) -> Option<Seq<char>>
    decreases pairs.len() - i,
{
    if i < 0 || i >= pairs.len() {
        None
    } else if pairs[i].0 == k {
        Some(pairs[i].1)
    } else {
        lookup_from(pairs, i + 1, k)
    }
}

/// The value of the first of `names` that the comments hold with a
/// non-empty value, cleaned.
#[verifier::opaque]
pub open spec fn field_value(pairs: Seq<(Seq<char>, Seq<char>)>, names: Seq<Seq<char>>) -> Option<Seq<char>>
    decreases names.len(),
{
    if names.len() == 0 {
        None
    } else {
        match lookup_from(pairs, 0, names[0]) {
            Some(v) => if v.len() > 0 { cleaned(v) } else { field_value(pairs, names.drop_first()) },
            None => field_value(pairs, names.drop_first()),
        }
    }
}

/// The views of a list of names.
pub open spec fn name_views(names: Seq<&str>) -> Seq<Seq<char>> {
    names.map_values(|n: &str| n@)
}

fn get_field_value(comments: &Vec<(String, String)>, names: &Vec<&str>) -> (r: Option<String>)
    ensures
        r is Some <==> field_value(pair_views(comments@), name_views(names@)) is Some,
        r matches Some(s) ==> field_value(pair_views(comments@), name_views(names@)) == Some(s@),
{
    let ghost pv = pair_views(comments@);
    let mut k: usize = 0;
    assert(name_views(names@).skip(0) =~= name_views(names@));
    while k < names.len()
        invariant
            pv == pair_views(comments@),
            k <= names@.len(),
            field_value(pv, name_views(names@)) == field_value(pv, name_views(names@).skip(k as int)),
        decreases names@.len() - k,
    {
        reveal(field_value);
        let ghost rest = name_views(names@).skip(k as int);
        assert(rest[0] == names@[k as int]@);
        assert(rest.drop_first() =~= name_views(names@).skip(k + 1));
        match find_field(comments, names[k]) {
            Some(i) => {
                if !comments[i].1.as_str().is_empty() {
                    return clean_text(Some(comments[i].1.clone()));
                }
            },
            None => {},
        }
        k = k + 1;
    }
    proof {
        reveal(field_value);
        assert(name_views(names@).skip(k as int) =~= Seq::<Seq<char>>::empty());
    }
    None
}

// ---------------------------------------------------------------------------
// Blocks.
// ---------------------------------------------------------------------------

/// A metadata block: its type, and where its body starts and how long it is.
pub struct BlockV {
    pub block_type: u8,
    pub offset: int,
    pub length: int,
}

/// The metadata blocks from `offset` on: each after a 4-byte header (a
/// last-block flag, the type, a 24-bit length); the walk stops after the
/// last block, at an empty block, or at one that overruns the file.
pub open spec fn blocks_from(c: Seq<u8>, offset: int) -> Seq<BlockV>
    decreases c.len() - offset,
{
    if offset < 0 || offset >= c.len() {
        Seq::empty()
    } else {
        let h = window(c, offset, 4);
        if h.len() < 4 {
            Seq::empty()
        } else {
            let len = h[1] as int * 0x1_0000 + h[2] as int * 0x100 + h[3] as int;
            if len == 0 || offset + 4 + len > c.len() {
                Seq::empty()
            } else {
                let here = BlockV { block_type: h[0] & 0x7fu8, offset: offset + 4, length: len };
                if h[0] & 0x80u8 != 0 {
                    seq![here]
                } else {
                    seq![here] + blocks_from(c, offset + 4 + len)
                }
            }
        }
    }
}

/// True when the file starts with the `fLaC` signature.
pub open spec fn is_flac(c: Seq<u8>) -> bool {
    window(c, 0, 4) == seq![0x66u8, 0x4c, 0x61, 0x43]
}

/// The views of the blocks.
pub open spec fn block_views(v: Seq<(u8, u64, u64)>) -> Seq<BlockV> {
    v.map_values(|b: (u8, u64, u64)| BlockV { block_type: b.0, offset: b.1 as int, length: b.2 as int })
}

/// The metadata blocks of a FLAC file: (block type, offset of the block
/// body, length); `None` when the file is not FLAC.
pub fn flac_blocks<R: FileReader>(reader: &R) -> (r: Result<Option<Vec<(u8, u64, u64)>>, Error>)
    ensures
        r matches Ok(o) ==> (o is Some <==> is_flac(reader.content())),
        r matches Ok(Some(v)) ==> block_views(v@) == blocks_from(reader.content(), 4),
        reader.reads_succeed() ==> r is Ok,
{
    let signature = reader.read(0, 4)?;
    if !(signature.len() == 4 && signature[0] == 0x66 && signature[1] == 0x4c && signature[2] == 0x61
        && signature[3] == 0x43) {
        assert(signature@ != seq![0x66u8, 0x4c, 0x61, 0x43]) by {
            if signature@.len() == 4 {
                assert(signature@[0] == seq![0x66u8, 0x4c, 0x61, 0x43][0] || signature@ != seq![0x66u8, 0x4c, 0x61, 0x43]);
            }
        }
        return Ok(None);
    }
    assert(signature@ =~= seq![0x66u8, 0x4c, 0x61, 0x43]);

    let size = reader.size();
    let ghost c = reader.content();
    let mut blocks: Vec<(u8, u64, u64)> = Vec::new();
    let mut offset: u64 = 4;
    assert(block_views(blocks@) + blocks_from(c, 4) =~= blocks_from(c, 4));
    while offset < size
        invariant
            is_flac(c),
            c == reader.content(),
            size == c.len(),
            offset <= size || offset == 4,
            block_views(blocks@) + blocks_from(c, offset as int) == blocks_from(c, 4),
        decreases size - offset,
    {
        let header = reader.read(offset, 4)?;
        if header.len() < 4 {
            assert(block_views(blocks@) + Seq::<BlockV>::empty() =~= block_views(blocks@));
            return Ok(Some(blocks));
        }
        let is_last = header[0] & 0x80 != 0;
        let block_type = header[0] & 0x7f;
        let block_length = (header[1] as u64) * 0x1_0000 + (header[2] as u64) * 0x100 + (header[3] as u64);
        if block_length == 0 || block_length > size - offset || size - offset - block_length < 4 {
            assert(block_views(blocks@) + Seq::<BlockV>::empty() =~= block_views(blocks@));
            return Ok(Some(blocks));
        }
        let ghost before = blocks@;
        let ghost here = BlockV { block_type, offset: offset + 4, length: block_length as int };
        blocks.push((block_type, offset + 4, block_length));
        assert(block_views(blocks@) =~= block_views(before).push(here));
        if is_last {
            assert(blocks_from(c, offset as int) == seq![here]);
            assert(block_views(before) + seq![here] =~= block_views(blocks@));
            return Ok(Some(blocks));
        }
        proof {
            let rest = blocks_from(c, offset + 4 + block_length);
            assert(blocks_from(c, offset as int) == seq![here] + rest);
            assert(block_views(before) + (seq![here] + rest) =~= block_views(blocks@) + rest);
        }
        offset = offset + 4 + block_length;
    }
    assert(blocks_from(c, offset as int) =~= Seq::<BlockV>::empty());
    assert(block_views(blocks@) + Seq::<BlockV>::empty() =~= block_views(blocks@));
    Ok(Some(blocks))
}

// ---------------------------------------------------------------------------
// Metadata.
// ---------------------------------------------------------------------------

/// The field names of each kind of comment. Vorbis never standardised a
/// label field, so taggers picked their own.
pub open spec fn label_names() -> Seq<Seq<char>> {
    seq!["LABEL"@, "PUBLISHER"@, "ORGANIZATION"@, "ORGANISATION"@]
}

pub open spec fn date_names() -> Seq<Seq<char>> {
    seq!["DATE"@, "YEAR"@]
}

pub open spec fn bpm_names() -> Seq<Seq<char>> {
    seq!["BPM"@, "TEMPO"@]
}

pub open spec fn key_names() -> Seq<Seq<char>> {
    seq!["KEY"@, "INITIALKEY"@]
}

/// A field that takes the first value found.
pub open spec fn keep_first(current: Option<Seq<char>>, found: Option<Seq<char>>) -> Option<Seq<char>> {
    if current is Some { current } else { found }
}

/// What a Vorbis comment block adds: the fields not yet found, and its
/// tempo.
#[verifier::opaque]
pub open spec fn vorbis_update(m: MetadataV, p: Seq<(Seq<char>, Seq<char>)>) -> MetadataV {
            MetadataV {
                title: keep_first(m.title, field_value(p, seq!["TITLE"@])),
                artist: keep_first(m.artist, field_value(p, seq!["ARTIST"@])),
                album: keep_first(m.album, field_value(p, seq!["ALBUM"@])),
                genre: keep_first(m.genre, field_value(p, seq!["GENRE"@])),
                label: keep_first(m.label, field_value(p, label_names())),
                year: if m.year is Some {
                    m.year
                } else {
                    match field_value(p, date_names()) {
                        Some(t) => year_of(vstd::utf8::encode_utf8(t)),
                        None => None,
                    }
                },
                bpm_tags: match field_value(p, bpm_names()) {
                    Some(t) => if holds_tempo(t) { m.bpm_tags.push(BpmTagV::Text(t)) } else { m.bpm_tags },
                    None => m.bpm_tags,
                },
                key: keep_first(m.key, field_value(p, key_names())),
                ..m
            }
}

/// One block's contribution: a Vorbis comment block fills the fields not
/// yet found and adds its tempo; a picture block offers a picture.
pub open spec fn flac_step(s: TagWalk, c: Seq<u8>, b: BlockV) -> TagWalk {
    let d = window(c, b.offset, b.length);
    if b.block_type == 4 {
        TagWalk { meta: vorbis_update(s.meta, vorbis_comments_of(d)), ..s }
    } else if b.block_type == 6 {
        match flac_picture_of(d) {
            Some(pic) => if pic.art.picture_type == PictureType::FrontCover {
                TagWalk { front: Some(pic.art), ..s }
            } else if s.any is None {
                TagWalk { any: Some(pic.art), ..s }
            } else {
                s
            },
            None => s,
        }
    } else {
        s
    }
}

/// The walk over a run of blocks, in order.
pub open spec fn flac_fold(c: Seq<u8>, blocks: Seq<BlockV>) -> TagWalk
    decreases blocks.len(),
{
    if blocks.len() == 0 {
        TagWalk { meta: empty_metadata(), front: None, any: None }
    } else {
        flac_step(flac_fold(c, blocks.drop_last()), c, blocks.last())
    }
}

/// The metadata of a FLAC file; `None` when it is not FLAC or holds nothing.
pub open spec fn flac_metadata(c: Seq<u8>) -> Option<MetadataV> {
    if !is_flac(c) {
        None
    } else {
        walk_result(flac_fold(c, blocks_from(c, 4)))
    }
}

fn names1(a: &'static str) -> (r: Vec<&'static str>)
    ensures
        name_views(r@) == seq![a@],
{
    let r = vec![a];
    assert(name_views(r@) =~= seq![a@]);
    r
}

fn names2(a: &'static str, b: &'static str) -> (r: Vec<&'static str>)
    ensures
        name_views(r@) == seq![a@, b@],
{
    let r = vec![a, b];
    assert(name_views(r@) =~= seq![a@, b@]);
    r
}

/// The metadata with a Vorbis comment block's fields added.
fn apply_comments(metadata: ExtractedMetadata, data: &[u8]) -> (r: ExtractedMetadata)
    ensures
        r@ == vorbis_update(metadata@, vorbis_comments_of(data@)),
{
    reveal(vorbis_update);
    let mut metadata = metadata;
    let comments = parse_vorbis_comment_block(data);
    let label_names_v = vec!["LABEL", "PUBLISHER", "ORGANIZATION", "ORGANISATION"];
    assert(name_views(label_names_v@) =~= label_names());
    let date_names_v = names2("DATE", "YEAR");
    let bpm_names_v = names2("BPM", "TEMPO");
    let key_names_v = names2("KEY", "INITIALKEY");
    let title_names_v = names1("TITLE");
    let artist_names_v = names1("ARTIST");
    let album_names_v = names1("ALBUM");
    let genre_names_v = names1("GENRE");

    if metadata.title.is_none() {
        metadata.title = get_field_value(&comments, &title_names_v);
    }
    if metadata.artist.is_none() {
        metadata.artist = get_field_value(&comments, &artist_names_v);
    }
    if metadata.album.is_none() {
        metadata.album = get_field_value(&comments, &album_names_v);
    }
    if metadata.genre.is_none() {
        metadata.genre = get_field_value(&comments, &genre_names_v);
    }
    if metadata.label.is_none() {
        metadata.label = get_field_value(&comments, &label_names_v);
    }
    if metadata.year.is_none() {
        match get_field_value(&comments, &date_names_v) {
            Some(date) => {
                metadata.year = parse_year(date.as_str());
            },
            None => {},
        }
    }
    match get_field_value(&comments, &bpm_names_v) {
        Some(bpm) => {
            if text_holds_tempo(bpm.as_str()) {
                let ghost old_tags = metadata.bpm_tags@;
                let ghost tv = BpmTagV::Text(bpm@);
                metadata.bpm_tags.push(BpmTag::Text(bpm));
                assert(metadata.bpm_tags@.map_values(|b: BpmTag| b@) =~= old_tags.map_values(|b: BpmTag| b@).push(
                    tv,
                ));
            }
        },
        None => {},
    }
    if metadata.key.is_none() {
        metadata.key = get_field_value(&comments, &key_names_v);
    }
    metadata
}

/// Extract metadata from a FLAC file.
pub fn extract_from_flac<R: FileReader>(reader: &R) -> (r: Result<Option<ExtractedMetadata>, Error>)
    ensures
        r matches Ok(o) ==> meta_view(o) == flac_metadata(reader.content()),
        reader.reads_succeed() ==> r is Ok,
{
    let blocks = match flac_blocks(reader)? {
        Some(b) => b,
        None => return Ok(None),
    };
    let ghost c = reader.content();
    let ghost bv = block_views(blocks@);


    let mut metadata = ExtractedMetadata::new();
    let mut front_cover: Option<ArtworkResult> = None;
    let mut any_artwork: Option<ArtworkResult> = None;
    let mut i: usize = 0;
    while i < blocks.len()
        invariant
            c == reader.content(),
            bv == block_views(blocks@),
            i <= blocks@.len(),
            flac_fold(c, bv.take(i as int)) == (TagWalk {
                meta: metadata@,
                front: art_opt(front_cover),
                any: art_opt(any_artwork),
            }),
        decreases blocks@.len() - i,
    {
        let ghost before = TagWalk { meta: metadata@, front: art_opt(front_cover), any: art_opt(any_artwork) };
        assert(bv.take(i + 1).drop_last() =~= bv.take(i as int));
        let (block_type, body_offset, length) = blocks[i];
        if block_type == 4 {
            let data = reader.read(body_offset, length)?;
            metadata = apply_comments(metadata, data.as_slice());
        } else if block_type == 6 {
            let data = reader.read(body_offset, length)?;
            match parse_picture_block(data.as_slice()) {
                Some(artwork) => {
                    if artwork.picture_type == PictureType::FrontCover {
                        front_cover = Some(artwork);
                    } else if any_artwork.is_none() {
                        any_artwork = Some(artwork);
                    }
                },
                None => {},
            }
        }
        assert(flac_step(before, c, bv[i as int]) == (TagWalk {
            meta: metadata@,
            front: art_opt(front_cover),
            any: art_opt(any_artwork),
        }));
        i = i + 1;
    }
    assert(bv.take(blocks@.len() as int) =~= bv);

    let artwork = match front_cover {
        Some(a) => Some(a),
        None => any_artwork,
    };
    match artwork {
        Some(a) => {
            metadata.artwork = Some(a.data);
            metadata.artwork_mime_type = Some(a.mime_type);
        },
        None => {},
    }

    if metadata.is_empty() {
        return Ok(None);
    }
    Ok(Some(metadata))
}

/// The value of the first comment named `name`, where it is not empty.
pub open spec fn named_value(p: Seq<(Seq<char>, Seq<char>)>, name: Seq<char>) -> Option<Seq<char>> {
    match lookup_from(p, 0, name) {
        Some(v) => if v.len() > 0 { Some(v) } else { None },
        None => None,
    }
}

/// A field that a comment block fills when it is not yet found: `found`.
pub open spec fn filled(current: Option<Seq<char>>, found: Option<Seq<char>>) -> Option<Seq<char>> {
    if current is Some { current } else { found }
}

/// The cleaned value of the first of two names that has a non-empty value.
pub open spec fn first_of_two(p: Seq<(Seq<char>, Seq<char>)>, a: Seq<char>, b: Seq<char>) -> Option<Seq<char>> {
    if named_value(p, a) is Some {
        cleaned(named_value(p, a)->0)
    } else if named_value(p, b) is Some {
        cleaned(named_value(p, b)->0)
    } else {
        None
    }
}

/// What a Vorbis comment block (its comments `p`, field names upper-cased)
/// gives the fields not yet found: the title is the cleaned value of the
/// comment named TITLE, the artist of ARTIST, the album of ALBUM, the genre
/// of GENRE; the label of the first of LABEL, PUBLISHER, ORGANIZATION and
/// ORGANISATION with a value; the key of KEY, else INITIALKEY; the year is
/// read from DATE, else YEAR; the tempo text of BPM, else TEMPO, is kept
/// where it holds a tempo. A field already found keeps its value.
pub proof fn law_vorbis_fields_by_name(m: MetadataV, p: Seq<(Seq<char>, Seq<char>)>)
    ensures
        vorbis_update(m, p).title == filled(m.title, match named_value(p, "TITLE"@) {
            Some(v) => cleaned(v),
            None => None,
        }),
        vorbis_update(m, p).artist == filled(m.artist, match named_value(p, "ARTIST"@) {
            Some(v) => cleaned(v),
            None => None,
        }),
        vorbis_update(m, p).album == filled(m.album, match named_value(p, "ALBUM"@) {
            Some(v) => cleaned(v),
            None => None,
        }),
        vorbis_update(m, p).genre == filled(m.genre, match named_value(p, "GENRE"@) {
            Some(v) => cleaned(v),
            None => None,
        }),
        vorbis_update(m, p).key == filled(m.key, first_of_two(p, "KEY"@, "INITIALKEY"@)),
        vorbis_update(m, p).label == filled(m.label, if named_value(p, "LABEL"@) is Some || named_value(p, "PUBLISHER"@) is Some {
            first_of_two(p, "LABEL"@, "PUBLISHER"@)
        } else {
            first_of_two(p, "ORGANIZATION"@, "ORGANISATION"@)
        }),
        vorbis_update(m, p).year == (if m.year is Some {
            m.year
        } else {
            match first_of_two(p, "DATE"@, "YEAR"@) {
                Some(t) => year_of(vstd::utf8::encode_utf8(t)),
                None => None,
            }
        }),
        vorbis_update(m, p).bpm_tags == match first_of_two(p, "BPM"@, "TEMPO"@) {
            Some(t) => if holds_tempo(t) { m.bpm_tags.push(BpmTagV::Text(t)) } else { m.bpm_tags },
            None => m.bpm_tags,
        },
        vorbis_update(m, p).artwork == m.artwork,
{
    reveal(vorbis_update);
    reveal_with_fuel(field_value, 5);
}

} // verus!
