//! MP4 / M4A iTunes metadata atom parsing.

pub mod atom_types;
pub mod items;

use vstd::prelude::*;
use crate::bytes::{be_u16, be_u32, read_be_u16, read_be_u32};
use crate::error::Error;
use crate::metadata::parsers::id3::meta_view;
use crate::metadata::parsers::utils::{
    clean_text, cleaned, detect_image_type, first_four_digits, four_digit_value, id3v1_genre, id3v1_genre_name,
    image_type_of, parse_year, year_of,
};
use crate::metadata::parsers::flac::keep_first;
use crate::metadata::types::{
    window, ArtworkMimeType, BpmTag, BpmTagV, ExtractedMetadata, FileReader, MetadataV, empty_metadata, view_empty,
};
use crate::text::{decode_utf8_lossy, str_eq, to_upper, uppercase, utf8_lossy};

verus! {

broadcast use vstd::slice::group_slice_axioms;

/// MP4 atom header information.
#[derive(Debug, Clone, Copy, PartialEq, Eq)]
pub struct AtomHeader {
    pub size: u64,
    pub atom_type: [u8; 4],
    pub header_size: u64,
}

/// MP4 atom location.
#[derive(Debug, Clone, Copy, PartialEq, Eq, Structural)]
pub struct AtomLocation {
    pub data_offset: u64,
    pub data_size: u64,
}

/// `a + b`, or the largest 64-bit value where that overflows.
pub open spec fn sat_add(a: int, b: int) -> int {
    if a + b > u64::MAX { u64::MAX as int } else { a + b }
}

/// `a - b`, or zero where that is negative.
pub open spec fn sat_sub(a: int, b: int) -> int {
    if a > b { a - b } else { 0 }
}

pub(crate) fn add_sat(a: u64, b: u64) -> (r: u64)
    ensures
        r == sat_add(a as int, b as int),
{
    if a > u64::MAX - b { u64::MAX } else { a + b }
}

fn sub_sat(a: u64, b: u64) -> (r: u64)
    ensures
        r == sat_sub(a as int, b as int),
{
    if a > b { a - b } else { 0 }
}

/// The big-endian 64-bit value at `i`.
pub open spec fn be_u64(s: Seq<u8>, i: int) -> int {
    be_u32(s, i) as int * 0x1_0000_0000 + be_u32(s, i + 4) as int
}

/// An atom header: its size, type and header length.
pub struct HeaderV {
    pub size: int,
    pub atom_type: Seq<u8>,
    pub header_size: int,
}

/// The view of an atom header.
pub open spec fn header_view(h: AtomHeader) -> HeaderV {
    HeaderV { size: h.size as int, atom_type: h.atom_type@, header_size: h.header_size as int }
}

/// The header of the atom at `offset`: a 32-bit size and a 4-byte type;
/// size 1 means a 64-bit size follows, size 0 that the atom runs to the end
/// of the file; `None` where the header does not fit in the file.
pub open spec fn atom_header_at(c: Seq<u8>, offset: int) -> Option<HeaderV> {
    if offset + 8 > c.len() {
        None
    } else {
        let size = be_u32(c, offset);
        let t = c.subrange(offset + 4, offset + 8);
        if size == 1 {
            if offset + 16 > c.len() {
                None
            } else {
                Some(HeaderV { size: be_u64(c, offset + 8), atom_type: t, header_size: 16 })
            }
        } else if size == 0 {
            Some(HeaderV { size: c.len() - offset, atom_type: t, header_size: 8 })
        } else {
            Some(HeaderV { size: size as int, atom_type: t, header_size: 8 })
        }
    }
}

/// Read an MP4 atom header.
pub fn read_atom_header<R: FileReader>(reader: &R, offset: u64) -> (r: Result<Option<AtomHeader>, Error>)
    ensures
        r matches Ok(o) ==> match o {
            Some(h) => atom_header_at(reader.content(), offset as int) == Some(header_view(h)),
            None => atom_header_at(reader.content(), offset as int) is None,
        },
        reader.reads_succeed() ==> r is Ok,
{
    let size = reader.size();
    if size < 8 || offset > size - 8 {
        return Ok(None);
    }
    let ghost c = reader.content();

    let header = reader.read(offset, 8)?;
    if header.len() < 8 {
        return Ok(None);
    }
    assert(header@ == c.subrange(offset as int, offset + 8));
    let atom_size = read_be_u32(header.as_slice(), 0) as u64;
    let atom_type: [u8; 4] = [header[4], header[5], header[6], header[7]];
    assert(atom_type@ =~= c.subrange(offset + 4, offset + 8));

    // Extended size (64-bit)
    if atom_size == 1 {
        if size < 16 || offset > size - 16 {
            return Ok(None);
        }
        let ext = reader.read(offset + 8, 8)?;
        if ext.len() < 8 {
            return Ok(None);
        }
        assert(ext@ == c.subrange(offset + 8, offset + 16));
        let hi = read_be_u32(ext.as_slice(), 0) as u64;
        let lo = read_be_u32(ext.as_slice(), 4) as u64;
        return Ok(Some(AtomHeader { size: hi * 0x1_0000_0000 + lo, atom_type, header_size: 16 }));
    }

    // Size 0 means atom extends to end of file
    if atom_size == 0 {
        return Ok(Some(AtomHeader { size: size - offset, atom_type, header_size: 8 }));
    }

    Ok(Some(AtomHeader { size: atom_size, atom_type, header_size: 8 }))
}

/// A found atom: where its body starts and how long it is.
pub open spec fn loc_view(l: AtomLocation) -> (int, int) {
    (l.data_offset as int, l.data_size as int)
}

/// The first atom of type `target` among the atoms from `offset` up to
/// `end`, walking atom by atom; the walk stops at a header that does not
/// fit, an atom of size zero, or the end.
pub open spec fn find_from(c: Seq<u8>, offset: int, end: int, target: Seq<u8>) -> Option<(int, int)>
    decreases end - offset,
{
    if offset >= end {
        None
    } else {
        match atom_header_at(c, offset) {
            None => None,
            Some(h) => if h.size == 0 {
                None
            } else if h.atom_type == target {
                Some((offset + h.header_size, sat_sub(h.size, h.header_size)))
            } else if offset + h.size >= end {
                None
            } else {
                find_from(c, offset + h.size, end, target)
            },
        }
    }
}

/// Find an atom within a range.
pub fn find_atom<R: FileReader>(reader: &R, start: u64, end: u64, target: &[u8; 4]) -> (r: Result<Option<AtomLocation>, Error>)
    ensures
        r matches Ok(o) ==> match o {
            Some(l) => find_from(reader.content(), start as int, end as int, target@) == Some(loc_view(l)),
            None => find_from(reader.content(), start as int, end as int, target@) is None,
        },
        reader.reads_succeed() ==> r is Ok,
{
    let ghost c = reader.content();
    let fsize = reader.size();
    let mut offset = start;
    while offset < end
        invariant
            c == reader.content(),
            fsize == c.len(),
            find_from(c, offset as int, end as int, target@) == find_from(c, start as int, end as int, target@),
        decreases end - offset,
    {
        let header = match read_atom_header(reader, offset)? {
            Some(h) => h,
            None => return Ok(None),
        };
        if header.size == 0 {
            return Ok(None);
        }
        if header.atom_type[0] == target[0] && header.atom_type[1] == target[1] && header.atom_type[2] == target[2]
            && header.atom_type[3] == target[3] {
            assert(header.atom_type@ =~= target@);
            assert(offset + header.header_size <= fsize);
            return Ok(Some(AtomLocation { data_offset: offset + header.header_size, data_size: sub_sat(header.size, header.header_size) }));
        }
        assert(header.atom_type@ != target@) by {
            if header.atom_type@ == target@ {
                assert(header.atom_type@[0] == target@[0]);
                assert(header.atom_type@[1] == target@[1]);
                assert(header.atom_type@[2] == target@[2]);
                assert(header.atom_type@[3] == target@[3]);
            }
        }
        if header.size >= end - offset {
            return Ok(None);
        }
        offset = offset + header.size;
    }
    Ok(None)
}

// ---------------------------------------------------------------------------
// Atom types.
// ---------------------------------------------------------------------------

/// The `moov` atom type.
pub open spec fn moov_type() -> Seq<u8> {
    seq![0x6du8, 0x6f, 0x6f, 0x76]
}

/// The `udta` atom type.
pub open spec fn udta_type() -> Seq<u8> {
    seq![0x75u8, 0x64, 0x74, 0x61]
}

/// The `meta` atom type.
pub open spec fn meta_type() -> Seq<u8> {
    seq![0x6du8, 0x65, 0x74, 0x61]
}

/// The `ilst` atom type.
pub open spec fn ilst_type() -> Seq<u8> {
    seq![0x69u8, 0x6c, 0x73, 0x74]
}

/// The `data` atom type.
pub open spec fn data_type() -> Seq<u8> {
    seq![0x64u8, 0x61, 0x74, 0x61]
}

/// The `name` atom type.
pub open spec fn name_type() -> Seq<u8> {
    seq![0x6eu8, 0x61, 0x6d, 0x65]
}

/// The `ftyp` atom type.
pub open spec fn ftyp_type() -> Seq<u8> {
    seq![0x66u8, 0x74, 0x79, 0x70]
}

/// Cover artwork (`covr`).
pub open spec fn covr_type() -> Seq<u8> {
    seq![0x63u8, 0x6f, 0x76, 0x72]
}

/// Title (`©nam`).
pub open spec fn title_type() -> Seq<u8> {
    seq![0xa9u8, 0x6e, 0x61, 0x6d]
}

/// Artist (`©ART`).
pub open spec fn artist_type() -> Seq<u8> {
    seq![0xa9u8, 0x41, 0x52, 0x54]
}

/// Album (`©alb`).
pub open spec fn album_type() -> Seq<u8> {
    seq![0xa9u8, 0x61, 0x6c, 0x62]
}

/// Genre as text (`©gen`).
pub open spec fn genre_type() -> Seq<u8> {
    seq![0xa9u8, 0x67, 0x65, 0x6e]
}

/// Genre as an ID3v1 number (`gnre`).
pub open spec fn genre_id_type() -> Seq<u8> {
    seq![0x67u8, 0x6e, 0x72, 0x65]
}

/// Release date or year (`©day`).
pub open spec fn year_type() -> Seq<u8> {
    seq![0xa9u8, 0x64, 0x61, 0x79]
}

/// Tempo (`tmpo`).
pub open spec fn bpm_type() -> Seq<u8> {
    seq![0x74u8, 0x6d, 0x70, 0x6f]
}

/// A non-standard field, named by its own `name` atom (`----`).
pub open spec fn freeform_type() -> Seq<u8> {
    seq![0x2du8, 0x2d, 0x2d, 0x2d]
}

fn moov_type_bytes() -> (r: [u8; 4])
    ensures
        r@ == moov_type(),
{
    let r: [u8; 4] = [0x6d, 0x6f, 0x6f, 0x76];
    assert(r@ =~= moov_type());
    r
}

fn udta_type_bytes() -> (r: [u8; 4])
    ensures
        r@ == udta_type(),
{
    let r: [u8; 4] = [0x75, 0x64, 0x74, 0x61];
    assert(r@ =~= udta_type());
    r
}

fn meta_type_bytes() -> (r: [u8; 4])
    ensures
        r@ == meta_type(),
{
    let r: [u8; 4] = [0x6d, 0x65, 0x74, 0x61];
    assert(r@ =~= meta_type());
    r
}

fn ilst_type_bytes() -> (r: [u8; 4])
    ensures
        r@ == ilst_type(),
{
    let r: [u8; 4] = [0x69, 0x6c, 0x73, 0x74];
    assert(r@ =~= ilst_type());
    r
}

fn data_type_bytes() -> (r: [u8; 4])
    ensures
        r@ == data_type(),
{
    let r: [u8; 4] = [0x64, 0x61, 0x74, 0x61];
    assert(r@ =~= data_type());
    r
}

fn name_type_bytes() -> (r: [u8; 4])
    ensures
        r@ == name_type(),
{
    let r: [u8; 4] = [0x6e, 0x61, 0x6d, 0x65];
    assert(r@ =~= name_type());
    r
}

fn ftyp_type_bytes() -> (r: [u8; 4])
    ensures
        r@ == ftyp_type(),
{
    let r: [u8; 4] = [0x66, 0x74, 0x79, 0x70];
    assert(r@ =~= ftyp_type());
    r
}

pub(crate) fn covr_type_bytes() -> (r: [u8; 4])
    ensures
        r@ == covr_type(),
{
    let r: [u8; 4] = [0x63, 0x6f, 0x76, 0x72];
    assert(r@ =~= covr_type());
    r
}

fn title_type_bytes() -> (r: [u8; 4])
    ensures
        r@ == title_type(),
{
    let r: [u8; 4] = [0xa9, 0x6e, 0x61, 0x6d];
    assert(r@ =~= title_type());
    r
}

fn artist_type_bytes() -> (r: [u8; 4])
    ensures
        r@ == artist_type(),
{
    let r: [u8; 4] = [0xa9, 0x41, 0x52, 0x54];
    assert(r@ =~= artist_type());
    r
}

fn album_type_bytes() -> (r: [u8; 4])
    ensures
        r@ == album_type(),
{
    let r: [u8; 4] = [0xa9, 0x61, 0x6c, 0x62];
    assert(r@ =~= album_type());
    r
}

fn genre_type_bytes() -> (r: [u8; 4])
    ensures
        r@ == genre_type(),
{
    let r: [u8; 4] = [0xa9, 0x67, 0x65, 0x6e];
    assert(r@ =~= genre_type());
    r
}

fn genre_id_type_bytes() -> (r: [u8; 4])
    ensures
        r@ == genre_id_type(),
{
    let r: [u8; 4] = [0x67, 0x6e, 0x72, 0x65];
    assert(r@ =~= genre_id_type());
    r
}

fn year_type_bytes() -> (r: [u8; 4])
    ensures
        r@ == year_type(),
{
    let r: [u8; 4] = [0xa9, 0x64, 0x61, 0x79];
    assert(r@ =~= year_type());
    r
}

fn bpm_type_bytes() -> (r: [u8; 4])
    ensures
        r@ == bpm_type(),
{
    let r: [u8; 4] = [0x74, 0x6d, 0x70, 0x6f];
    assert(r@ =~= bpm_type());
    r
}

fn freeform_type_bytes() -> (r: [u8; 4])
    ensures
        r@ == freeform_type(),
{
    let r: [u8; 4] = [0x2d, 0x2d, 0x2d, 0x2d];
    assert(r@ =~= freeform_type());
    r
}


// ---------------------------------------------------------------------------
// The iTunes metadata list.
// ---------------------------------------------------------------------------

/// The `moov` atom (which holds all metadata).
pub open spec fn moov_of(c: Seq<u8>) -> Option<(int, int)> {
    find_from(c, 0, c.len() as int, moov_type())
}

/// Find the moov atom (contains all metadata).
pub fn find_moov_atom<R: FileReader>(reader: &R) -> (r: Result<Option<AtomLocation>, Error>)
    ensures
        r matches Ok(o) ==> match o {
            Some(l) => moov_of(reader.content()) == Some(loc_view(l)),
            None => moov_of(reader.content()) is None,
        },
        reader.reads_succeed() ==> r is Ok,
{
    let t = moov_type_bytes();
    find_atom(reader, 0, reader.size(), &t)
}

/// The `ilst` atom within `moov`: moov -> udta -> meta -> ilst; the meta
/// atom has 4 bytes of version and flags before its child atoms.
pub open spec fn ilst_in(c: Seq<u8>, moov: (int, int)) -> Option<(int, int)> {
    match find_from(c, moov.0, sat_add(moov.0, moov.1), udta_type()) {
        None => None,
        Some(u) => match find_from(c, u.0, sat_add(u.0, u.1), meta_type()) {
            None => None,
            Some(m) => find_from(c, sat_add(m.0, 4), sat_add(m.0, m.1), ilst_type()),
        },
    }
}

/// Navigate to the ilst (iTunes metadata list) atom: moov -> udta -> meta -> ilst.
pub fn find_ilst_atom<R: FileReader>(reader: &R, moov: AtomLocation) -> (r: Result<Option<AtomLocation>, Error>)
    ensures
        r matches Ok(o) ==> match o {
            Some(l) => ilst_in(reader.content(), loc_view(moov)) == Some(loc_view(l)),
            None => ilst_in(reader.content(), loc_view(moov)) is None,
        },
        reader.reads_succeed() ==> r is Ok,
{
    let t = udta_type_bytes();
    let udta = match find_atom(reader, moov.data_offset, add_sat(moov.data_offset, moov.data_size), &t)? {
        Some(u) => u,
        None => return Ok(None),
    };
    let t = meta_type_bytes();
    let meta = match find_atom(reader, udta.data_offset, add_sat(udta.data_offset, udta.data_size), &t)? {
        Some(m) => m,
        None => return Ok(None),
    };
    // meta atom has 4 bytes of version/flags before child atoms
    let meta_start = add_sat(meta.data_offset, 4);
    let meta_end = add_sat(meta.data_offset, meta.data_size);
    let t = ilst_type_bytes();
    find_atom(reader, meta_start, meta_end, &t)
}

/// The text of the `data` atom within an item: after 4 bytes of type and
/// 4 of locale, cleaned.
pub open spec fn text_atom(c: Seq<u8>, offset: int, size: int) -> Option<Seq<char>> {
    match find_from(c, offset, sat_add(offset, size), data_type()) {
        None => None,
        Some(d) => if d.1 < 8 { None } else { cleaned(utf8_lossy(window(c, sat_add(d.0, 8), d.1 - 8))) },
    }
}

/// Read a text data atom value.
fn read_text_data_atom<R: FileReader>(reader: &R, offset: u64, size: u64) -> (r: Result<Option<String>, Error>)
    ensures
        r matches Ok(o) ==> (o is Some <==> text_atom(reader.content(), offset as int, size as int) is Some),
        r matches Ok(Some(s)) ==> text_atom(reader.content(), offset as int, size as int) == Some(s@),
        reader.reads_succeed() ==> r is Ok,
{
    let t = data_type_bytes();
    let data = match find_atom(reader, offset, add_sat(offset, size), &t)? {
        Some(d) => d,
        None => return Ok(None),
    };
    if data.data_size < 8 {
        return Ok(None);
    }
    // data atom: 4 bytes type + 4 bytes locale + actual data
    let content = reader.read(add_sat(data.data_offset, 8), data.data_size - 8)?;
    Ok(clean_text(Some(decode_utf8_lossy(content.as_slice()))))
}

/// The number in the `data` atom within an item (BPM, genre id): 16-bit
/// big-endian.
pub open spec fn numeric_atom(c: Seq<u8>, offset: int, size: int) -> Option<u16> {
    match find_from(c, offset, sat_add(offset, size), data_type()) {
        None => None,
        Some(d) => if d.1 < 10 {
            None
        } else if window(c, sat_add(d.0, 8), d.1 - 8).len() >= 2 {
            Some(be_u16(window(c, sat_add(d.0, 8), d.1 - 8), 0))
        } else {
            None
        },
    }
}

/// Read a numeric data atom value (for BPM, genre ID).
fn read_numeric_data_atom<R: FileReader>(reader: &R, offset: u64, size: u64) -> (r: Result<Option<u16>, Error>)
    ensures
        r matches Ok(o) ==> o == numeric_atom(reader.content(), offset as int, size as int),
        reader.reads_succeed() ==> r is Ok,
{
    let t = data_type_bytes();
    let data = match find_atom(reader, offset, add_sat(offset, size), &t)? {
        Some(d) => d,
        None => return Ok(None),
    };
    if data.data_size < 10 {
        return Ok(None);
    }
    let content = reader.read(add_sat(data.data_offset, 8), data.data_size - 8)?;
    // BPM is typically stored as 16-bit big-endian
    if content.len() >= 2 {
        return Ok(Some(read_be_u16(content.as_slice(), 0)));
    }
    Ok(None)
}

/// The field name of a freeform (`----`) item: its `name` atom, after 4
/// bytes of version and flags, cleaned.
pub open spec fn freeform_name(c: Seq<u8>, offset: int, size: int) -> Option<Seq<char>> {
    match find_from(c, offset, sat_add(offset, size), name_type()) {
        None => None,
        Some(n) => if n.1 < 4 { None } else { cleaned(utf8_lossy(window(c, sat_add(n.0, 4), n.1 - 4))) },
    }
}

/// Read the field name out of an iTunes freeform ('----') atom.
///
/// iTunes never standardised an atom for the record label, so taggers store
/// it as a freeform atom instead: a 'mean' atom holding the namespace, a
/// 'name' atom holding the field name, and the usual 'data' atom holding
/// the value.
fn read_freeform_name<R: FileReader>(reader: &R, offset: u64, size: u64) -> (r: Result<Option<String>, Error>)
    ensures
        r matches Ok(o) ==> (o is Some <==> freeform_name(reader.content(), offset as int, size as int) is Some),
        r matches Ok(Some(s)) ==> freeform_name(reader.content(), offset as int, size as int) == Some(s@),
        reader.reads_succeed() ==> r is Ok,
{
    let t = name_type_bytes();
    let name = match find_atom(reader, offset, add_sat(offset, size), &t)? {
        Some(n) => n,
        None => return Ok(None),
    };
    if name.data_size < 4 {
        return Ok(None);
    }
    // name atom: 4 bytes version/flags + the field name
    let content = reader.read(add_sat(name.data_offset, 4), name.data_size - 4)?;
    Ok(clean_text(Some(decode_utf8_lossy(content.as_slice()))))
}

/// The cover of a `covr` item: the image in its `data` atom, typed by its
/// magic bytes (JPEG where they say nothing).
pub open spec fn cover_atom(c: Seq<u8>, offset: int, size: int) -> Option<(Seq<u8>, ArtworkMimeType)> {
    match find_from(c, offset, sat_add(offset, size), data_type()) {
        None => None,
        Some(d) => if d.1 < 8 {
            None
        } else {
            let image = window(c, sat_add(d.0, 8), d.1 - 8);
            if image.len() == 0 {
                None
            } else {
                Some((image, match image_type_of(image) { Some(m) => m, None => ArtworkMimeType::Jpeg }))
            }
        },
    }
}

/// Read cover artwork from the covr atom.
pub fn read_cover_artwork<R: FileReader>(reader: &R, offset: u64, size: u64) -> (r: Result<Option<(Vec<u8>, ArtworkMimeType)>, Error>)
    ensures
        r matches Ok(o) ==> (o is Some <==> cover_atom(reader.content(), offset as int, size as int) is Some),
        r matches Ok(Some((v, m))) ==> cover_atom(reader.content(), offset as int, size as int) == Some((v@, m)),
        reader.reads_succeed() ==> r is Ok,
{
    let t = data_type_bytes();
    let data = match find_atom(reader, offset, add_sat(offset, size), &t)? {
        Some(d) => d,
        None => return Ok(None),
    };
    if data.data_size < 8 {
        return Ok(None);
    }
    let image = reader.read(add_sat(data.data_offset, 8), data.data_size - 8)?;
    if image.len() == 0 {
        return Ok(None);
    }
    let mime = match detect_image_type(image.as_slice()) {
        Some(m) => m,
        None => ArtworkMimeType::Jpeg,
    };
    Ok(Some((image, mime)))
}

/// True when the file starts with an `ftyp` atom.
pub open spec fn is_mp4_file(c: Seq<u8>) -> bool {
    window(c, 0, 8).len() >= 8 && window(c, 0, 8).subrange(4, 8) == ftyp_type()
}

/// True when the file starts with an `ftyp` atom.
pub fn is_mp4<R: FileReader>(reader: &R) -> (r: Result<bool, Error>)
    ensures
        r matches Ok(b) ==> b == is_mp4_file(reader.content()),
        reader.reads_succeed() ==> r is Ok,
{
    let header = reader.read(0, 8)?;
    if header.len() < 8 {
        return Ok(false);
    }
    let b = header[4] == 0x66 && header[5] == 0x74 && header[6] == 0x79 && header[7] == 0x70;
    assert(b == (header@.subrange(4, 8) == ftyp_type())) by {
        if header@.subrange(4, 8) == ftyp_type() {
            assert(header@.subrange(4, 8)[0] == ftyp_type()[0]);
            assert(header@.subrange(4, 8)[1] == ftyp_type()[1]);
            assert(header@.subrange(4, 8)[2] == ftyp_type()[2]);
            assert(header@.subrange(4, 8)[3] == ftyp_type()[3]);
        }
        if b {
            assert(header@.subrange(4, 8) =~= ftyp_type());
        }
    }
    Ok(b)
}

// ---------------------------------------------------------------------------
// Metadata.
// ---------------------------------------------------------------------------

/// The value of the first run of four digits, with no range check.
pub open spec fn any_four_digits(b: Seq<u8>) -> Option<u32> {
    match first_four_digits(b, 0) {
        Some(i) => Some(four_digit_value(b, i) as u32),
        None => None,
    }
}

/// The first run of four digits in a string, as the year atom is read
/// where it is not a plain year (which is not range-checked).
fn four_digits(s: &str) -> (r: Option<u32>)
    ensures
        r == any_four_digits(vstd::utf8::encode_utf8(s@)),
{
    let bytes = s.as_bytes();
    assert(bytes@ == vstd::utf8::encode_utf8(s@));
    match crate::metadata::parsers::utils::find_four_digits(bytes, 0) {
        Some((_, v)) => Some(v),
        None => None,
    }
}

/// The items of the `ilst` atom from `offset` up to `end`: each item's
/// header and where it starts.
pub open spec fn items_from(c: Seq<u8>, offset: int, end: int) -> Seq<(HeaderV, int)>
    decreases end - offset,
{
    if offset >= end {
        Seq::empty()
    } else {
        match atom_header_at(c, offset) {
            None => Seq::empty(),
            Some(h) => if h.size == 0 {
                Seq::empty()
            } else if offset + h.size >= end {
                seq![(h, offset)]
            } else {
                seq![(h, offset)] + items_from(c, offset + h.size, end)
            },
        }
    }
}

/// True when the freeform field name names the record label.
pub open spec fn is_label_name(n: Seq<char>) -> bool {
    uppercase(n) == "LABEL"@ || uppercase(n) == "PUBLISHER"@ || uppercase(n) == "ORGANIZATION"@
}

/// One item's contribution to the metadata.
pub open spec fn mp4_step(m: MetadataV, c: Seq<u8>, item: (HeaderV, int)) -> MetadataV {
    let h = item.0;
    let o = item.1 + h.header_size;
    let n = sat_sub(h.size, h.header_size);
    let t = h.atom_type;
    if t == title_type() {
        MetadataV { title: keep_first(m.title, text_atom(c, o, n)), ..m }
    } else if t == artist_type() {
        MetadataV { artist: keep_first(m.artist, text_atom(c, o, n)), ..m }
    } else if t == album_type() {
        MetadataV { album: keep_first(m.album, text_atom(c, o, n)), ..m }
    } else if t == genre_type() {
        MetadataV { genre: keep_first(m.genre, text_atom(c, o, n)), ..m }
    } else if t == genre_id_type() {
        match numeric_atom(c, o, n) {
            // MP4 genre IDs are 1-based
            Some(id) => if m.genre is None {
                MetadataV { genre: if id >= 1 { id3v1_genre_name((id - 1) as usize) } else { None }, ..m }
            } else {
                m
            },
            None => m,
        }
    } else if t == year_type() {
        match text_atom(c, o, n) {
            Some(y) => if m.year is None {
                MetadataV {
                    year: match year_of(vstd::utf8::encode_utf8(y)) {
                        Some(v) => Some(v),
                        None => any_four_digits(vstd::utf8::encode_utf8(y)),
                    },
                    ..m
                }
            } else {
                m
            },
            None => m,
        }
    } else if t == bpm_type() {
        match numeric_atom(c, o, n) {
            Some(b) => if 0 < b < 500 { MetadataV { bpm_tags: m.bpm_tags.push(BpmTagV::Whole(b)), ..m } } else { m },
            None => m,
        }
    } else if t == freeform_type() {
        if m.label is None {
            match freeform_name(c, o, n) {
                Some(name) => if is_label_name(name) { MetadataV { label: text_atom(c, o, n), ..m } } else { m },
                None => m,
            }
        } else {
            m
        }
    } else if t == covr_type() && m.artwork is None {
        match cover_atom(c, o, n) {
            Some(cv) => MetadataV { artwork: Some(cv.0), artwork_mime_type: Some(cv.1), ..m },
            None => m,
        }
    } else {
        m
    }
}

/// The walk over a run of items, in order.
pub open spec fn mp4_walk(m: MetadataV, c: Seq<u8>, items: Seq<(HeaderV, int)>) -> MetadataV
    decreases items.len(),
{
    if items.len() == 0 {
        m
    } else {
        mp4_walk(mp4_step(m, c, items[0]), c, items.drop_first())
    }
}

/// The metadata of an MP4 file; `None` when it is not MP4, has no
/// metadata list, or the list holds nothing.
pub open spec fn mp4_metadata(c: Seq<u8>) -> Option<MetadataV> {
    if !is_mp4_file(c) {
        None
    } else {
        match moov_of(c) {
            None => None,
            Some(moov) => match ilst_in(c, moov) {
                None => None,
                Some(l) => {
                    let m = mp4_walk(empty_metadata(), c, items_from(c, l.0, sat_add(l.0, l.1)));
                    if view_empty(m) { None } else { Some(m) }
                },
            },
        }
    }
}

fn same_type(a: &[u8; 4], b: &[u8; 4]) -> (r: bool)
    ensures
        r == (a@ == b@),
{
    let r = a[0] == b[0] && a[1] == b[1] && a[2] == b[2] && a[3] == b[3];
    if r {
        assert(a@ =~= b@);
    } else {
        assert(a@ != b@) by {
            if a@ == b@ {
                assert(a@[0] == b@[0] && a@[1] == b@[1] && a@[2] == b@[2] && a@[3] == b@[3]);
            }
        }
    }
    r
}

/// The metadata with one item of the list applied.
fn apply_item<R: FileReader>(reader: &R, metadata: ExtractedMetadata, header: AtomHeader, offset: u64) -> (r: Result<ExtractedMetadata, Error>)
    requires
        atom_header_at(reader.content(), offset as int) == Some(header_view(header)),
    ensures
        r matches Ok(m) ==> m@ == mp4_step(metadata@, reader.content(), (header_view(header), offset as int)),
        reader.reads_succeed() ==> r is Ok,
{
    let mut metadata = metadata;
    let fsize = reader.size();
    assert(offset + header.header_size <= fsize);
    let data_offset = offset + header.header_size;
    let data_size = sub_sat(header.size, header.header_size);
    let t = header.atom_type;
    if same_type(&t, &title_type_bytes()) {
        if metadata.title.is_none() {
            metadata.title = read_text_data_atom(reader, data_offset, data_size)?;
        }
    } else if same_type(&t, &artist_type_bytes()) {
        if metadata.artist.is_none() {
            metadata.artist = read_text_data_atom(reader, data_offset, data_size)?;
        }
    } else if same_type(&t, &album_type_bytes()) {
        if metadata.album.is_none() {
            metadata.album = read_text_data_atom(reader, data_offset, data_size)?;
        }
    } else if same_type(&t, &genre_type_bytes()) {
        let genre = read_text_data_atom(reader, data_offset, data_size)?;
        if metadata.genre.is_none() {
            metadata.genre = genre;
        }
    } else if same_type(&t, &genre_id_type_bytes()) {
        match read_numeric_data_atom(reader, data_offset, data_size)? {
            Some(id) => {
                if metadata.genre.is_none() {
                    // MP4 genre IDs are 1-based
                    metadata.genre = if id >= 1 {
                        match id3v1_genre((id - 1) as usize) {
                            Some(g) => Some(crate::text::owned(g)),
                            None => None,
                        }
                    } else {
                        None
                    };
                }
            },
            None => {},
        }
    } else if same_type(&t, &year_type_bytes()) {
        match read_text_data_atom(reader, data_offset, data_size)? {
            Some(y) => {
                if metadata.year.is_none() {
                    metadata.year = match parse_year(y.as_str()) {
                        Some(v) => Some(v),
                        None => four_digits(y.as_str()),
                    };
                }
            },
            None => {},
        }
    } else if same_type(&t, &bpm_type_bytes()) {
        match read_numeric_data_atom(reader, data_offset, data_size)? {
            Some(b) => {
                if b > 0 && b < 500 {
                    let ghost old_tags = metadata.bpm_tags@;
                    metadata.bpm_tags.push(BpmTag::Whole(b));
                    assert(metadata.bpm_tags@.map_values(|x: BpmTag| x@) =~= old_tags.map_values(|x: BpmTag| x@).push(
                        BpmTagV::Whole(b),
                    ));
                }
            },
            None => {},
        }
    } else if same_type(&t, &freeform_type_bytes()) {
        if metadata.label.is_none() {
            match read_freeform_name(reader, data_offset, data_size)? {
                Some(name) => {
                    let upper = to_upper(name.as_str());
                    if str_eq(upper.as_str(), "LABEL") || str_eq(upper.as_str(), "PUBLISHER") || str_eq(
                        upper.as_str(),
                        "ORGANIZATION",
                    ) {
                        metadata.label = read_text_data_atom(reader, data_offset, data_size)?;
                    }
                },
                None => {},
            }
        }
    } else if same_type(&t, &covr_type_bytes()) && metadata.artwork.is_none() {
        match read_cover_artwork(reader, data_offset, data_size)? {
            Some((data, mime)) => {
                metadata.artwork = Some(data);
                metadata.artwork_mime_type = Some(mime);
            },
            None => {},
        }
    }
    Ok(metadata)
}

/// Extract metadata from an MP4/M4A file.
pub fn extract_from_mp4<R: FileReader>(reader: &R) -> (r: Result<Option<ExtractedMetadata>, Error>)
    ensures
        r matches Ok(o) ==> meta_view(o) == mp4_metadata(reader.content()),
        reader.reads_succeed() ==> r is Ok,
{
    let ghost c = reader.content();
    // Verify this is an MP4 file by checking for ftyp atom
    if !is_mp4(reader)? {
        return Ok(None);
    }
    let moov = match find_moov_atom(reader)? {
        Some(m) => m,
        None => return Ok(None),
    };
    let ilst = match find_ilst_atom(reader, moov)? {
        Some(l) => l,
        None => return Ok(None),
    };

    let mut metadata = ExtractedMetadata::new();

    // Iterate through ilst child atoms
    let mut offset = ilst.data_offset;
    let end = add_sat(ilst.data_offset, ilst.data_size);
    let ghost all = items_from(c, offset as int, end as int);
    assert(mp4_walk(empty_metadata(), c, all) == mp4_walk(metadata@, c, items_from(c, offset as int, end as int)));
    let ghost result = mp4_walk(empty_metadata(), c, all);
    assert(mp4_metadata(c) == if view_empty(result) { None::<MetadataV> } else { Some(result) });
    while offset < end
        invariant
            c == reader.content(),
            result == mp4_walk(empty_metadata(), c, all),
            mp4_metadata(c) == if view_empty(result) { None::<MetadataV> } else { Some(result) },
            mp4_walk(empty_metadata(), c, all) == mp4_walk(metadata@, c, items_from(c, offset as int, end as int)),
        decreases end - offset,
    {
        let header = match read_atom_header(reader, offset)? {
            Some(h) => h,
            None => {
                assert(items_from(c, offset as int, end as int) =~= Seq::<(HeaderV, int)>::empty());
                return Ok(if metadata.is_empty() { None } else { Some(metadata) });
            },
        };
        if header.size == 0 {
            assert(items_from(c, offset as int, end as int) =~= Seq::<(HeaderV, int)>::empty());
            return Ok(if metadata.is_empty() { None } else { Some(metadata) });
        }
        let ghost item = (header_view(header), offset as int);
        let ghost rest = if offset + header.size >= end {
            Seq::<(HeaderV, int)>::empty()
        } else {
            items_from(c, offset + header.size, end as int)
        };
        assert(items_from(c, offset as int, end as int) =~= seq![item] + rest);
        assert((seq![item] + rest).drop_first() =~= rest);
        metadata = apply_item(reader, metadata, header, offset)?;
        if header.size >= end - offset {
            assert(rest =~= Seq::<(HeaderV, int)>::empty());
            return Ok(if metadata.is_empty() { None } else { Some(metadata) });
        }
        offset = offset + header.size;
    }

    if metadata.is_empty() {
        return Ok(None);
    }
    Ok(Some(metadata))
}

} // verus!
