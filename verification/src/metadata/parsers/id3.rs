//! ID3v2 tag parsing for MP3 (and AIFF-embedded) metadata.

pub mod frame_layout;

use vstd::prelude::*;
use crate::bytes::{be_u16, be_u32, read_be_u16, read_be_u32};
use crate::error::{Error, ParseError};
use crate::metadata::parsers::utils::{
    clean_text, cleaned, clipped_end, clipped_start, decode_text, decoded_text, detect_image_type, encoding_of, find_text_end,
    get_text_encoding, id3v1_genre, id3v1_genre_name, image_type_of, read_null_terminated_string, read_syncsafe,
    syncsafe, text_end, TextEncoding,
};
use crate::metadata::types::{
    window, ArtworkMimeType, ArtworkResult, BpmTag, BpmTagV, ExtractedMetadata, FileReader, MetadataV, PictureType,
    empty_metadata, picture_type_of, view_empty,
};
use crate::metadata::parsers::utils::{parse_year, year_of};
use crate::text::{chars_of, contains_seq, starts_with_seq, str_contains, str_eq, str_starts_with, string_from_chars, trim, trimmed};

use crate::metadata::parsers::utils::{holds_tempo, text_holds_tempo};

verus! {

broadcast use vstd::slice::group_slice_axioms;

// ---------------------------------------------------------------------------
// Text frames.
// ---------------------------------------------------------------------------

/// The encoding of a text frame and where its text starts: a UTF-16 byte
/// order mark after the encoding byte overrides the encoding and is skipped.
pub open spec fn text_frame_encoding(d: Seq<u8>) -> (TextEncoding, int) {
    if d[0] == 1 && d.len() > 3 && be_u16(d, 1) == 0xfeff {
        (TextEncoding::Utf16Be, 3)
    } else if d[0] == 1 && d.len() > 3 && be_u16(d, 1) == 0xfffe {
        (TextEncoding::Utf16Le, 3)
    } else {
        (encoding_of(d[0]), 1)
    }
}

/// Where the text of a frame ends: at its terminator (a zero byte, or a
/// zero pair for UTF-16), or at the end of the frame.
pub open spec fn frame_text_end(t: Seq<u8>, utf16: bool) -> int {
    if utf16 {
        if text_end(t, 0, true) + 1 < t.len() { text_end(t, 0, true) } else { t.len() as int }
    } else {
        text_end(t, 0, false)
    }
}

/// The text of a text frame (TIT2, TPE1, ...), cleaned.
pub open spec fn text_frame_of(d: Seq<u8>) -> Option<Seq<char>> {
    if d.len() < 2 {
        None
    } else {
        let (enc, off) = text_frame_encoding(d);
        let t = d.skip(off);
        cleaned(decoded_text(t.take(frame_text_end(t, enc is Utf16Le || enc is Utf16Be)), enc))
    }
}

proof fn lemma_text_end_bound(b: Seq<u8>, offset: int, utf16: bool)
    requires
        0 <= offset,
    ensures
        offset <= text_end(b, offset, utf16),
        offset <= b.len() ==> text_end(b, offset, utf16) <= b.len(),
    decreases b.len() - offset,
{
    if utf16 {
        if offset + 1 < b.len() && !(b[offset] == 0 && b[offset + 1] == 0) {
            lemma_text_end_bound(b, offset + 2, utf16);
        }
    } else {
        if offset < b.len() && b[offset] != 0 {
            lemma_text_end_bound(b, offset + 1, utf16);
        }
    }
}

/// Parse a text frame (TIT2, TPE1, etc.).
pub fn parse_text_frame(data: &[u8]) -> (r: Option<String>)
    ensures
        r is Some <==> text_frame_of(data@) is Some,
        r matches Some(s) ==> text_frame_of(data@) == Some(s@),
{
    if data.len() < 2 {
        return None;
    }

    let encoding_byte = data[0];
    let mut encoding = get_text_encoding(encoding_byte);
    let mut offset: usize = 1;

    // Check for BOM in UTF-16
    if encoding_byte == 1 && data.len() > offset + 2 {
        let bom = read_be_u16(data, offset);
        if bom == 0xfeff {
            encoding = TextEncoding::Utf16Be;
            offset = offset + 2;
        } else if bom == 0xfffe {
            encoding = TextEncoding::Utf16Le;
            offset = offset + 2;
        }
    }
    assert((encoding, offset as int) == text_frame_encoding(data@));

    // Read until null terminator or end of data
    let text_data = &data[offset..data.len()];
    assert(text_data@ == data@.skip(offset as int));
    proof {
        lemma_text_end_bound(text_data@, 0, true);
        lemma_text_end_bound(text_data@, 0, false);
    }

    if encoding.is_utf16() {
        // Find null terminator (two zeros)
        let found = find_text_end(text_data, 0, true);
        let end = if found < text_data.len() && text_data.len() - found > 1 { found } else { text_data.len() };
        assert(end == frame_text_end(text_data@, true));
        let text = decode_text(&text_data[0..end], encoding);
        assert(text_data@.subrange(0, end as int) == text_data@.take(end as int));
        return clean_text(Some(text));
    }

    // Latin1 or UTF-8
    let mut end: usize = 0;
    while end < text_data.len() && text_data[end] != 0
        invariant
            end <= text_data@.len(),
            text_end(text_data@, end as int, false) == text_end(text_data@, 0, false),
        decreases text_data@.len() - end,
    {
        end = end + 1;
    }
    assert(text_data@.subrange(0, end as int) == text_data@.take(end as int));
    clean_text(Some(decode_text(&text_data[0..end], encoding)))
}

// ---------------------------------------------------------------------------
// Genres.
// ---------------------------------------------------------------------------

/// True for the characters `0`-`9`.
pub open spec fn digit_char(c: char) -> bool {
    '0' <= c <= '9'
}

/// True when every character is a digit.
pub open spec fn all_digits(s: Seq<char>) -> bool {
    forall|i: int| 0 <= i < s.len() ==> digit_char(#[trigger] s[i])
}

/// The number the digits spell.
pub open spec fn decimal(s: Seq<char>) -> int
    decreases s.len(),
{
    if s.len() == 0 {
        0
    } else {
        decimal(s.drop_last()) * 10 + (s.last() as int - '0' as int)
    }
}

/// The position of the first `)` after the first character.
pub open spec fn close_paren_from(s: Seq<char>, i: int) -> Option<int>
    decreases s.len() - i,
{
    if i < 1 || i >= s.len() {
        None
    } else if s[i] == ')' {
        Some(i)
    } else {
        close_paren_from(s, i + 1)
    }
}

/// The genre a genre text names. An ID3v1 numeric reference, "(17)Rock"
/// or "(17)", gives the text after it, or else the ID3v1 genre of that
/// number (the text itself where there is none).
pub open spec fn genre_of(g: Option<Seq<char>>) -> Option<Seq<char>> {
    match g {
        None => None,
        Some(s) => if s.len() > 0 && s[0] == '(' && close_paren_from(s, 1) is Some {
            let c = close_paren_from(s, 1)->0;
            let num = s.subrange(1, c);
            if num.len() > 0 && all_digits(num) {
                if trimmed(s.skip(c + 1)).len() > 0 {
                    Some(trimmed(s.skip(c + 1)))
                } else if decimal(num) > usize::MAX {
                    None
                } else {
                    match id3v1_genre_name(decimal(num) as usize) {
                        Some(n) => Some(n),
                        None => Some(s),
                    }
                }
            } else {
                Some(s)
            }
        } else {
            Some(s)
        },
    }
}

proof fn lemma_decimal_grows(s: Seq<char>, c: char)
    requires
        digit_char(c),
        decimal(s) >= 0,
    ensures
        decimal(s.push(c)) == decimal(s) * 10 + (c as int - '0' as int),
        decimal(s.push(c)) >= decimal(s),
        decimal(s.push(c)) >= 0,
{
    assert(s.push(c).drop_last() =~= s);
}

/// The number the digits `cs[from..to]` spell, where it fits in a `usize`.
fn parse_digits(cs: &[char], from: usize, to: usize) -> (r: Option<usize>)
    requires
        from <= to <= cs@.len(),
        all_digits(cs@.subrange(from as int, to as int)),
    ensures
        r is Some <==> decimal(cs@.subrange(from as int, to as int)) <= usize::MAX,
        r matches Some(v) ==> v == decimal(cs@.subrange(from as int, to as int)),
{
    let mut value: usize = 0;
    let mut overflow = false;
    let mut i = from;
    while i < to
        invariant
            from <= i <= to <= cs@.len(),
            all_digits(cs@.subrange(from as int, to as int)),
            !overflow ==> value == decimal(cs@.subrange(from as int, i as int)),
            overflow ==> decimal(cs@.subrange(from as int, i as int)) > usize::MAX,
            decimal(cs@.subrange(from as int, i as int)) >= 0,
        decreases to - i,
    {
        let c = cs[i];
        assert(cs@.subrange(from as int, to as int)[i - from] == c);
        let ghost prefix = cs@.subrange(from as int, i as int);
        assert(cs@.subrange(from as int, i + 1) =~= prefix.push(c));
        proof {
            lemma_decimal_grows(prefix, c);
        }
        let d = (c as u32 - '0' as u32) as usize;
        if !overflow {
            match value.checked_mul(10) {
                Some(m) => match m.checked_add(d) {
                    Some(n) => {
                        value = n;
                    },
                    None => {
                        overflow = true;
                    },
                },
                None => {
                    overflow = true;
                },
            }
        }
        i = i + 1;
    }
    if overflow {
        None
    } else {
        Some(value)
    }
}

/// Parse genre string, handling ID3v1 numeric references. Format: "(17)Rock"
/// or "(17)" or "Rock".
pub fn parse_genre(genre: Option<String>) -> (r: Option<String>)
    ensures
        r is Some <==> genre_of(opt_text(genre)) is Some,
        r matches Some(s) ==> genre_of(opt_text(genre)) == Some(s@),
{
    let genre = match genre {
        Some(g) => g,
        None => return None,
    };
    let cs = chars_of(genre.as_str());
    // Check for ID3v1 numeric reference
    if cs.len() > 0 && cs[0] == '(' {
        let mut close: usize = 1;
        while close < cs.len() && cs[close] != ')'
            invariant
                1 <= close <= cs@.len(),
                close_paren_from(cs@, close as int) == close_paren_from(cs@, 1),
            decreases cs@.len() - close,
        {
            close = close + 1;
        }
        if close < cs.len() {
            assert(close_paren_from(cs@, 1) == Some(close as int));
            let mut digits = close > 1;
            let mut i: usize = 1;
            while i < close
                invariant
                    1 <= i <= close < cs@.len(),
                    digits == (close > 1 && forall|j: int| 1 <= j < i ==> digit_char(#[trigger] cs@[j])),
                decreases close - i,
            {
                if !('0' <= cs[i] && cs[i] <= '9') {
                    digits = false;
                }
                i = i + 1;
            }
            let ghost num = cs@.subrange(1, close as int);
            assert(digits == (num.len() > 0 && all_digits(num))) by {
                if close > 1 && !digits {
                    let j = choose|j: int| 1 <= j < close && !digit_char(#[trigger] cs@[j]);
                    assert(num[j - 1] == cs@[j]);
                }
                if digits {
                    assert forall|k: int| 0 <= k < num.len() implies digit_char(#[trigger] num[k]) by {
                        assert(num[k] == cs@[k + 1]);
                    }
                }
            }
            if digits {
                let rest = string_from_chars(&cs.as_slice()[close + 1..cs.len()]);
                assert(rest@ == cs@.skip(close + 1));
                let text_genre = trim(rest.as_str());
                // If there's text after the number, use that
                if !text_genre.as_str().is_empty() {
                    return Some(text_genre);
                }
                // Otherwise look up the ID3v1 genre
                let id = match parse_digits(cs.as_slice(), 1, close) {
                    Some(id) => id,
                    None => return None,
                };
                return match id3v1_genre(id) {
                    Some(g) => Some(crate::text::owned(g)),
                    None => Some(genre),
                };
            }
        } else {
            assert(close_paren_from(cs@, close as int) is None);
        }
    }
    Some(genre)
}

/// The characters of an optional text.
pub open spec fn opt_text(o: Option<String>) -> Option<Seq<char>> {
    match o {
        Some(s) => Some(s@),
        None => None,
    }
}

// ---------------------------------------------------------------------------
// Attached pictures.
// ---------------------------------------------------------------------------

/// A picture as a frame holds it: its image bytes, type and MIME type.
pub struct ArtV {
    pub data: Seq<u8>,
    pub mime_type: ArtworkMimeType,
    pub picture_type: PictureType,
}

/// The view of a parsed picture.
pub open spec fn art_view(a: ArtworkResult) -> ArtV {
    ArtV { data: a.data@, mime_type: a.mime_type, picture_type: a.picture_type }
}

/// The encoding of an APIC frame's description: a UTF-16 byte order mark
/// after the encoding byte overrides the encoding (and is not skipped).
pub open spec fn apic_encoding(d: Seq<u8>) -> TextEncoding {
    text_frame_encoding(d).0
}

/// The picture of an APIC (attached picture) frame: encoding byte, MIME
/// type (NUL-terminated Latin-1), picture type byte, description
/// (NUL-terminated), then the image. The image's magic bytes decide its
/// type; failing those, a MIME type mentioning "png" means PNG, else JPEG.
pub open spec fn apic_of(d: Seq<u8>) -> Option<ArtV> {
    if d.len() < 4 {
        None
    } else {
        let me = clipped_end(d, 1, false);
        let ms = clipped_start(d, 1, false);
        let mime = decoded_text(d.subrange(ms, me), TextEncoding::Latin1);
        let o1 = 1 + (me - ms + 1);
        if o1 >= d.len() {
            None
        } else {
            let pt = picture_type_of(d[o1] as u32);
            let o2 = o1 + 1;
            if o2 >= d.len() {
                None
            } else {
                let enc = apic_encoding(d);
                let u = enc is Utf16Le || enc is Utf16Be;
                let o3 = o2 + (clipped_end(d, o2, u) - clipped_start(d, o2, u) + if u { 2int } else { 1int });
                if o3 >= d.len() {
                    None
                } else {
                    let img = d.skip(o3);
                    let mt = match image_type_of(img) {
                        Some(m) => m,
                        None => if contains_seq(mime, "png"@) { ArtworkMimeType::Png } else { ArtworkMimeType::Jpeg },
                    };
                    Some(ArtV { data: img, mime_type: mt, picture_type: pt })
                }
            }
        }
    }
}

/// Parse an APIC (attached picture) frame.
pub fn parse_apic_frame(data: &[u8]) -> (r: Option<ArtworkResult>)
    ensures
        r is Some <==> apic_of(data@) is Some,
        r matches Some(a) ==> apic_of(data@) == Some(art_view(a)) && a.width is None && a.height is None,
{
    if data.len() < 4 {
        return None;
    }

    let mut offset: usize = 0;
    let encoding_byte = data[offset];
    offset = offset + 1;
    let mut encoding = get_text_encoding(encoding_byte);

    // Check for BOM in UTF-16
    if encoding_byte == 1 && data.len() > offset + 2 {
        let bom = read_be_u16(data, offset);
        if bom == 0xfeff {
            encoding = TextEncoding::Utf16Be;
        } else if bom == 0xfffe {
            encoding = TextEncoding::Utf16Le;
        }
    }
    assert(encoding == apic_encoding(data@));

    let mime = read_null_terminated_string(data, offset, TextEncoding::Latin1);
    if mime.bytes_consumed >= data.len() - offset {
        return None;
    }
    offset = offset + mime.bytes_consumed;

    let picture_type = PictureType::from_u32(data[offset] as u32);
    offset = offset + 1;
    if offset >= data.len() {
        return None;
    }

    let desc = read_null_terminated_string(data, offset, encoding);
    if desc.bytes_consumed >= data.len() - offset {
        return None;
    }
    offset = offset + desc.bytes_consumed;

    let image_data = &data[offset..data.len()];
    assert(image_data@ == data@.skip(offset as int));

    let final_mime = match detect_image_type(image_data) {
        Some(m) => m,
        None => if str_contains(mime.value.as_str(), "png") {
            ArtworkMimeType::Png
        } else {
            ArtworkMimeType::Jpeg
        },
    };

    let image = crate::bytes::copy_range(image_data, 0, image_data.len());
    assert(image@ =~= data@.skip(offset as int));
    Some(ArtworkResult {
        data: image,
        mime_type: final_mime,
        picture_type,
        width: None,
        height: None,
    })
}

// ---------------------------------------------------------------------------
// Frames.
// ---------------------------------------------------------------------------

/// ID3v2.2 frame IDs and their v2.3/4 equivalents.
pub open spec fn v22_frame_id(id: Seq<char>) -> Seq<char> {
    if id == "TT2"@ {
        "TIT2"@
    } else if id == "TP1"@ {
        "TPE1"@
    } else if id == "TAL"@ {
        "TALB"@
    } else if id == "TCO"@ {
        "TCON"@
    } else if id == "TPB"@ {
        "TPUB"@
    } else if id == "TYE"@ {
        "TYER"@
    } else if id == "TBP"@ {
        "TBPM"@
    } else if id == "TKE"@ {
        "TKEY"@
    } else if id == "PIC"@ {
        "APIC"@
    } else {
        id
    }
}

/// Normalize ID3v2.2 frame IDs to v2.3/4 equivalents.
pub fn normalize_v22_frame_id(frame_id: &str) -> (r: String)
    ensures
        r@ == v22_frame_id(frame_id@),
{
    let s: &str = if str_eq(frame_id, "TT2") {
        "TIT2"
    } else if str_eq(frame_id, "TP1") {
        "TPE1"
    } else if str_eq(frame_id, "TAL") {
        "TALB"
    } else if str_eq(frame_id, "TCO") {
        "TCON"
    } else if str_eq(frame_id, "TPB") {
        "TPUB"
    } else if str_eq(frame_id, "TYE") {
        "TYER"
    } else if str_eq(frame_id, "TBP") {
        "TBPM"
    } else if str_eq(frame_id, "TKE") {
        "TKEY"
    } else if str_eq(frame_id, "PIC") {
        "APIC"
    } else {
        frame_id
    };
    crate::text::owned(s)
}

/// The tag header and frame layout of an ID3v2 tag, so the frame walk can
/// be shared between the metadata and artwork extractors.
pub struct Id3Frame<'a> {
    pub id: String,
    pub data: &'a [u8],
}

/// A frame: its id and its body.
pub struct FrameV {
    pub id: Seq<char>,
    pub data: Seq<u8>,
}

/// The views of a run of frames.
pub open spec fn frame_views(frames: Seq<Id3Frame>) -> Seq<FrameV> {
    frames.map_values(|f: Id3Frame| FrameV { id: f.id@, data: f.data@ })
}

/// The size of a frame header: 10 bytes from ID3v2.3 on, 6 before.
pub open spec fn frame_header_size(major: u8) -> int {
    if major >= 3 { 10 } else { 6 }
}

/// The size of the frame whose header starts at `o`: syncsafe in v2.4,
/// 32-bit big-endian in v2.3, 24-bit big-endian in v2.2.
pub open spec fn frame_size(major: u8, t: Seq<u8>, o: int) -> int {
    if major == 4 {
        syncsafe(t, o + 4)
    } else if major >= 3 {
        be_u32(t, o + 4) as int
    } else {
        t[o + 3] as int * 0x1_0000 + t[o + 4] as int * 0x100 + t[o + 5] as int
    }
}

/// The id of the frame whose header starts at `o`, as v2.3/4 names it.
pub open spec fn frame_id(major: u8, t: Seq<u8>, o: int) -> Seq<char> {
    if major >= 3 {
        crate::text::utf8_lossy(t.subrange(o, o + 4))
    } else {
        v22_frame_id(crate::text::utf8_lossy(t.subrange(o, o + 3)))
    }
}

/// The frames of a tag body from `o` on; the walk ends at padding (a zero
/// byte), a frame of size zero or one that overruns the tag.
pub open spec fn frames_from(major: u8, t: Seq<u8>, o: int) -> Seq<FrameV>
    decreases t.len() - o,
{
    let hs = frame_header_size(major);
    if o < 0 || o + hs >= t.len() || t[o] == 0 {
        Seq::empty()
    } else if frame_size(major, t, o) == 0 || frame_size(major, t, o) > t.len() - o {
        Seq::empty()
    } else {
        let start = o + hs;
        let end = if start + frame_size(major, t, o) < t.len() { start + frame_size(major, t, o) } else { t.len() as int };
        let here = FrameV { id: frame_id(major, t, o), data: t.subrange(start, end) };
        if start + frame_size(major, t, o) >= t.len() {
            seq![here]
        } else {
            seq![here] + frames_from(major, t, start + frame_size(major, t, o))
        }
    }
}

/// Walk the frames of a tag body.
pub fn frames(major_version: u8, tag_data: &[u8]) -> (r: Vec<Id3Frame<'_>>)
    ensures
        frame_views(r@) == frames_from(major_version, tag_data@, 0),
{
    let mut out: Vec<Id3Frame> = Vec::new();
    let frame_header_size: usize = if major_version >= 3 { 10 } else { 6 };
    let mut offset: usize = 0;
    assert(frame_views(out@) =~= Seq::<FrameV>::empty());
    assert(Seq::<FrameV>::empty() + frames_from(major_version, tag_data@, 0) =~= frames_from(major_version, tag_data@, 0));

    while offset < tag_data.len() && frame_header_size < tag_data.len() - offset
        invariant
            offset <= tag_data@.len(),
            frame_header_size == self::frame_header_size(major_version),
            frame_views(out@) + frames_from(major_version, tag_data@, offset as int) == frames_from(
                major_version,
                tag_data@,
                0,
            ),
        decreases tag_data@.len() - offset,
    {
        // End of frames (padding starts with zero)
        if tag_data[offset] == 0 {
            assert(frame_views(out@) + Seq::<FrameV>::empty() =~= frame_views(out@));
            return out;
        }

        let frame_id_text: String;
        let frame_size: usize;
        if major_version >= 3 {
            // ID3v2.3 or ID3v2.4
            frame_id_text = crate::text::decode_utf8_lossy(&tag_data[offset..offset + 4]);
            frame_size = if major_version == 4 {
                read_syncsafe(tag_data, offset + 4) as usize
            } else {
                read_be_u32(tag_data, offset + 4) as usize
            };
        } else {
            // ID3v2.2
            let raw = crate::text::decode_utf8_lossy(&tag_data[offset..offset + 3]);
            // Normalize v2.2 frame IDs to v2.3/4 equivalents
            frame_id_text = normalize_v22_frame_id(raw.as_str());
            frame_size = (tag_data[offset + 3] as usize) * 0x1_0000 + (tag_data[offset + 4] as usize) * 0x100
                + (tag_data[offset + 5] as usize);
        }
        assert(frame_size == self::frame_size(major_version, tag_data@, offset as int));

        if frame_size == 0 || frame_size > tag_data.len() - offset {
            assert(frame_views(out@) + Seq::<FrameV>::empty() =~= frame_views(out@));
            return out;
        }

        let start = offset + frame_header_size;
        let end = if frame_size < tag_data.len() - start { start + frame_size } else { tag_data.len() };
        let ghost before = out@;
        let frame = Id3Frame { id: frame_id_text, data: &tag_data[start..end] };
        out.push(frame);
        let ghost here = FrameV { id: frame.id@, data: frame.data@ };
        assert(frame_views(out@) =~= frame_views(before).push(here));
        if frame_size >= tag_data.len() - start {
            assert(frames_from(major_version, tag_data@, offset as int) == seq![here]);
            assert(frame_views(before) + seq![here] =~= frame_views(out@));
            return out;
        }
        proof {
            let rest = frames_from(major_version, tag_data@, start + frame_size);
            assert(frames_from(major_version, tag_data@, offset as int) == seq![here] + rest);
            assert(frame_views(before) + (seq![here] + rest) =~= frame_views(before).push(here) + rest);
        }
        offset = start + frame_size;
    }
    assert(frames_from(major_version, tag_data@, offset as int) =~= Seq::<FrameV>::empty());
    assert(frame_views(out@) + Seq::<FrameV>::empty() =~= frame_views(out@));
    out
}

// ---------------------------------------------------------------------------
// The tag and the metadata it holds.
// ---------------------------------------------------------------------------

/// The ID3v2 tag at the start of a file, as (major version, tag bytes):
/// `Some(None)` when the file has no tag; `None` when the flags announce
/// an extended header whose size cannot be read (a v2.3 tag in a file too
/// short to hold it).
pub open spec fn id3_tag_of(c: Seq<u8>) -> Option<Option<(u8, Seq<u8>)>> {
    let h = window(c, 0, 10);
    if h.len() < 10 || !(h[0] == 0x49 && h[1] == 0x44 && h[2] == 0x33) {
        Some(None)
    } else {
        let major = h[3];
        let flags = h[5];
        let tag_size = syncsafe(h, 6);
        let ext = window(c, 10, 4);
        if flags & 0x40u8 != 0 && major != 4 && ext.len() < 4 {
            None
        } else {
            let ext_size = if flags & 0x40u8 == 0 {
                0
            } else if major == 4 {
                syncsafe(ext, 0)
            } else {
                be_u32(ext, 0) as int
            };
            Some(Some((major, window(c, 10 + ext_size, if tag_size > ext_size { tag_size - ext_size } else { 0 }))))
        }
    }
}

/// The tag as a reader hands it back.
pub open spec fn tag_view(o: Option<(u8, Vec<u8>)>) -> Option<(u8, Seq<u8>)> {
    match o {
        Some((m, t)) => Some((m, t@)),
        None => None,
    }
}

/// Read the ID3v2 tag from the start of the file. Returns `None` when
/// there is no ID3v2 tag.
pub fn read_id3_frames<R: FileReader>(reader: &R) -> (r: Result<Option<(u8, Vec<u8>)>, Error>)
    ensures
        r matches Ok(o) ==> id3_tag_of(reader.content()) == Some(tag_view(o)),
        id3_tag_of(reader.content()) is None ==> r is Err,
        reader.reads_succeed() && id3_tag_of(reader.content()) is Some ==> r is Ok,
{
    // Read ID3v2 header (10 bytes)
    let header = reader.read(0, 10)?;
    if header.len() < 10 || !(header[0] == 0x49 && header[1] == 0x44 && header[2] == 0x33) {
        return Ok(None);
    }

    let major_version = header[3];
    let flags = header[5];
    let tag_size = read_syncsafe(header.as_slice(), 6) as u64;

    // Handle extended header if present
    let mut extended_header_size: u64 = 0;
    if flags & 0x40 != 0 {
        let ext = reader.read(10, 4)?;
        extended_header_size = if major_version == 4 {
            read_syncsafe(ext.as_slice(), 0) as u64
        } else {
            if ext.len() < 4 {
                return Err(Error::Parse(ParseError::ReadPastEnd));
            }
            read_be_u32(ext.as_slice(), 0) as u64
        };
    }

    // Read all tag data
    let length = if tag_size > extended_header_size { tag_size - extended_header_size } else { 0 };
    let tag_data = reader.read(10 + extended_header_size, length)?;
    Ok(Some((major_version, tag_data)))
}

/// True when the frame id is one of the two ids, or begins with one.
pub open spec fn id_in(id: Seq<char>, a: Seq<char>, b: Seq<char>) -> bool {
    starts_with_seq(id, a) || starts_with_seq(id, b)
}

/// What a walk over the items of a tag has found so far: the metadata,
/// the front cover (the last one wins) and the first other picture.
pub struct TagWalk {
    pub meta: MetadataV,
    pub front: Option<ArtV>,
    pub any: Option<ArtV>,
}

/// One frame's contribution: each text field takes the first frame that
/// yields a value; every tempo frame's text is kept.
pub open spec fn mp3_step(s: TagWalk, f: FrameV) -> TagWalk {
    let m = s.meta;
    let d = f.data;
    if id_in(f.id, "TIT2"@, "TT2"@) {
        TagWalk { meta: MetadataV { title: if m.title is Some { m.title } else { text_frame_of(d) }, ..m }, ..s }
    } else if id_in(f.id, "TPE1"@, "TP1"@) {
        TagWalk { meta: MetadataV { artist: if m.artist is Some { m.artist } else { text_frame_of(d) }, ..m }, ..s }
    } else if id_in(f.id, "TALB"@, "TAL"@) {
        TagWalk { meta: MetadataV { album: if m.album is Some { m.album } else { text_frame_of(d) }, ..m }, ..s }
    } else if id_in(f.id, "TCON"@, "TCO"@) {
        TagWalk {
            meta: MetadataV { genre: if m.genre is Some { m.genre } else { genre_of(text_frame_of(d)) }, ..m },
            ..s
        }
    } else if id_in(f.id, "TPUB"@, "TPB"@) {
        TagWalk { meta: MetadataV { label: if m.label is Some { m.label } else { text_frame_of(d) }, ..m }, ..s }
    } else if id_in(f.id, "TYER"@, "TYE"@) || starts_with_seq(f.id, "TDRC"@) {
        TagWalk {
            meta: MetadataV {
                year: if m.year is Some {
                    m.year
                } else {
                    match text_frame_of(d) {
                        Some(t) => year_of(vstd::utf8::encode_utf8(t)),
                        None => None,
                    }
                },
                ..m
            },
            ..s
        }
    } else if id_in(f.id, "TBPM"@, "TBP"@) {
        TagWalk {
            meta: MetadataV {
                bpm_tags: match text_frame_of(d) {
                    Some(t) => if holds_tempo(t) { m.bpm_tags.push(BpmTagV::Text(t)) } else { m.bpm_tags },
                    None => m.bpm_tags,
                },
                ..m
            },
            ..s
        }
    } else if id_in(f.id, "TKEY"@, "TKE"@) {
        TagWalk { meta: MetadataV { key: if m.key is Some { m.key } else { text_frame_of(d) }, ..m }, ..s }
    } else if id_in(f.id, "APIC"@, "PIC"@) {
        match apic_of(d) {
            Some(a) => if a.picture_type == PictureType::FrontCover {
                TagWalk { front: Some(a), ..s }
            } else if s.any is None {
                TagWalk { any: Some(a), ..s }
            } else {
                s
            },
            None => s,
        }
    } else {
        s
    }
}

/// The walk over a run of frames, in order.
pub open spec fn mp3_fold(frames: Seq<FrameV>) -> TagWalk
    decreases frames.len(),
{
    if frames.len() == 0 {
        TagWalk { meta: empty_metadata(), front: None, any: None }
    } else {
        mp3_step(mp3_fold(frames.drop_last()), frames.last())
    }
}

/// The metadata a walk found: the front cover, or else the first other
/// picture, as the artwork; nothing when no field was found.
pub open spec fn walk_result(s: TagWalk) -> Option<MetadataV> {
    let art = if s.front is Some { s.front } else { s.any };
    let m = match art {
        Some(a) => MetadataV { artwork: Some(a.data), artwork_mime_type: Some(a.mime_type), ..s.meta },
        None => s.meta,
    };
    if view_empty(m) { None } else { Some(m) }
}

/// The metadata of an MP3 file: `Some(None)` when it has no ID3v2 tag or
/// the tag holds nothing; `None` when the tag cannot be read.
pub open spec fn mp3_metadata(c: Seq<u8>) -> Option<Option<MetadataV>> {
    match id3_tag_of(c) {
        None => None,
        Some(None) => Some(None),
        Some(Some((major, t))) => Some(walk_result(mp3_fold(frames_from(major, t, 0)))),
    }
}

/// The view of an optional result.
pub open spec fn meta_view(o: Option<ExtractedMetadata>) -> Option<MetadataV> {
    match o {
        Some(m) => Some(m@),
        None => None,
    }
}

/// The view of an optional picture.
pub open spec fn art_opt(o: Option<ArtworkResult>) -> Option<ArtV> {
    match o {
        Some(a) => Some(art_view(a)),
        None => None,
    }
}

/// The metadata found in the frames of a tag.
pub fn metadata_from_frames(fs: &Vec<Id3Frame>) -> (r: Option<ExtractedMetadata>)
    ensures
        meta_view(r) == walk_result(mp3_fold(frame_views(fs@))),
{
    let mut metadata = ExtractedMetadata::new();
    let mut front_cover: Option<ArtworkResult> = None;
    let mut any_artwork: Option<ArtworkResult> = None;
    let mut i: usize = 0;
    while i < fs.len()
        invariant
            i <= fs@.len(),
            mp3_fold(frame_views(fs@).take(i as int)) == (TagWalk {
                meta: metadata@,
                front: art_opt(front_cover),
                any: art_opt(any_artwork),
            }),
        decreases fs@.len() - i,
    {
        let ghost before = TagWalk { meta: metadata@, front: art_opt(front_cover), any: art_opt(any_artwork) };
        let ghost fv = frame_views(fs@)[i as int];
        assert(frame_views(fs@).take(i + 1).drop_last() =~= frame_views(fs@).take(i as int));
        let id = fs[i].id.as_str();
        let data = fs[i].data;
        assert(fv.id == id@ && fv.data == data@);
        if str_starts_with(id, "TIT2") || str_starts_with(id, "TT2") {
            if metadata.title.is_none() {
                metadata.title = parse_text_frame(data);
            }
        } else if str_starts_with(id, "TPE1") || str_starts_with(id, "TP1") {
            if metadata.artist.is_none() {
                metadata.artist = parse_text_frame(data);
            }
        } else if str_starts_with(id, "TALB") || str_starts_with(id, "TAL") {
            if metadata.album.is_none() {
                metadata.album = parse_text_frame(data);
            }
        } else if str_starts_with(id, "TCON") || str_starts_with(id, "TCO") {
            if metadata.genre.is_none() {
                metadata.genre = parse_genre(parse_text_frame(data));
            }
        } else if str_starts_with(id, "TPUB") || str_starts_with(id, "TPB") {
            if metadata.label.is_none() {
                metadata.label = parse_text_frame(data);
            }
        } else if str_starts_with(id, "TYER") || str_starts_with(id, "TYE") || str_starts_with(id, "TDRC") {
            if metadata.year.is_none() {
                metadata.year = match parse_text_frame(data) {
                    Some(t) => parse_year(t.as_str()),
                    None => None,
                };
            }
        } else if str_starts_with(id, "TBPM") || str_starts_with(id, "TBP") {
            match parse_text_frame(data) {
                Some(t) => {
                    if text_holds_tempo(t.as_str()) {
                        let ghost old_tags = metadata.bpm_tags@;
                        let ghost tv = BpmTagV::Text(t@);
                        metadata.bpm_tags.push(BpmTag::Text(t));
                        assert(metadata.bpm_tags@.map_values(|b: BpmTag| b@) =~= old_tags.map_values(|b: BpmTag| b@).push(tv));
                    }
                },
                None => {},
            }
        } else if str_starts_with(id, "TKEY") || str_starts_with(id, "TKE") {
            if metadata.key.is_none() {
                metadata.key = parse_text_frame(data);
            }
        } else if str_starts_with(id, "APIC") || str_starts_with(id, "PIC") {
            match parse_apic_frame(data) {
                Some(artwork) => {
                    if artwork.picture_type == PictureType::FrontCover {
                        front_cover = Some(artwork);
                    } else if any_artwork.is_none() {
                        any_artwork = Some(artwork);
                    }
                },
                None => {},
            }
        }
        assert(mp3_step(before, fv) == (TagWalk {
            meta: metadata@,
            front: art_opt(front_cover),
            any: art_opt(any_artwork),
        }));
        i = i + 1;
    }
    assert(frame_views(fs@).take(fs@.len() as int) =~= frame_views(fs@));

    // Use front cover if available, otherwise any artwork
    let artwork = match front_cover {
        Some(a) => Some(a),
        None => any_artwork,
    };
    match artwork {
        Some(a) => {
            metadata.artwork = Some(a.data);
            metadata.artwork_mime_type = Some(a.mime_type);
        },
        None => {},
    }

    // Return None if no metadata was found
    if metadata.is_empty() {
        return None;
    }
    Some(metadata)
}

/// Extract metadata from an MP3 file with ID3v2 tags.
pub fn extract_from_mp3<R: FileReader>(reader: &R) -> (r: Result<Option<ExtractedMetadata>, Error>)
    ensures
        r matches Ok(o) ==> mp3_metadata(reader.content()) == Some(meta_view(o)),
        mp3_metadata(reader.content()) is None ==> r is Err,
        reader.reads_succeed() && mp3_metadata(reader.content()) is Some ==> r is Ok,
{
    let (major_version, tag_data) = match read_id3_frames(reader)? {
        Some(t) => t,
        None => return Ok(None),
    };
    let fs = frames(major_version, tag_data.as_slice());
    Ok(metadata_from_frames(&fs))
}

/// True for the ids of the frames that hold the recording year: `TYER`
/// (ID3v2.3), `TYE` (ID3v2.2) and `TDRC` (ID3v2.4).
pub open spec fn year_frame_id(id: Seq<char>) -> bool {
    starts_with_seq(id, "TYER"@) || starts_with_seq(id, "TYE"@) || starts_with_seq(id, "TDRC"@)
}

/// The year a text frame's body reads as.
pub open spec fn frame_year(d: Seq<u8>) -> Option<u32> {
    match text_frame_of(d) {
        Some(t) => year_of(vstd::utf8::encode_utf8(t)),
        None => None,
    }
}

proof fn lemma_prefix_char(id: Seq<char>, p: Seq<char>, i: int)
    requires
        starts_with_seq(id, p),
        0 <= i < p.len(),
    ensures
        id[i] == p[i],
{
    assert(id.take(p.len() as int)[i] == id[i]);
}

/// A frame changes the year found so far only where it is a year frame and
/// no year was found before it: then the year is the one its text reads as.
proof fn lemma_step_year(s: TagWalk, f: FrameV)
    ensures
        mp3_step(s, f).meta.year == (if year_frame_id(f.id) {
            if s.meta.year is Some { s.meta.year } else { frame_year(f.data) }
        } else {
            s.meta.year
        }),
{
    if year_frame_id(f.id) {
        reveal_strlit("TIT2");
        reveal_strlit("TT2");
        reveal_strlit("TPE1");
        reveal_strlit("TP1");
        reveal_strlit("TALB");
        reveal_strlit("TAL");
        reveal_strlit("TCON");
        reveal_strlit("TCO");
        reveal_strlit("TPUB");
        reveal_strlit("TPB");
        reveal_strlit("TYER");
        reveal_strlit("TYE");
        reveal_strlit("TDRC");
        if starts_with_seq(f.id, "TYER"@) {
            lemma_prefix_char(f.id, "TYER"@, 1);
        } else if starts_with_seq(f.id, "TYE"@) {
            lemma_prefix_char(f.id, "TYE"@, 1);
        } else {
            lemma_prefix_char(f.id, "TDRC"@, 1);
        }
        let earlier = seq!["TIT2"@, "TT2"@, "TPE1"@, "TP1"@, "TALB"@, "TAL"@, "TCON"@, "TCO"@, "TPUB"@, "TPB"@];
        assert forall|k: int| 0 <= k < earlier.len() implies !starts_with_seq(f.id, #[trigger] earlier[k]) by {
            if starts_with_seq(f.id, earlier[k]) {
                lemma_prefix_char(f.id, earlier[k], 1);
            }
        }
        assert(!starts_with_seq(f.id, earlier[0]));
        assert(!starts_with_seq(f.id, earlier[1]));
        assert(!starts_with_seq(f.id, earlier[2]));
        assert(!starts_with_seq(f.id, earlier[3]));
        assert(!starts_with_seq(f.id, earlier[4]));
        assert(!starts_with_seq(f.id, earlier[5]));
        assert(!starts_with_seq(f.id, earlier[6]));
        assert(!starts_with_seq(f.id, earlier[7]));
        assert(!starts_with_seq(f.id, earlier[8]));
        assert(!starts_with_seq(f.id, earlier[9]));
    }
}

proof fn lemma_fold_year(fs: Seq<FrameV>, k: int, y: u32, n: int)
    requires
        0 <= k < fs.len(),
        0 <= n <= fs.len(),
        year_frame_id(fs[k].id),
        frame_year(fs[k].data) == Some(y),
        forall|j: int| 0 <= j < k && year_frame_id(#[trigger] fs[j].id) ==> frame_year(fs[j].data) is None,
    ensures
        n <= k ==> mp3_fold(fs.take(n)).meta.year is None,
        n > k ==> mp3_fold(fs.take(n)).meta.year == Some(y),
    decreases n,
{
    if n > 0 {
        lemma_fold_year(fs, k, y, n - 1);
        assert(fs.take(n).drop_last() =~= fs.take(n - 1));
        assert(fs.take(n).last() == fs[n - 1]);
        lemma_step_year(mp3_fold(fs.take(n - 1)), fs[n - 1]);
    }
}

/// The year of an MP3's tag is the one read from the first year frame
/// (`TYER`, `TYE`, or ID3v2.4's `TDRC`) whose text reads as a year; later
/// year frames do not change it.
pub proof fn law_mp3_year_is_the_first_year_frame(fs: Seq<FrameV>, k: int, y: u32)
    requires
        0 <= k < fs.len(),
        year_frame_id(fs[k].id),
        frame_year(fs[k].data) == Some(y),
        forall|j: int| 0 <= j < k && year_frame_id(#[trigger] fs[j].id) ==> frame_year(fs[j].data) is None,
    ensures
        walk_result(mp3_fold(fs)) matches Some(m) && m.year == Some(y),
{
    lemma_fold_year(fs, k, y, fs.len() as int);
    assert(fs.take(fs.len() as int) =~= fs);
}

/// The text fields of a tag, by number: 0 title, 1 artist, 2 album,
/// 3 genre, 4 label, 5 key.
pub open spec fn text_field(m: MetadataV, f: int) -> Option<Seq<char>> {
    if f == 0 {
        m.title
    } else if f == 1 {
        m.artist
    } else if f == 2 {
        m.album
    } else if f == 3 {
        m.genre
    } else if f == 4 {
        m.label
    } else {
        m.key
    }
}

/// The frames that hold text field `f`: TIT2/TT2 the title, TPE1/TP1 the
/// artist, TALB/TAL the album, TCON/TCO the genre, TPUB/TPB the label and
/// TKEY/TKE the key (ID3v2.3-4 ids, then ID3v2.2 ones).
pub open spec fn text_field_frame(f: int, id: Seq<char>) -> bool {
    if f == 0 {
        starts_with_seq(id, "TIT2"@) || starts_with_seq(id, "TT2"@)
    } else if f == 1 {
        starts_with_seq(id, "TPE1"@) || starts_with_seq(id, "TP1"@)
    } else if f == 2 {
        starts_with_seq(id, "TALB"@) || starts_with_seq(id, "TAL"@)
    } else if f == 3 {
        starts_with_seq(id, "TCON"@) || starts_with_seq(id, "TCO"@)
    } else if f == 4 {
        starts_with_seq(id, "TPUB"@) || starts_with_seq(id, "TPB"@)
    } else {
        starts_with_seq(id, "TKEY"@) || starts_with_seq(id, "TKE"@)
    }
}

/// What a frame of text field `f` gives: its text, read as a genre for the
/// genre.
pub open spec fn text_field_value(f: int, d: Seq<u8>) -> Option<Seq<char>> {
    if f == 3 {
        genre_of(text_frame_of(d))
    } else {
        text_frame_of(d)
    }
}

proof fn lemma_leading_chars(id: Seq<char>, a: Seq<char>)
    requires
        starts_with_seq(id, a),
        a.len() >= 3,
    ensures
        id[0] == a[0] && id[1] == a[1] && id[2] == a[2],
{
    lemma_prefix_char(id, a, 0);
    lemma_prefix_char(id, a, 1);
    lemma_prefix_char(id, a, 2);
}

/// A frame changes text field `f` only where it is a frame of that field
/// and the field was not found before it.
proof fn lemma_step_text_field(s: TagWalk, fr: FrameV, f: int)
    requires
        0 <= f <= 5,
    ensures
        text_field(mp3_step(s, fr).meta, f) == (if text_field_frame(f, fr.id) {
            if text_field(s.meta, f) is Some { text_field(s.meta, f) } else { text_field_value(f, fr.data) }
        } else {
            text_field(s.meta, f)
        }),
{
    reveal_strlit("TIT2");
    reveal_strlit("TT2");
    reveal_strlit("TPE1");
    reveal_strlit("TP1");
    reveal_strlit("TALB");
    reveal_strlit("TAL");
    reveal_strlit("TCON");
    reveal_strlit("TCO");
    reveal_strlit("TPUB");
    reveal_strlit("TPB");
    reveal_strlit("TYER");
    reveal_strlit("TYE");
    reveal_strlit("TDRC");
    reveal_strlit("TBPM");
    reveal_strlit("TBP");
    reveal_strlit("TKEY");
    reveal_strlit("TKE");
    let ids = seq![
        "TIT2"@, "TT2"@, "TPE1"@, "TP1"@, "TALB"@, "TAL"@, "TCON"@, "TCO"@, "TPUB"@, "TPB"@, "TYER"@, "TYE"@,
        "TDRC"@, "TBPM"@, "TBP"@, "TKEY"@, "TKE"@,
    ];
    // The frame's own field ids fix its first three characters; those tell
    // it from the ids of every other field.
    if text_field_frame(f, fr.id) {
        let a = if f == 0 {
            if starts_with_seq(fr.id, ids[0]) { ids[0] } else { ids[1] }
        } else if f == 1 {
            if starts_with_seq(fr.id, ids[2]) { ids[2] } else { ids[3] }
        } else if f == 2 {
            if starts_with_seq(fr.id, ids[4]) { ids[4] } else { ids[5] }
        } else if f == 3 {
            if starts_with_seq(fr.id, ids[6]) { ids[6] } else { ids[7] }
        } else if f == 4 {
            if starts_with_seq(fr.id, ids[8]) { ids[8] } else { ids[9] }
        } else {
            if starts_with_seq(fr.id, ids[15]) { ids[15] } else { ids[16] }
        };
        lemma_leading_chars(fr.id, a);
        assert forall|k: int| 0 <= k < ids.len() && (ids[k][1] != a[1] || ids[k][2] != a[2]) implies !starts_with_seq(
            fr.id,
            #[trigger] ids[k],
        ) by {
            if starts_with_seq(fr.id, ids[k]) {
                lemma_leading_chars(fr.id, ids[k]);
            }
        }
        assert(!starts_with_seq(fr.id, ids[0]) || f == 0);
        assert(!starts_with_seq(fr.id, ids[1]) || f == 0);
        assert(!starts_with_seq(fr.id, ids[2]) || f == 1);
        assert(!starts_with_seq(fr.id, ids[3]) || f == 1);
        assert(!starts_with_seq(fr.id, ids[4]) || f == 2);
        assert(!starts_with_seq(fr.id, ids[5]) || f == 2);
        assert(!starts_with_seq(fr.id, ids[6]) || f == 3);
        assert(!starts_with_seq(fr.id, ids[7]) || f == 3);
        assert(!starts_with_seq(fr.id, ids[8]) || f == 4);
        assert(!starts_with_seq(fr.id, ids[9]) || f == 4);
        assert(!starts_with_seq(fr.id, ids[10]));
        assert(!starts_with_seq(fr.id, ids[11]));
        assert(!starts_with_seq(fr.id, ids[12]));
        assert(!starts_with_seq(fr.id, ids[13]));
        assert(!starts_with_seq(fr.id, ids[14]));
        assert(!starts_with_seq(fr.id, ids[15]) || f == 5);
        assert(!starts_with_seq(fr.id, ids[16]) || f == 5);
    }
}

proof fn lemma_fold_text_field(fs: Seq<FrameV>, f: int, k: int, t: Seq<char>, n: int)
    requires
        0 <= f <= 5,
        0 <= k < fs.len(),
        0 <= n <= fs.len(),
        text_field_frame(f, fs[k].id),
        text_field_value(f, fs[k].data) == Some(t),
        forall|j: int| 0 <= j < k && text_field_frame(f, #[trigger] fs[j].id) ==> text_field_value(f, fs[j].data) is None,
    ensures
        n <= k ==> text_field(mp3_fold(fs.take(n)).meta, f) is None,
        n > k ==> text_field(mp3_fold(fs.take(n)).meta, f) == Some(t),
    decreases n,
{
    if n > 0 {
        lemma_fold_text_field(fs, f, k, t, n - 1);
        assert(fs.take(n).drop_last() =~= fs.take(n - 1));
        assert(fs.take(n).last() == fs[n - 1]);
        lemma_step_text_field(mp3_fold(fs.take(n - 1)), fs[n - 1], f);
    } else {
        assert(text_field(empty_metadata(), f) is None);
    }
}

/// Each text field of an MP3's tag comes from the first frame of that
/// field that yields a value: the title from TIT2 (TT2), the artist from
/// TPE1 (TP1), the album from TALB (TAL), the genre from TCON (TCO) read as
/// a genre, the label from TPUB (TPB), the key from TKEY (TKE); later frames
/// of the field do not change it.
pub proof fn law_mp3_text_field_is_the_first_frame(fs: Seq<FrameV>, f: int, k: int, t: Seq<char>)
    requires
        0 <= f <= 5,
        0 <= k < fs.len(),
        text_field_frame(f, fs[k].id),
        text_field_value(f, fs[k].data) == Some(t),
        forall|j: int| 0 <= j < k && text_field_frame(f, #[trigger] fs[j].id) ==> text_field_value(f, fs[j].data) is None,
    ensures
        walk_result(mp3_fold(fs)) matches Some(m) && text_field(m, f) == Some(t),
{
    lemma_fold_text_field(fs, f, k, t, fs.len() as int);
    assert(fs.take(fs.len() as int) =~= fs);
    let w = mp3_fold(fs);
    let art = if w.front is Some { w.front } else { w.any };
    let m = match art {
        Some(a) => MetadataV { artwork: Some(a.data), artwork_mime_type: Some(a.mime_type), ..w.meta },
        None => w.meta,
    };
    assert(text_field(m, f) == text_field(w.meta, f));
}

/// True for the ids of attached-picture frames: `APIC`, and `PIC` in
/// ID3v2.2.
pub open spec fn picture_frame_id(id: Seq<char>) -> bool {
    starts_with_seq(id, "APIC"@) || starts_with_seq(id, "PIC"@)
}

/// A frame that carries a front cover.
pub open spec fn front_cover_frame(f: FrameV) -> bool {
    &&& picture_frame_id(f.id)
    &&& apic_of(f.data) is Some
    &&& apic_of(f.data)->0.picture_type == PictureType::FrontCover
}

proof fn lemma_step_front(s: TagWalk, fr: FrameV)
    ensures
        mp3_step(s, fr).front == (if front_cover_frame(fr) { apic_of(fr.data) } else { s.front }),
{
    reveal_strlit("TIT2");
    reveal_strlit("TT2");
    reveal_strlit("TPE1");
    reveal_strlit("TP1");
    reveal_strlit("TALB");
    reveal_strlit("TAL");
    reveal_strlit("TCON");
    reveal_strlit("TCO");
    reveal_strlit("TPUB");
    reveal_strlit("TPB");
    reveal_strlit("TYER");
    reveal_strlit("TYE");
    reveal_strlit("TDRC");
    reveal_strlit("TBPM");
    reveal_strlit("TBP");
    reveal_strlit("TKEY");
    reveal_strlit("TKE");
    reveal_strlit("APIC");
    reveal_strlit("PIC");
    if picture_frame_id(fr.id) {
        let a = if starts_with_seq(fr.id, "APIC"@) { "APIC"@ } else { "PIC"@ };
        lemma_leading_chars(fr.id, a);
        let ids = seq![
            "TIT2"@, "TT2"@, "TPE1"@, "TP1"@, "TALB"@, "TAL"@, "TCON"@, "TCO"@, "TPUB"@, "TPB"@, "TYER"@, "TYE"@,
            "TDRC"@, "TBPM"@, "TBP"@, "TKEY"@, "TKE"@,
        ];
        assert forall|k: int| 0 <= k < ids.len() implies !starts_with_seq(fr.id, #[trigger] ids[k]) by {
            if starts_with_seq(fr.id, ids[k]) {
                lemma_leading_chars(fr.id, ids[k]);
            }
        }
        assert(!starts_with_seq(fr.id, ids[0]) && !starts_with_seq(fr.id, ids[1]) && !starts_with_seq(fr.id, ids[2]));
        assert(!starts_with_seq(fr.id, ids[3]) && !starts_with_seq(fr.id, ids[4]) && !starts_with_seq(fr.id, ids[5]));
        assert(!starts_with_seq(fr.id, ids[6]) && !starts_with_seq(fr.id, ids[7]) && !starts_with_seq(fr.id, ids[8]));
        assert(!starts_with_seq(fr.id, ids[9]) && !starts_with_seq(fr.id, ids[10]) && !starts_with_seq(fr.id, ids[11]));
        assert(!starts_with_seq(fr.id, ids[12]) && !starts_with_seq(fr.id, ids[13]) && !starts_with_seq(fr.id, ids[14]));
        assert(!starts_with_seq(fr.id, ids[15]) && !starts_with_seq(fr.id, ids[16]));
    }
}

proof fn lemma_fold_front(fs: Seq<FrameV>, k: int, n: int)
    requires
        0 <= k < n <= fs.len(),
        front_cover_frame(fs[k]),
        forall|j: int| k < j < fs.len() ==> !front_cover_frame(#[trigger] fs[j]),
    ensures
        mp3_fold(fs.take(n)).front == apic_of(fs[k].data),
    decreases n,
{
    assert(fs.take(n).drop_last() =~= fs.take(n - 1));
    assert(fs.take(n).last() == fs[n - 1]);
    lemma_step_front(mp3_fold(fs.take(n - 1)), fs[n - 1]);
    if n - 1 > k {
        lemma_fold_front(fs, k, n - 1);
    }
}

/// Where a tag carries a front cover, its artwork is a front cover: the
/// image and MIME type of the last picture frame that holds one, whatever
/// other pictures come before or after.
pub proof fn law_mp3_artwork_is_the_front_cover(fs: Seq<FrameV>, k: int)
    requires
        0 <= k < fs.len(),
        front_cover_frame(fs[k]),
        forall|j: int| k < j < fs.len() ==> !front_cover_frame(#[trigger] fs[j]),
    ensures
        walk_result(mp3_fold(fs)) matches Some(m) && m.artwork == Some(apic_of(fs[k].data)->0.data)
            && m.artwork_mime_type == Some(apic_of(fs[k].data)->0.mime_type),
{
    lemma_fold_front(fs, k, fs.len() as int);
    assert(fs.take(fs.len() as int) =~= fs);
}

/// The tempo texts a run of frames holds, in order: the text of each
/// `TBPM` (`TBP` in ID3v2.2) frame that holds a tempo.
pub open spec fn tempo_texts(fs: Seq<FrameV>) -> Seq<BpmTagV>
    decreases fs.len(),
{
    if fs.len() == 0 {
        Seq::empty()
    } else {
        let rest = tempo_texts(fs.drop_last());
        let f = fs.last();
        if (starts_with_seq(f.id, "TBPM"@) || starts_with_seq(f.id, "TBP"@)) && text_frame_of(f.data) is Some
            && holds_tempo(text_frame_of(f.data)->0) {
            rest.push(BpmTagV::Text(text_frame_of(f.data)->0))
        } else {
            rest
        }
    }
}

proof fn lemma_step_tempo(s: TagWalk, fr: FrameV)
    ensures
        mp3_step(s, fr).meta.bpm_tags == (if (starts_with_seq(fr.id, "TBPM"@) || starts_with_seq(fr.id, "TBP"@))
            && text_frame_of(fr.data) is Some && holds_tempo(text_frame_of(fr.data)->0) {
            s.meta.bpm_tags.push(BpmTagV::Text(text_frame_of(fr.data)->0))
        } else {
            s.meta.bpm_tags
        }),
{
    reveal_strlit("TIT2");
    reveal_strlit("TT2");
    reveal_strlit("TPE1");
    reveal_strlit("TP1");
    reveal_strlit("TALB");
    reveal_strlit("TAL");
    reveal_strlit("TCON");
    reveal_strlit("TCO");
    reveal_strlit("TPUB");
    reveal_strlit("TPB");
    reveal_strlit("TYER");
    reveal_strlit("TYE");
    reveal_strlit("TDRC");
    reveal_strlit("TBPM");
    reveal_strlit("TBP");
    if starts_with_seq(fr.id, "TBPM"@) || starts_with_seq(fr.id, "TBP"@) {
        let a = if starts_with_seq(fr.id, "TBPM"@) { "TBPM"@ } else { "TBP"@ };
        lemma_leading_chars(fr.id, a);
        let ids = seq![
            "TIT2"@, "TT2"@, "TPE1"@, "TP1"@, "TALB"@, "TAL"@, "TCON"@, "TCO"@, "TPUB"@, "TPB"@, "TYER"@, "TYE"@,
            "TDRC"@,
        ];
        assert forall|k: int| 0 <= k < ids.len() implies !starts_with_seq(fr.id, #[trigger] ids[k]) by {
            if starts_with_seq(fr.id, ids[k]) {
                lemma_leading_chars(fr.id, ids[k]);
            }
        }
        assert(!starts_with_seq(fr.id, ids[0]) && !starts_with_seq(fr.id, ids[1]) && !starts_with_seq(fr.id, ids[2]));
        assert(!starts_with_seq(fr.id, ids[3]) && !starts_with_seq(fr.id, ids[4]) && !starts_with_seq(fr.id, ids[5]));
        assert(!starts_with_seq(fr.id, ids[6]) && !starts_with_seq(fr.id, ids[7]) && !starts_with_seq(fr.id, ids[8]));
        assert(!starts_with_seq(fr.id, ids[9]) && !starts_with_seq(fr.id, ids[10]) && !starts_with_seq(fr.id, ids[11]));
        assert(!starts_with_seq(fr.id, ids[12]));
    }
}

/// The tempo tags of an MP3's tag are the texts of its tempo frames
/// (`TBPM`, `TBP`) that hold a tempo, in the order of the frames.
pub proof fn law_mp3_tempo_tags(fs: Seq<FrameV>)
    ensures
        mp3_fold(fs).meta.bpm_tags == tempo_texts(fs),
    decreases fs.len(),
{
    if fs.len() > 0 {
        law_mp3_tempo_tags(fs.drop_last());
        lemma_step_tempo(mp3_fold(fs.drop_last()), fs.last());
    }
}

} // verus!
