//! AIFF metadata: AIFF files can contain ID3v2 tags in an 'ID3 ' chunk.

use vstd::prelude::*;
use crate::bytes::{be_u32, read_be_u32};
use crate::error::Error;
use crate::metadata::parsers::id3::{extract_from_mp3, meta_view, mp3_metadata};
use crate::metadata::reader::BufferReader;
use crate::metadata::types::{window, ExtractedMetadata, FileReader, MetadataV};

verus! {

broadcast use vstd::slice::group_slice_axioms;

/// True when the four bytes at `i` are the ASCII text `a b c d`.
pub open spec fn tag_at(s: Seq<u8>, i: int, a: u8, b: u8, c: u8, d: u8) -> bool {
    s[i] == a && s[i + 1] == b && s[i + 2] == c && s[i + 3] == d
}

/// The header of an AIFF file: `FORM`, its size, then `AIFF` or `AIFC`.
pub open spec fn aiff_header_ok(h: Seq<u8>) -> bool {
    &&& h.len() >= 12
    &&& tag_at(h, 0, 0x46, 0x4f, 0x52, 0x4d)
    &&& (tag_at(h, 8, 0x41, 0x49, 0x46, 0x46) || tag_at(h, 8, 0x41, 0x49, 0x46, 0x43))
}

/// The first `ID3 ` (or `id3 `) chunk from `offset` on, as (offset, size)
/// of its body; the walk stops at a chunk of size zero or one that runs
/// past the end of the form. Chunks are padded to even lengths.
pub open spec fn id3_chunk_from(c: Seq<u8>, offset: int, file_end: int) -> Option<(int, int)>
    decreases file_end - offset,
{
    if offset + 8 >= file_end {
        None
    } else {
        let h = window(c, offset, 8);
        if h.len() < 8 {
            None
        } else {
            let size = be_u32(h, 4) as int;
            if size == 0 || offset + 8 + size > file_end {
                None
            } else if tag_at(h, 0, 0x49, 0x44, 0x33, 0x20) || tag_at(h, 0, 0x69, 0x64, 0x33, 0x20) {
                Some((offset + 8, size))
            } else if offset + 8 + size + size % 2 >= file_end {
                None
            } else {
                id3_chunk_from(c, offset + 8 + size + size % 2, file_end)
            }
        }
    }
}

/// The ID3 chunk of an AIFF file.
pub open spec fn aiff_id3_chunk(c: Seq<u8>) -> Option<(int, int)> {
    let h = window(c, 0, 12);
    if !aiff_header_ok(h) {
        None
    } else {
        let end = 8 + be_u32(h, 4) as int;
        id3_chunk_from(c, 12, if end < c.len() { end } else { c.len() as int })
    }
}

/// Locate the ID3 chunk of an AIFF file: (offset, size) of its body.
pub fn find_aiff_id3_chunk<R: FileReader>(reader: &R) -> (r: Result<Option<(u64, u64)>, Error>)
    ensures
        r matches Ok(o) ==> match o {
            Some((a, b)) => aiff_id3_chunk(reader.content()) == Some((a as int, b as int)),
            None => aiff_id3_chunk(reader.content()) is None,
        },
        reader.reads_succeed() ==> r is Ok,
{
    let ghost c = reader.content();
    // Read AIFF header (12 bytes minimum)
    let header = reader.read(0, 12)?;
    if header.len() < 12 {
        return Ok(None);
    }
    let form = header[0] == 0x46 && header[1] == 0x4f && header[2] == 0x52 && header[3] == 0x4d;
    let aiff = header[8] == 0x41 && header[9] == 0x49 && header[10] == 0x46 && header[11] == 0x46;
    let aifc = header[8] == 0x41 && header[9] == 0x49 && header[10] == 0x46 && header[11] == 0x43;
    if !form || !(aiff || aifc) {
        return Ok(None);
    }

    let form_size = read_be_u32(header.as_slice(), 4) as u64;
    let size = reader.size();
    let file_end = if 8 + form_size < size { 8 + form_size } else { size };

    let mut offset: u64 = 12;
    // Iterate through chunks looking for the ID3 tag
    while offset < file_end && file_end - offset > 8
        invariant
            c == reader.content(),
            size == c.len(),
            file_end <= size,
            aiff_id3_chunk(c) == id3_chunk_from(c, offset as int, file_end as int),
        decreases file_end - offset,
    {
        let chunk_header = reader.read(offset, 8)?;
        if chunk_header.len() < 8 {
            return Ok(None);
        }
        let chunk_size = read_be_u32(chunk_header.as_slice(), 4) as u64;
        if chunk_size == 0 || chunk_size > file_end - offset - 8 {
            return Ok(None);
        }

        // Check for ID3 chunk (can be 'ID3 ' or 'id3 ')
        let upper = chunk_header[0] == 0x49 && chunk_header[1] == 0x44 && chunk_header[2] == 0x33 && chunk_header[3] == 0x20;
        let lower = chunk_header[0] == 0x69 && chunk_header[1] == 0x64 && chunk_header[2] == 0x33 && chunk_header[3] == 0x20;
        if upper || lower {
            return Ok(Some((offset + 8, chunk_size)));
        }

        // AIFF chunks are padded to even byte boundaries
        let step = 8 + chunk_size + chunk_size % 2;
        if step >= file_end - offset {
            return Ok(None);
        }
        offset = offset + step;
    }
    Ok(None)
}

/// The metadata of an AIFF file: that of the ID3 tag in its ID3 chunk.
pub open spec fn aiff_metadata(c: Seq<u8>) -> Option<Option<MetadataV>> {
    match aiff_id3_chunk(c) {
        None => Some(None),
        Some((o, n)) => mp3_metadata(window(c, o, n)),
    }
}

/// Extract metadata from an AIFF file by delegating its ID3 chunk to the ID3 parser.
pub fn extract_from_aiff<R: FileReader>(reader: &R) -> (r: Result<Option<ExtractedMetadata>, Error>)
    ensures
        r matches Ok(o) ==> aiff_metadata(reader.content()) == Some(meta_view(o)),
        reader.reads_succeed() && aiff_metadata(reader.content()) is Some ==> r is Ok,
{
    let (offset, size) = match find_aiff_id3_chunk(reader)? {
        Some(chunk) => chunk,
        None => return Ok(None),
    };
    let id3_data = reader.read(offset, size)?;
    let id3_reader = BufferReader::new(id3_data, "mp3");
    extract_from_mp3(&id3_reader)
}

} // verus!
