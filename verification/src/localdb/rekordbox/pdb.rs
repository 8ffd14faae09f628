//! Reader for the DeviceSQL database export (`export.pdb`) rekordbox writes
//! to USB and SD media.
//!
//! The file is divided into fixed-size pages; the first page lists the
//! tables, each a linked list of pages whose rows are located through an
//! index built backwards from the end of the page.

use vstd::prelude::*;
use crate::bytes::{le_u16, le_u32, read_le_u16, read_le_u32};
use crate::error::{Error, ParseError};
use crate::text::{decode_utf16_lossy, decode_utf8_lossy, utf16_lossy, utf8_lossy};

verus! {

broadcast use vstd::slice::group_slice_axioms;

/// The kind of rows a table holds.
#[derive(Debug, Clone, Copy, PartialEq, Eq, Hash, Structural)]
pub enum PageType {
    Tracks,
    Genres,
    Artists,
    Albums,
    Labels,
    Keys,
    Colors,
    PlaylistTree,
    PlaylistEntries,
    Unknown9,
    Unknown10,
    /// The rows all seem to have history file names in them, such as "HISTORY 001".
    Unknown11,
    Unknown12,
    Artwork,
    Unknown14,
    Unknown15,
    Columns,
    Unknown17,
    Unknown18,
    History,
    Other(u32),
}

/// The page type a raw value stands for.
pub open spec fn page_type_of(v: u32) -> PageType {
    if v == 0 { PageType::Tracks }
    else if v == 1 { PageType::Genres }
    else if v == 2 { PageType::Artists }
    else if v == 3 { PageType::Albums }
    else if v == 4 { PageType::Labels }
    else if v == 5 { PageType::Keys }
    else if v == 6 { PageType::Colors }
    else if v == 7 { PageType::PlaylistTree }
    else if v == 8 { PageType::PlaylistEntries }
    else if v == 9 { PageType::Unknown9 }
    else if v == 10 { PageType::Unknown10 }
    else if v == 11 { PageType::Unknown11 }
    else if v == 12 { PageType::Unknown12 }
    else if v == 13 { PageType::Artwork }
    else if v == 14 { PageType::Unknown14 }
    else if v == 15 { PageType::Unknown15 }
    else if v == 16 { PageType::Columns }
    else if v == 17 { PageType::Unknown17 }
    else if v == 18 { PageType::Unknown18 }
    else if v == 19 { PageType::History }
    else { PageType::Other(v) }
}

impl PageType {
    /// The page type for a raw value.
    pub fn from_u32(v: u32) -> (r: PageType)
        ensures
            r == page_type_of(v),
    {
        match v {
            0 => PageType::Tracks,
            1 => PageType::Genres,
            2 => PageType::Artists,
            3 => PageType::Albums,
            4 => PageType::Labels,
            5 => PageType::Keys,
            6 => PageType::Colors,
            7 => PageType::PlaylistTree,
            8 => PageType::PlaylistEntries,
            9 => PageType::Unknown9,
            10 => PageType::Unknown10,
            11 => PageType::Unknown11,
            12 => PageType::Unknown12,
            13 => PageType::Artwork,
            14 => PageType::Unknown14,
            15 => PageType::Unknown15,
            16 => PageType::Columns,
            17 => PageType::Unknown17,
            18 => PageType::Unknown18,
            19 => PageType::History,
            other => PageType::Other(other),
        }
    }
}

/// A table header from the first page.
#[derive(Debug, Clone, Copy, PartialEq, Eq, Structural)]
pub struct Table {
    pub page_type: PageType,
    pub empty_candidate: u32,
    /// Index of the first page of the table. The first page seems to always
    /// contain similar garbage patterns and zero rows, but the next page it
    /// links to contains the start of the meaningful data rows.
    pub first_page: u32,
    /// Index of the last page that makes up this table.
    pub last_page: u32,
}

/// A row that holds an id and a name (genres, artists, albums, labels, keys,
/// colors).
#[derive(Debug, Clone, PartialEq, Eq)]
pub struct IdNameRow {
    pub id: u32,
    pub name: String,
}

#[derive(Debug, Clone, PartialEq, Eq)]
pub struct ArtworkRow {
    pub id: u32,
    pub path: String,
}

#[derive(Debug, Clone, PartialEq, Eq)]
pub struct PlaylistTreeRow {
    /// The ID of the playlist tree row in which this one can be found, or
    /// `0` if this playlist exists at the root level.
    pub parent_id: u32,
    pub sort_order: u32,
    pub id: u32,
    /// Has a non-zero value if this is actually a folder rather than a playlist.
    pub raw_is_folder: u32,
    pub name: String,
}

impl PlaylistTreeRow {
    pub fn is_folder(&self) -> (r: bool)
        ensures
            r == (self.raw_is_folder != 0),
    {
        self.raw_is_folder != 0
    }
}

#[derive(Debug, Clone, Copy, PartialEq, Eq, Structural)]
pub struct PlaylistEntryRow {
    /// The position within the playlist represented by this entry.
    pub entry_index: u32,
    pub track_id: u32,
    pub playlist_id: u32,
}

/// A row that describes a track that can be played.
#[derive(Debug, Clone, PartialEq, Eq, Default)]
pub struct TrackRow {
    pub index_shift: u16,
    pub bitmask: u32,
    pub sample_rate: u32,
    pub composer_id: u32,
    pub file_size: u32,
    pub artwork_id: u32,
    pub key_id: u32,
    pub original_artist_id: u32,
    pub label_id: u32,
    pub remixer_id: u32,
    pub bitrate: u32,
    pub track_number: u32,
    /// Beats per minute, multiplied by 100.
    pub tempo: u32,
    pub genre_id: u32,
    pub album_id: u32,
    pub artist_id: u32,
    pub id: u32,
    pub disc_number: u16,
    pub play_count: u16,
    pub year: u16,
    pub sample_depth: u16,
    /// Seconds.
    pub duration: u16,
    pub color_id: u8,
    pub rating: u8,
    pub isrc: String,
    pub texter: String,
    pub unknown_string_2: String,
    pub unknown_string_3: String,
    pub unknown_string_4: String,
    pub message: String,
    /// Always either empty or "ON".
    pub kuvo_public: String,
    /// Always either empty or "ON".
    pub autoload_hotcues: String,
    pub unknown_string_5: String,
    pub unknown_string_6: String,
    pub date_added: String,
    pub release_date: String,
    pub mix_name: String,
    pub unknown_string_7: String,
    pub analyze_path: String,
    pub analyze_date: String,
    pub comment: String,
    pub title: String,
    pub unknown_string_8: String,
    pub filename: String,
    pub file_path: String,
}

/// A parsed row of any known table.
#[derive(Debug, Clone, PartialEq, Eq)]
pub enum Row {
    Track(Box<TrackRow>),
    Genre(IdNameRow),
    Artist(IdNameRow),
    Album(IdNameRow),
    Label(IdNameRow),
    Key(IdNameRow),
    Color(IdNameRow),
    PlaylistTree(PlaylistTreeRow),
    PlaylistEntry(PlaylistEntryRow),
    Artwork(ArtworkRow),
}

// ---------------------------------------------------------------------------
// The model of a row: its numbers, and its strings as characters.
// ---------------------------------------------------------------------------

/// A track row with its strings as characters, in the order the row's string
/// offset table lists them.
pub struct TrackRowV {
    pub index_shift: u16,
    pub bitmask: u32,
    pub sample_rate: u32,
    pub composer_id: u32,
    pub file_size: u32,
    pub artwork_id: u32,
    pub key_id: u32,
    pub original_artist_id: u32,
    pub label_id: u32,
    pub remixer_id: u32,
    pub bitrate: u32,
    pub track_number: u32,
    pub tempo: u32,
    pub genre_id: u32,
    pub album_id: u32,
    pub artist_id: u32,
    pub id: u32,
    pub disc_number: u16,
    pub play_count: u16,
    pub year: u16,
    pub sample_depth: u16,
    pub duration: u16,
    pub color_id: u8,
    pub rating: u8,
    pub strings: Seq<Seq<char>>,
}

/// A row with its strings as characters.
pub enum RowV {
    Track(TrackRowV),
    Genre(u32, Seq<char>),
    Artist(u32, Seq<char>),
    Album(u32, Seq<char>),
    Label(u32, Seq<char>),
    Key(u32, Seq<char>),
    Color(u32, Seq<char>),
    PlaylistTree(u32, u32, u32, u32, Seq<char>),
    PlaylistEntry(PlaylistEntryRow),
    Artwork(u32, Seq<char>),
}

impl TrackRow {
    /// The strings of the row, in the order of its string offset table.
    pub open spec fn strings(self) -> Seq<Seq<char>> {
        seq![
            self.isrc@, self.texter@, self.unknown_string_2@, self.unknown_string_3@, self.unknown_string_4@,
            self.message@, self.kuvo_public@, self.autoload_hotcues@, self.unknown_string_5@,
            self.unknown_string_6@, self.date_added@, self.release_date@, self.mix_name@,
            self.unknown_string_7@, self.analyze_path@, self.analyze_date@, self.comment@, self.title@,
            self.unknown_string_8@, self.filename@, self.file_path@,
        ]
    }

    pub open spec fn model(self) -> TrackRowV {
        TrackRowV {
            index_shift: self.index_shift,
            bitmask: self.bitmask,
            sample_rate: self.sample_rate,
            composer_id: self.composer_id,
            file_size: self.file_size,
            artwork_id: self.artwork_id,
            key_id: self.key_id,
            original_artist_id: self.original_artist_id,
            label_id: self.label_id,
            remixer_id: self.remixer_id,
            bitrate: self.bitrate,
            track_number: self.track_number,
            tempo: self.tempo,
            genre_id: self.genre_id,
            album_id: self.album_id,
            artist_id: self.artist_id,
            id: self.id,
            disc_number: self.disc_number,
            play_count: self.play_count,
            year: self.year,
            sample_depth: self.sample_depth,
            duration: self.duration,
            color_id: self.color_id,
            rating: self.rating,
            strings: self.strings(),
        }
    }
}

impl View for Row {
    type V = RowV;

    open spec fn view(&self) -> RowV {
        match *self {
            Row::Track(t) => RowV::Track(t.model()),
            Row::Genre(r) => RowV::Genre(r.id, r.name@),
            Row::Artist(r) => RowV::Artist(r.id, r.name@),
            Row::Album(r) => RowV::Album(r.id, r.name@),
            Row::Label(r) => RowV::Label(r.id, r.name@),
            Row::Key(r) => RowV::Key(r.id, r.name@),
            Row::Color(r) => RowV::Color(r.id, r.name@),
            Row::PlaylistTree(r) => RowV::PlaylistTree(r.parent_id, r.sort_order, r.id, r.raw_is_folder, r.name@),
            Row::PlaylistEntry(r) => RowV::PlaylistEntry(r),
            Row::Artwork(r) => RowV::Artwork(r.id, r.path@),
        }
    }
}

/// The models of a run of rows.
pub open spec fn rows_model(rows: Seq<Row>) -> Seq<RowV> {
    rows.map_values(|r: Row| r@)
}

// ---------------------------------------------------------------------------
// DeviceSQL strings.
// ---------------------------------------------------------------------------

/// True when `n` bytes can be read at `at`.
pub open spec fn fits(d: Seq<u8>, at: int, n: int) -> bool {
    0 <= at && 0 <= n && at + n <= d.len()
}

/// The UTF-16LE code units of a byte sequence (a trailing odd byte is dropped).
pub open spec fn le_units(b: Seq<u8>) -> Seq<u16> {
    Seq::new(b.len() / 2, |i: int| le_u16(b, 2 * i))
}

/// The text length of a long UTF-16 string whose length field (which
/// counts the 4 header bytes) is `len`.
pub open spec fn utf16_text_len(len: u16) -> int {
    if len >= 4 { len - 4 } else { 0 }
}

/// The length of a short ASCII string: the length byte holds the length,
/// incremented, doubled and incremented again.
pub open spec fn short_len(kind: u8) -> int {
    (kind as int - 1) / 2 - 1
}

/// True when the DeviceSQL string at `at` can be read.
pub open spec fn dsql_ok(d: Seq<u8>, at: int) -> bool {
    &&& fits(d, at, 1)
    &&& if d[at] == 0x40 {
        fits(d, at + 1, 2) && fits(d, at + 3, le_u16(d, at + 1) as int)
    } else if d[at] == 0x90 {
        fits(d, at + 1, 2) && fits(d, at + 4, utf16_text_len(le_u16(d, at + 1)))
    } else {
        d[at] % 2 == 0 || d[at] == 1 || fits(d, at + 1, short_len(d[at]))
    }
}

/// The text of the DeviceSQL string at `at`: long ASCII, long UTF-16LE, or
/// short ASCII (empty when its length byte is invalid).
pub open spec fn dsql_text(d: Seq<u8>, at: int) -> Seq<char> {
    if d[at] == 0x40 {
        utf8_lossy(d.subrange(at + 3, at + 3 + le_u16(d, at + 1)))
    } else if d[at] == 0x90 {
        utf16_lossy(le_units(d.subrange(at + 4, at + 4 + utf16_text_len(le_u16(d, at + 1)))))
    } else if d[at] % 2 == 0 || d[at] == 1 {
        Seq::empty()
    } else {
        utf8_lossy(d.subrange(at + 1, at + 1 + short_len(d[at])))
    }
}

fn u16_le(d: &[u8], at: usize) -> (r: Result<u16, Error>)
    ensures
        r is Ok <==> fits(d@, at as int, 2),
        r matches Ok(v) ==> v == le_u16(d@, at as int),
        r matches Err(e) ==> e == Error::Parse(ParseError::ReadPastEnd),
{
    if at > d.len() || d.len() - at < 2 {
        return Err(Error::Parse(ParseError::ReadPastEnd));
    }
    Ok((d[at + 1] as u16) * 0x100 + (d[at] as u16))
}

fn u32_le(d: &[u8], at: usize) -> (r: Result<u32, Error>)
    ensures
        r is Ok <==> fits(d@, at as int, 4),
        r matches Ok(v) ==> v == le_u32(d@, at as int),
        r matches Err(e) ==> e == Error::Parse(ParseError::ReadPastEnd),
{
    if at > d.len() || d.len() - at < 4 {
        return Err(Error::Parse(ParseError::ReadPastEnd));
    }
    Ok((d[at + 3] as u32) * 0x100_0000 + (d[at + 2] as u32) * 0x1_0000 + (d[at + 1] as u32) * 0x100 + (d[at] as u32))
}

fn u8_at(d: &[u8], at: usize) -> (r: Result<u8, Error>)
    ensures
        r is Ok <==> fits(d@, at as int, 1),
        r matches Ok(v) ==> v == d@[at as int],
        r matches Err(e) ==> e == Error::Parse(ParseError::ReadPastEnd),
{
    if at >= d.len() {
        return Err(Error::Parse(ParseError::ReadPastEnd));
    }
    Ok(d[at])
}

fn le_units_of(b: &[u8]) -> (r: Vec<u16>)
    ensures
        r@ == le_units(b@),
{
    let n = b.len() / 2;
    let mut out: Vec<u16> = Vec::new();
    let mut i: usize = 0;
    while i < n
        invariant
            n == b@.len() / 2,
            i <= n,
            out@.len() == i,
            forall|k: int| 0 <= k < i ==> out@[k] == le_u16(b@, 2 * k),
        decreases n - i,
    {
        assert(2 * i + 2 <= b.len());
        out.push((b[2 * i + 1] as u16) * 0x100 + (b[2 * i] as u16));
        i = i + 1;
    }
    assert(out@ =~= le_units(b@));
    out
}

/// A variable length string which can be stored in a variety of different
/// encodings.
pub fn device_sql_string(d: &[u8], at: usize) -> (r: Result<String, Error>)
    ensures
        r is Ok <==> dsql_ok(d@, at as int),
        r matches Ok(s) ==> s@ == dsql_text(d@, at as int),
        r matches Err(e) ==> e == Error::Parse(ParseError::ReadPastEnd),
{
    let length_and_kind = u8_at(d, at)?;
    assert(at < d.len());
    if length_and_kind == 0x40 {
        // An ASCII-encoded string preceded by a two-byte length field.
        let length = u16_le(d, at + 1)? as usize;
        if length > d.len() - (at + 3) {
            return Err(Error::Parse(ParseError::ReadPastEnd));
        }
        Ok(decode_utf8_lossy(&d[at + 3..at + 3 + length]))
    } else if length_and_kind == 0x90 {
        // A UTF-16LE-encoded string preceded by a two-byte length field.
        let length = u16_le(d, at + 1)?;
        let text_len: usize = if length >= 4 { (length - 4) as usize } else { 0 };
        if d.len() - at < 4 || text_len > d.len() - (at + 4) {
            return Err(Error::Parse(ParseError::ReadPastEnd));
        }
        let units = le_units_of(&d[at + 4..at + 4 + text_len]);
        Ok(decode_utf16_lossy(units.as_slice()))
    } else {
        // An ASCII-encoded string up to 127 bytes long.
        let mangled = length_and_kind;
        if mangled % 2 == 0 || mangled == 1 {
            // Skip invalid strings
            return Ok(String::new());
        }
        let length: usize = ((mangled as usize) - 1) / 2 - 1;
        if length > d.len() - (at + 1) {
            return Err(Error::Parse(ParseError::ReadPastEnd));
        }
        Ok(decode_utf8_lossy(&d[at + 1..at + 1 + length]))
    }
}

// ---------------------------------------------------------------------------
// Rows.
// ---------------------------------------------------------------------------

/// The id and name read from fixed offsets of a row.
pub open spec fn id_name_ok(d: Seq<u8>, base: int, id_at: int, name_at: int) -> bool {
    fits(d, base + id_at, 4) && dsql_ok(d, base + name_at)
}

/// The offset of the `i`-th string of the track row at `base`.
pub open spec fn track_string_at(d: Seq<u8>, base: int, i: int) -> int {
    base + le_u16(d, base + 94 + 2 * i)
}

pub open spec fn track_row_ok(d: Seq<u8>, base: int) -> bool {
    &&& fits(d, base, 136)
    &&& forall|i: int| 0 <= i < 21 ==> dsql_ok(d, #[trigger] track_string_at(d, base, i))
}

pub open spec fn track_row_model(d: Seq<u8>, base: int) -> TrackRowV {
    TrackRowV {
        index_shift: le_u16(d, base + 2),
        bitmask: le_u32(d, base + 4),
        sample_rate: le_u32(d, base + 8),
        composer_id: le_u32(d, base + 12),
        file_size: le_u32(d, base + 16),
        artwork_id: le_u32(d, base + 28),
        key_id: le_u32(d, base + 32),
        original_artist_id: le_u32(d, base + 36),
        label_id: le_u32(d, base + 40),
        remixer_id: le_u32(d, base + 44),
        bitrate: le_u32(d, base + 48),
        track_number: le_u32(d, base + 52),
        tempo: le_u32(d, base + 56),
        genre_id: le_u32(d, base + 60),
        album_id: le_u32(d, base + 64),
        artist_id: le_u32(d, base + 68),
        id: le_u32(d, base + 72),
        disc_number: le_u16(d, base + 76),
        play_count: le_u16(d, base + 78),
        year: le_u16(d, base + 80),
        sample_depth: le_u16(d, base + 82),
        duration: le_u16(d, base + 84),
        color_id: d[base + 88],
        rating: d[base + 89],
        strings: Seq::new(21, |i: int| dsql_text(d, track_string_at(d, base, i))),
    }
}

/// The offset of an artist row's name: a 16-bit offset for the long
/// subtype 0x64, an 8-bit one otherwise.
pub open spec fn artist_name_ok(d: Seq<u8>, base: int) -> bool {
    fits(d, base, 2) && if le_u16(d, base) == 0x64 { fits(d, base + 0x0a, 2) } else { fits(d, base + 9, 1) }
}

pub open spec fn artist_name_at(d: Seq<u8>, base: int) -> int {
    base + if le_u16(d, base) == 0x64 { le_u16(d, base + 0x0a) as int } else { d[base + 9] as int }
}

/// The row at `base` of a page of the given type: `None` when it cannot be
/// read, `Some(None)` for a table this crate does not read.
pub open spec fn row_model(d: Seq<u8>, base: int, pt: PageType) -> Option<Option<RowV>> {
    match pt {
        PageType::Albums => if fits(d, base + 21, 1) && fits(d, base + 12, 4) && dsql_ok(d, base + d[base + 21]) {
            Some(Some(RowV::Album(le_u32(d, base + 12), dsql_text(d, base + d[base + 21]))))
        } else {
            None
        },
        PageType::Artists => if artist_name_ok(d, base) && fits(d, base + 4, 4) && dsql_ok(d, artist_name_at(d, base)) {
            Some(Some(RowV::Artist(le_u32(d, base + 4), dsql_text(d, artist_name_at(d, base)))))
        } else {
            None
        },
        PageType::Artwork => if id_name_ok(d, base, 0, 4) {
            Some(Some(RowV::Artwork(le_u32(d, base), dsql_text(d, base + 4))))
        } else {
            None
        },
        PageType::Colors => if fits(d, base + 5, 2) && dsql_ok(d, base + 8) {
            Some(Some(RowV::Color(le_u16(d, base + 5) as u32, dsql_text(d, base + 8))))
        } else {
            None
        },
        PageType::Genres => if id_name_ok(d, base, 0, 4) {
            Some(Some(RowV::Genre(le_u32(d, base), dsql_text(d, base + 4))))
        } else {
            None
        },
        PageType::Keys => if id_name_ok(d, base, 0, 8) {
            Some(Some(RowV::Key(le_u32(d, base), dsql_text(d, base + 8))))
        } else {
            None
        },
        PageType::Labels => if id_name_ok(d, base, 0, 4) {
            Some(Some(RowV::Label(le_u32(d, base), dsql_text(d, base + 4))))
        } else {
            None
        },
        PageType::PlaylistTree => if fits(d, base, 20) && dsql_ok(d, base + 20) {
            Some(Some(RowV::PlaylistTree(
                le_u32(d, base),
                le_u32(d, base + 8),
                le_u32(d, base + 12),
                le_u32(d, base + 16),
                dsql_text(d, base + 20),
            )))
        } else {
            None
        },
        PageType::PlaylistEntries => if fits(d, base, 12) {
            Some(Some(RowV::PlaylistEntry(PlaylistEntryRow {
                entry_index: le_u32(d, base),
                track_id: le_u32(d, base + 4),
                playlist_id: le_u32(d, base + 8),
            })))
        } else {
            None
        },
        PageType::Tracks => if track_row_ok(d, base) {
            Some(Some(RowV::Track(track_row_model(d, base))))
        } else {
            None
        },
        _ => Some(None),
    }
}

/// The little-endian 32-bit number whose bytes begin at `o`.
pub open spec fn u32_at(d: Seq<u8>, o: int) -> int {
    d[o] + 0x100 * d[o + 1] + 0x1_0000 * d[o + 2] + 0x100_0000 * d[o + 3]
}

/// The little-endian 16-bit number whose bytes begin at `o`.
pub open spec fn u16_at(d: Seq<u8>, o: int) -> int {
    d[o] + 0x100 * d[o + 1]
}

/// The layout of a track row: each number of a parsed track row is the
/// little-endian number at its offset from the row's start: the bitmask at
/// 4, the sample rate at 8, the composer at 12, the file size at 16, the
/// artwork at 28, the key at 32, the original artist at 36, the label at
/// 40, the remixer at 44, the bit rate at 48, the track number at 52, the
/// tempo at 56, the genre at 60, the album at 64, the artist at 68, the id
/// at 72; the 16-bit index shift at 2, disc number at 76, play count at 78,
/// year at 80, sample depth at 82 and duration at 84; the colour and the
/// rating are the bytes at 88 and 89.
pub proof fn law_track_row_layout(d: Seq<u8>, base: int, t: TrackRowV)
    requires
        row_model(d, base, PageType::Tracks) == Some(Some(RowV::Track(t))),
    ensures
        t.bitmask == u32_at(d, base + 4),
        t.sample_rate == u32_at(d, base + 8),
        t.composer_id == u32_at(d, base + 12),
        t.file_size == u32_at(d, base + 16),
        t.artwork_id == u32_at(d, base + 28),
        t.key_id == u32_at(d, base + 32),
        t.original_artist_id == u32_at(d, base + 36),
        t.label_id == u32_at(d, base + 40),
        t.remixer_id == u32_at(d, base + 44),
        t.bitrate == u32_at(d, base + 48),
        t.track_number == u32_at(d, base + 52),
        t.tempo == u32_at(d, base + 56),
        t.genre_id == u32_at(d, base + 60),
        t.album_id == u32_at(d, base + 64),
        t.artist_id == u32_at(d, base + 68),
        t.id == u32_at(d, base + 72),
        t.index_shift == u16_at(d, base + 2),
        t.disc_number == u16_at(d, base + 76),
        t.play_count == u16_at(d, base + 78),
        t.year == u16_at(d, base + 80),
        t.sample_depth == u16_at(d, base + 82),
        t.duration == u16_at(d, base + 84),
        t.color_id == d[base + 88],
        t.rating == d[base + 89],
{
    assert(fits(d, base, 136));
}

/// The layout of the other rows this crate reads: an album's id is the
/// number at 12 and its name the string the byte at 21 points to; an
/// artist's id is at 4 and its name where the byte at 9 (or, for the long
/// form 0x64, the 16-bit offset at 10) points; genres, labels and artwork
/// have their id at 0 and name (or path) at 4, keys their id at 0 and name
/// at 8, colours their 16-bit id at 5 and name at 8; a playlist tree node
/// holds its parent at 0, sort order at 8, id at 12 and folder flag at 16,
/// its name at 20; a playlist entry its index at 0, track at 4 and playlist
/// at 8.
pub proof fn law_row_layouts(d: Seq<u8>, base: int, r: RowV)
    ensures
        row_model(d, base, PageType::Albums) == Some(Some(r)) ==> r == RowV::Album(
            u32_at(d, base + 12) as u32,
            dsql_text(d, base + d[base + 21]),
        ),
        row_model(d, base, PageType::Artists) == Some(Some(r)) ==> r == RowV::Artist(
            u32_at(d, base + 4) as u32,
            dsql_text(d, base + if u16_at(d, base) == 0x64 { u16_at(d, base + 10) } else { d[base + 9] as int }),
        ),
        row_model(d, base, PageType::Genres) == Some(Some(r)) ==> r == RowV::Genre(u32_at(d, base) as u32, dsql_text(d, base + 4)),
        row_model(d, base, PageType::Labels) == Some(Some(r)) ==> r == RowV::Label(u32_at(d, base) as u32, dsql_text(d, base + 4)),
        row_model(d, base, PageType::Artwork) == Some(Some(r)) ==> r == RowV::Artwork(u32_at(d, base) as u32, dsql_text(d, base + 4)),
        row_model(d, base, PageType::Keys) == Some(Some(r)) ==> r == RowV::Key(u32_at(d, base) as u32, dsql_text(d, base + 8)),
        row_model(d, base, PageType::Colors) == Some(Some(r)) ==> r == RowV::Color(u16_at(d, base + 5) as u32, dsql_text(d, base + 8)),
        row_model(d, base, PageType::PlaylistTree) == Some(Some(r)) ==> r == RowV::PlaylistTree(
            u32_at(d, base) as u32,
            u32_at(d, base + 8) as u32,
            u32_at(d, base + 12) as u32,
            u32_at(d, base + 16) as u32,
            dsql_text(d, base + 20),
        ),
        row_model(d, base, PageType::PlaylistEntries) == Some(Some(r)) ==> r == RowV::PlaylistEntry(PlaylistEntryRow {
            entry_index: u32_at(d, base) as u32,
            track_id: u32_at(d, base + 4) as u32,
            playlist_id: u32_at(d, base + 8) as u32,
        }),
{
}

/// The strings of a track row: the row holds a table of 21 16-bit offsets
/// at 94, each relative to the row's start; string 0 is the ISRC, 6 the
/// KUVO flag, 7 the autoload flag, 10 the date added, 11 the release date,
/// 12 the mix name, 14 the analysis path, 15 the analysis date, 16 the
/// comment, 17 the title, 19 the file name and 20 the file path.
pub proof fn law_track_row_strings(d: Seq<u8>, base: int, t: TrackRow)
    requires
        t.model() == track_row_model(d, base),
    ensures
        t.isrc@ == dsql_text(d, base + u16_at(d, base + 94 + 0)),
        t.kuvo_public@ == dsql_text(d, base + u16_at(d, base + 94 + 12)),
        t.autoload_hotcues@ == dsql_text(d, base + u16_at(d, base + 94 + 14)),
        t.date_added@ == dsql_text(d, base + u16_at(d, base + 94 + 20)),
        t.release_date@ == dsql_text(d, base + u16_at(d, base + 94 + 22)),
        t.mix_name@ == dsql_text(d, base + u16_at(d, base + 94 + 24)),
        t.analyze_path@ == dsql_text(d, base + u16_at(d, base + 94 + 28)),
        t.analyze_date@ == dsql_text(d, base + u16_at(d, base + 94 + 30)),
        t.comment@ == dsql_text(d, base + u16_at(d, base + 94 + 32)),
        t.title@ == dsql_text(d, base + u16_at(d, base + 94 + 34)),
        t.filename@ == dsql_text(d, base + u16_at(d, base + 94 + 38)),
        t.file_path@ == dsql_text(d, base + u16_at(d, base + 94 + 40)),
{
    let m = t.model();
    assert(m.strings == t.strings());
    assert forall|i: int| 0 <= i < 21 implies #[trigger] m.strings[i] == dsql_text(d, base + u16_at(d, base + 94 + 2 * i)) by {
        assert(le_u16(d, base + 94 + 2 * i) as int == u16_at(d, base + 94 + 2 * i));
    }
    assert(m.strings[0] == t.isrc@);
    assert(m.strings[6] == t.kuvo_public@);
    assert(m.strings[7] == t.autoload_hotcues@);
    assert(m.strings[10] == t.date_added@);
    assert(m.strings[11] == t.release_date@);
    assert(m.strings[12] == t.mix_name@);
    assert(m.strings[14] == t.analyze_path@);
    assert(m.strings[15] == t.analyze_date@);
    assert(m.strings[16] == t.comment@);
    assert(m.strings[17] == t.title@);
    assert(m.strings[19] == t.filename@);
    assert(m.strings[20] == t.file_path@);
}


fn parse_id_name(d: &[u8], base: usize, id_at: usize, name_at: usize) -> (r: Result<IdNameRow, Error>)
    requires
        base <= 0x1_0027,
        id_at <= 12,
        name_at <= 0xffff,
    ensures
        r is Ok <==> fits(d@, base + id_at, 4) && dsql_ok(d@, base + name_at),
        r matches Ok(row) ==> row.id == le_u32(d@, base + id_at) && row.name@ == dsql_text(d@, base + name_at),
{
    let id = u32_le(d, base + id_at)?;
    let name = device_sql_string(d, base + name_at)?;
    Ok(IdNameRow { id, name })
}

fn parse_track_row(d: &[u8], base: usize) -> (r: Result<TrackRow, Error>)
    requires
        base <= 0x1_0027,
    ensures
        r is Ok <==> track_row_ok(d@, base as int),
        r matches Ok(t) ==> t.model() == track_row_model(d@, base as int),
{
    if base > d.len() || d.len() - base < 136 {
        return Err(Error::Parse(ParseError::ReadPastEnd));
    }
    let mut strings: Vec<String> = Vec::new();
    let mut i: usize = 0;
    while i < 21
        invariant
            base <= 0x1_0027,
            fits(d@, base as int, 136),
            base + 136 <= d.len(),
            i <= 21,
            strings@.len() == i,
            forall|k: int| 0 <= k < i ==> dsql_ok(d@, #[trigger] track_string_at(d@, base as int, k)),
            forall|k: int| 0 <= k < i ==> (#[trigger] strings@[k])@ == dsql_text(d@, track_string_at(d@, base as int, k)),
        decreases 21 - i,
    {
        let ofs = u16_le(d, base + 94 + i * 2)? as usize;
        assert(track_string_at(d@, base as int, i as int) == base + ofs);
        match device_sql_string(d, base + ofs) {
            Ok(s) => strings.push(s),
            Err(e) => {
                assert(!dsql_ok(d@, track_string_at(d@, base as int, i as int)));
                return Err(e);
            },
        }
        i = i + 1;
    }
    let t = TrackRow {
        index_shift: u16_le(d, base + 2)?,
        bitmask: u32_le(d, base + 4)?,
        sample_rate: u32_le(d, base + 8)?,
        composer_id: u32_le(d, base + 12)?,
        file_size: u32_le(d, base + 16)?,
        artwork_id: u32_le(d, base + 28)?,
        key_id: u32_le(d, base + 32)?,
        original_artist_id: u32_le(d, base + 36)?,
        label_id: u32_le(d, base + 40)?,
        remixer_id: u32_le(d, base + 44)?,
        bitrate: u32_le(d, base + 48)?,
        track_number: u32_le(d, base + 52)?,
        tempo: u32_le(d, base + 56)?,
        genre_id: u32_le(d, base + 60)?,
        album_id: u32_le(d, base + 64)?,
        artist_id: u32_le(d, base + 68)?,
        id: u32_le(d, base + 72)?,
        disc_number: u16_le(d, base + 76)?,
        play_count: u16_le(d, base + 78)?,
        year: u16_le(d, base + 80)?,
        sample_depth: u16_le(d, base + 82)?,
        duration: u16_le(d, base + 84)?,
        color_id: u8_at(d, base + 88)?,
        rating: u8_at(d, base + 89)?,
        isrc: strings[0].clone(),
        texter: strings[1].clone(),
        unknown_string_2: strings[2].clone(),
        unknown_string_3: strings[3].clone(),
        unknown_string_4: strings[4].clone(),
        message: strings[5].clone(),
        kuvo_public: strings[6].clone(),
        autoload_hotcues: strings[7].clone(),
        unknown_string_5: strings[8].clone(),
        unknown_string_6: strings[9].clone(),
        date_added: strings[10].clone(),
        release_date: strings[11].clone(),
        mix_name: strings[12].clone(),
        unknown_string_7: strings[13].clone(),
        analyze_path: strings[14].clone(),
        analyze_date: strings[15].clone(),
        comment: strings[16].clone(),
        title: strings[17].clone(),
        unknown_string_8: strings[18].clone(),
        filename: strings[19].clone(),
        file_path: strings[20].clone(),
    };
    assert(t.strings() =~= Seq::new(21, |i: int| dsql_text(d@, track_string_at(d@, base as int, i))));
    Ok(t)
}

/// Parse the row at `base` of a page of the given type; `None` for a table
/// this crate does not read.
fn parse_row(d: &[u8], base: usize, page_type: PageType) -> (r: Result<Option<Row>, Error>)
    requires
        base <= 0x1_0027,
    ensures
        r is Ok <==> row_model(d@, base as int, page_type) is Some,
        r matches Ok(o) ==> match o {
            Some(row) => row_model(d@, base as int, page_type) == Some(Some(row@)),
            None => row_model(d@, base as int, page_type) == Some(None::<RowV>),
        },
{
    match page_type {
        PageType::Albums => {
            let ofs_name = u8_at(d, base + 21)? as usize;
            let id = u32_le(d, base + 12)?;
            let name = device_sql_string(d, base + ofs_name)?;
            Ok(Some(Row::Album(IdNameRow { id, name })))
        },
        PageType::Artists => {
            let subtype = u16_le(d, base)?;
            let ofs: usize = if subtype == 0x64 { u16_le(d, base + 0x0a)? as usize } else { u8_at(d, base + 9)? as usize };
            let id = u32_le(d, base + 4)?;
            let name = device_sql_string(d, base + ofs)?;
            Ok(Some(Row::Artist(IdNameRow { id, name })))
        },
        PageType::Artwork => {
            let r = parse_id_name(d, base, 0, 4)?;
            Ok(Some(Row::Artwork(ArtworkRow { id: r.id, path: r.name })))
        },
        PageType::Colors => {
            let id = u16_le(d, base + 5)? as u32;
            let name = device_sql_string(d, base + 8)?;
            Ok(Some(Row::Color(IdNameRow { id, name })))
        },
        PageType::Genres => Ok(Some(Row::Genre(parse_id_name(d, base, 0, 4)?))),
        PageType::Keys => Ok(Some(Row::Key(parse_id_name(d, base, 0, 8)?))),
        PageType::Labels => Ok(Some(Row::Label(parse_id_name(d, base, 0, 4)?))),
        PageType::PlaylistTree => {
            let parent_id = u32_le(d, base)?;
            let sort_order = u32_le(d, base + 8)?;
            let id = u32_le(d, base + 12)?;
            let raw_is_folder = u32_le(d, base + 16)?;
            let name = device_sql_string(d, base + 20)?;
            Ok(Some(Row::PlaylistTree(PlaylistTreeRow { parent_id, sort_order, id, raw_is_folder, name })))
        },
        PageType::PlaylistEntries => {
            let entry_index = u32_le(d, base)?;
            let track_id = u32_le(d, base + 4)?;
            let playlist_id = u32_le(d, base + 8)?;
            Ok(Some(Row::PlaylistEntry(PlaylistEntryRow { entry_index, track_id, playlist_id })))
        },
        PageType::Tracks => {
            let t = parse_track_row(d, base)?;
            Ok(Some(Row::Track(Box::new(t))))
        },
        _ => Ok(None),
    }
}

// ---------------------------------------------------------------------------
// Pages and the row index.
// ---------------------------------------------------------------------------

/// `a` followed by the rows of `o`, or nothing when `o` failed.
pub open spec fn prepend<T>(a: Seq<T>, o: Option<Seq<T>>) -> Option<Seq<T>> {
    match o {
        Some(s) => Some(a + s),
        None => None,
    }
}

/// The rows of `first` followed by those of `rest`; fails when either does.
pub open spec fn combine<T>(first: Option<Seq<T>>, rest: Option<Seq<T>>) -> Option<Seq<T>> {
    match first {
        Some(s) => prepend(s, rest),
        None => None,
    }
}

proof fn lemma_prepend_assoc<T>(a: Seq<T>, b: Seq<T>, o: Option<Seq<T>>)
    ensures
        prepend(a, prepend(b, o)) == prepend(a + b, o),
{
    if let Some(s) = o {
        assert(a + (b + s) =~= (a + b) + s);
    }
}

proof fn lemma_combine_prepend<T>(s: Seq<T>, x: Option<Seq<T>>, y: Option<Seq<T>>)
    ensures
        combine(prepend(s, x), y) == prepend(s, combine(x, y)),
{
    if let Some(t) = x {
        lemma_prepend_assoc(s, t, y);
    }
}

proof fn lemma_rows_model_push(rows: Seq<Row>, row: Row)
    ensures
        rows_model(rows.push(row)) == rows_model(rows) + seq![row@],
{
    assert(rows_model(rows.push(row)) =~= rows_model(rows) + seq![row@]);
}

proof fn lemma_rows_model_add(a: Seq<Row>, b: Seq<Row>)
    ensures
        rows_model(a + b) == rows_model(a) + rows_model(b),
{
    assert(rows_model(a + b) =~= rows_model(a) + rows_model(b));
}

proof fn lemma_prepend_empty<T>(o: Option<Seq<T>>)
    ensures
        prepend(Seq::<T>::empty(), o) == o,
{
    if let Some(s) = o {
        assert(Seq::<T>::empty() + s =~= s);
    }
}

/// The page header is 0x28 bytes long; the heap follows it.
pub open spec fn heap_pos() -> int {
    0x28
}

/// True when page `idx` lies inside a file of `len` bytes and is long
/// enough to hold the fixed page header.
pub open spec fn page_fits(len: int, lp: int, idx: int) -> bool {
    lp >= 36 && idx * lp + lp <= len
}

/// The bytes of page `idx`.
pub open spec fn page_bytes(d: Seq<u8>, lp: int, idx: int) -> Seq<u8> {
    d.subrange(idx * lp, idx * lp + lp)
}

/// True when the page holds rows (its flags do not mark it as a non-data page).
pub open spec fn is_data_page_of(p: Seq<u8>) -> bool {
    p[27] & 0x40u8 == 0
}

/// The number of row index entries of a page: the large count where it is
/// larger than the small one and not the marker 0x1fff, the small one otherwise.
pub open spec fn num_rows_of(p: Seq<u8>) -> int {
    if le_u16(p, 34) > p[24] as u16 && le_u16(p, 34) != 0x1fff {
        le_u16(p, 34) as int
    } else {
        p[24] as int
    }
}

/// The number of groups of 16 row index entries for `n` rows.
pub open spec fn num_groups(n: int) -> int {
    (n - 1) / 16 + 1
}

/// The number of entries of group `g`: 16, but for the last group.
pub open spec fn rows_in_group(n: int, g: int) -> int {
    if g < num_groups(n) - 1 { 16 } else { (n - 1) % 16 + 1 }
}

/// True when bit `i` of the presence flags is set.
pub open spec fn slot_present(flags: u16, i: u16) -> bool {
    (flags >> i) & 1u16 != 0
}

/// The row of entry `ri` of the group whose index ends at `base`: nothing
/// for an absent entry or a row that cannot be read, a failure when the
/// entry lies before the start of the page.
pub open spec fn slot_rows(p: Seq<u8>, base: int, ri: int, pt: PageType) -> Option<Seq<RowV>> {
    if !slot_present(le_u16(p, base - 4), ri as u16) {
        Some(Seq::empty())
    } else if base < 6 + 2 * ri {
        None
    } else {
        match row_model(p, heap_pos() + le_u16(p, base - (6 + 2 * ri)), pt) {
            Some(Some(r)) => Some(seq![r]),
            _ => Some(Seq::empty()),
        }
    }
}

/// The rows of entries `ri..count` of the group whose index ends at `base`.
pub open spec fn group_from(p: Seq<u8>, base: int, count: int, pt: PageType, ri: int) -> Option<Seq<RowV>>
    decreases count - ri,
{
    if ri >= count {
        Some(Seq::empty())
    } else {
        combine(slot_rows(p, base, ri, pt), group_from(p, base, count, pt, ri + 1))
    }
}

/// The rows of groups `g..` of a page of `n` rows. Group `g`'s index ends
/// 0x24 bytes per group before the end of the page; the walk stops where
/// fewer than 4 bytes are left, and fails where the index would begin
/// before the page.
pub open spec fn groups_from(p: Seq<u8>, n: int, pt: PageType, g: nat) -> Option<Seq<RowV>>
    decreases num_groups(n) - g,
{
    if g >= num_groups(n) {
        Some(Seq::empty())
    } else if g * 0x24 > p.len() {
        None
    } else if p.len() - g * 0x24 < 4 {
        Some(Seq::empty())
    } else {
        combine(
            group_from(p, p.len() - g * 0x24, rows_in_group(n, g as int), pt, 0),
            groups_from(p, n, pt, g + 1),
        )
    }
}

/// The rows of a data page, in index order.
pub open spec fn page_rows_spec(p: Seq<u8>, pt: PageType) -> Option<Seq<RowV>> {
    if num_rows_of(p) == 0 {
        Some(Seq::empty())
    } else {
        groups_from(p, num_rows_of(p), pt, 0)
    }
}

/// The rows of table `t`, from page `idx` on, having visited `visited`
/// pages: the chain ends where its link points past the last page, back
/// at the same page or past the end of the file, or after a million pages.
pub open spec fn chain_rows(d: Seq<u8>, lp: int, t: Table, idx: int, visited: int) -> Option<Seq<RowV>>
    decreases 1_000_000 - visited,
{
    if !page_fits(d.len() as int, lp, idx) {
        None
    } else {
        let p = page_bytes(d, lp, idx);
        let here = if is_data_page_of(p) { page_rows_spec(p, t.page_type) } else { Some(Seq::empty()) };
        let next = le_u32(p, 12) as int;
        if next > t.last_page || next == idx || visited + 1 > 1_000_000 || next * lp + lp > d.len() {
            here
        } else {
            combine(here, chain_rows(d, lp, t, next, visited + 1))
        }
    }
}

/// The rows a page of table `t` contributes: those of a data page, none for
/// any other page.
pub open spec fn page_contribution(d: Seq<u8>, lp: int, t: Table, idx: int) -> Option<Seq<RowV>> {
    let p = page_bytes(d, lp, idx);
    if is_data_page_of(p) { page_rows_spec(p, t.page_type) } else { Some(Seq::empty()) }
}

/// The pages the walk of table `t` reads from page `idx` on, having read
/// `visited` pages: none where page `idx` does not lie inside the data (the
/// walk fails there), else `idx` and the pages its link leads on to.
pub open spec fn chain_pages(d: Seq<u8>, lp: int, t: Table, idx: int, visited: int) -> Seq<int>
    decreases 1_000_000 - visited,
{
    if !page_fits(d.len() as int, lp, idx) {
        Seq::empty()
    } else {
        let next = le_u32(page_bytes(d, lp, idx), 12) as int;
        if next > t.last_page || next == idx || visited + 1 > 1_000_000 || next * lp + lp > d.len() {
            seq![idx]
        } else {
            seq![idx] + chain_pages(d, lp, t, next, visited + 1)
        }
    }
}

/// The rows the pages `pages` contribute, in order; fails where one fails.
pub open spec fn rows_along(d: Seq<u8>, lp: int, t: Table, pages: Seq<int>) -> Option<Seq<RowV>>
    decreases pages.len(),
{
    if pages.len() == 0 {
        Some(Seq::empty())
    } else {
        combine(page_contribution(d, lp, t, pages[0]), rows_along(d, lp, t, pages.drop_first()))
    }
}

/// Reading a table, whatever the data holds (a looping chain of pages, page
/// counts past the page end), reads at most 1,000,001 pages from the one it
/// starts at; every page after the first is one up to the table's last page
/// that lies wholly inside the data. The rows are those the pages read
/// contribute, in order, and the read fails exactly where the first page lies
/// outside the data or a page's row index does.
pub proof fn law_table_walk_is_bounded(d: Seq<u8>, lp: int, t: Table, idx: int, visited: int)
    requires
        0 <= visited <= 1_000_000,
    ensures
        chain_pages(d, lp, t, idx, visited).len() <= 1_000_001 - visited,
        page_fits(d.len() as int, lp, idx) ==> chain_pages(d, lp, t, idx, visited)[0] == idx,
        forall|k: int| 0 < k < chain_pages(d, lp, t, idx, visited).len() ==> {
            &&& #[trigger] chain_pages(d, lp, t, idx, visited)[k] <= t.last_page
            &&& page_fits(d.len() as int, lp, chain_pages(d, lp, t, idx, visited)[k])
        },
        page_fits(d.len() as int, lp, idx) ==> chain_rows(d, lp, t, idx, visited) == rows_along(
            d,
            lp,
            t,
            chain_pages(d, lp, t, idx, visited),
        ),
        !page_fits(d.len() as int, lp, idx) ==> chain_rows(d, lp, t, idx, visited) is None,
    decreases 1_000_000 - visited,
{
    if page_fits(d.len() as int, lp, idx) {
        let pages = chain_pages(d, lp, t, idx, visited);
        let next = le_u32(page_bytes(d, lp, idx), 12) as int;
        if next > t.last_page || next == idx || visited + 1 > 1_000_000 || next * lp + lp > d.len() {
            assert(pages.drop_first() =~= Seq::<int>::empty());
            assert(pages[0] == idx);
            assert(rows_along(d, lp, t, pages.drop_first()) == Some(Seq::<RowV>::empty()));
            let here = page_contribution(d, lp, t, idx);
            match here {
                Some(h) => assert(h + Seq::<RowV>::empty() =~= h),
                None => {},
            }
            assert(rows_along(d, lp, t, pages) == combine(here, Some(Seq::<RowV>::empty())));
        } else {
            law_table_walk_is_bounded(d, lp, t, next, visited + 1);
            let rest = chain_pages(d, lp, t, next, visited + 1);
            assert(pages.drop_first() =~= rest);
            assert(pages[0] == idx);
            assert(rows_along(d, lp, t, pages) == combine(page_contribution(d, lp, t, idx), rows_along(d, lp, t, rest)));
            assert forall|k: int| 0 < k < pages.len() implies #[trigger] pages[k] <= t.last_page && page_fits(
                d.len() as int,
                lp,
                pages[k],
            ) by {
                assert(pages[k] == rest[k - 1]);
            }
        }
    }
}

/// A row that cannot be read is skipped, not an error: its entry
/// contributes no row.
pub proof fn law_unreadable_rows_are_skipped(p: Seq<u8>, base: int, ri: int, pt: PageType)
    requires
        base >= 6 + 2 * ri,
        row_model(p, heap_pos() + le_u16(p, base - (6 + 2 * ri)), pt) is None,
    ensures
        slot_rows(p, base, ri, pt) == Some(Seq::<RowV>::empty()),
{
}

/// True for the tables whose rows this crate reads.
pub open spec fn has_rows(t: PageType) -> bool {
    match t {
        PageType::Tracks | PageType::Genres | PageType::Artists | PageType::Albums | PageType::Labels
        | PageType::Keys | PageType::Colors | PageType::PlaylistTree | PageType::PlaylistEntries
        | PageType::Artwork => true,
        _ => false,
    }
}

/// The rows of each readable table from `tables[i]` on, in table order.
pub open spec fn all_rows_from(d: Seq<u8>, lp: int, tables: Seq<Table>, i: int) -> Option<Seq<(PageType, Seq<RowV>)>>
    decreases tables.len() - i,
{
    if i >= tables.len() {
        Some(Seq::empty())
    } else if !has_rows(tables[i].page_type) {
        all_rows_from(d, lp, tables, i + 1)
    } else {
        match chain_rows(d, lp, tables[i], tables[i].first_page as int, 0) {
            Some(rs) => prepend(seq![(tables[i].page_type, rs)], all_rows_from(d, lp, tables, i + 1)),
            None => None,
        }
    }
}

/// The tables from `tables[i]` on whose rows this crate reads, in order.
pub open spec fn readable_tables(tables: Seq<Table>, i: int) -> Seq<Table>
    decreases tables.len() - i,
{
    if i >= tables.len() {
        Seq::empty()
    } else if has_rows(tables[i].page_type) {
        seq![tables[i]] + readable_tables(tables, i + 1)
    } else {
        readable_tables(tables, i + 1)
    }
}

/// The rows of a table, read along its page chain from its first page.
pub open spec fn rows_of_table(d: Seq<u8>, lp: int, t: Table) -> Option<Seq<RowV>> {
    chain_rows(d, lp, t, t.first_page as int, 0)
}

/// Reading all tables reads each readable table as reading that table alone
/// does, in table order, and fails exactly when one of those reads fails.
pub proof fn law_all_rows_are_the_table_rows(d: Seq<u8>, lp: int, tables: Seq<Table>, i: int)
    requires
        0 <= i,
    ensures
        all_rows_from(d, lp, tables, i) is Some <==> (forall|k: int|
            0 <= k < readable_tables(tables, i).len() ==> (#[trigger] rows_of_table(d, lp, readable_tables(tables, i)[k])) is Some),
        all_rows_from(d, lp, tables, i) matches Some(out) ==> {
            &&& out.len() == readable_tables(tables, i).len()
            &&& forall|k: int| 0 <= k < out.len() ==> out[k] == (readable_tables(tables, i)[k].page_type,
                rows_of_table(d, lp, #[trigger] readable_tables(tables, i)[k])->0)
        },
    decreases tables.len() - i,
{
    if i < tables.len() {
        law_all_rows_are_the_table_rows(d, lp, tables, i + 1);
        let rest = readable_tables(tables, i + 1);
        if has_rows(tables[i].page_type) {
            let r = readable_tables(tables, i);
            assert(r[0] == tables[i]);
            assert forall|k: int| 0 <= k < rest.len() implies r[k + 1] == rest[k] by {}
            if all_rows_from(d, lp, tables, i) is Some {
                let out = all_rows_from(d, lp, tables, i)->0;
                let tail = all_rows_from(d, lp, tables, i + 1)->0;
                assert forall|k: int| 0 <= k < r.len() implies (#[trigger] rows_of_table(d, lp, r[k])) is Some by {
                    if k > 0 {
                        assert(r[k] == rest[k - 1]);
                    }
                }
                assert forall|k: int| 0 <= k < out.len() implies out[k] == (r[k].page_type, rows_of_table(d, lp, #[trigger] r[k])->0) by {
                    if k > 0 {
                        assert(r[k] == rest[k - 1]);
                        assert(out[k] == tail[k - 1]);
                    }
                }
            } else if forall|k: int| 0 <= k < r.len() ==> (#[trigger] rows_of_table(d, lp, r[k])) is Some {
                assert(rows_of_table(d, lp, r[0]) is Some);
                assert forall|k: int| 0 <= k < rest.len() implies (#[trigger] rows_of_table(d, lp, rest[k])) is Some by {
                    assert(r[k + 1] == rest[k]);
                }
            }
        }
    }
}

/// The models of the rows of each table.
pub open spec fn table_rows_model(v: Seq<(PageType, Vec<Row>)>) -> Seq<(PageType, Seq<RowV>)> {
    v.map_values(|e: (PageType, Vec<Row>)| (e.0, rows_model(e.1@)))
}

/// The table list of the file header: `n` entries of 16 bytes from offset 28.
pub open spec fn tables_model(d: Seq<u8>, n: int) -> Seq<Table> {
    Seq::new(n as nat, |i: int| Table {
        page_type: page_type_of(le_u32(d, 28 + 16 * i)),
        empty_candidate: le_u32(d, 32 + 16 * i),
        first_page: le_u32(d, 36 + 16 * i),
        last_page: le_u32(d, 40 + 16 * i),
    })
}

/// True when the file header and its table list can be read.
pub open spec fn header_ok(d: Seq<u8>) -> bool {
    &&& d.len() >= 24
    &&& le_u32(d, 4) != 0
    &&& le_u32(d, 8) == 0 || 28 + 16 * le_u32(d, 8) <= d.len()
}

fn table_has_rows(t: PageType) -> (r: bool)
    ensures
        r == has_rows(t),
{
    match t {
        PageType::Tracks | PageType::Genres | PageType::Artists | PageType::Albums | PageType::Labels
        | PageType::Keys | PageType::Colors | PageType::PlaylistTree | PageType::PlaylistEntries
        | PageType::Artwork => true,
        _ => false,
    }
}

struct Page<'a> {
    data: &'a [u8],
    page_index: u32,
    #[allow(dead_code)]
    page_type: PageType,
    next_page: u32,
    num_rows_small: u8,
    page_flags: u8,
    #[allow(dead_code)]
    free_size: u16,
    #[allow(dead_code)]
    used_size: u16,
    num_rows_large: u16,
}

impl<'a> Page<'a> {
    /// The header fields hold what the page's bytes say.
    spec fn wf(&self) -> bool {
        &&& self.data@.len() >= 36
        &&& self.next_page == le_u32(self.data@, 12)
        &&& self.num_rows_small == self.data@[24]
        &&& self.page_flags == self.data@[27]
        &&& self.num_rows_large == le_u16(self.data@, 34)
    }

    fn is_data_page(&self) -> (r: bool)
        requires
            self.wf(),
        ensures
            r == is_data_page_of(self.data@),
    {
        self.page_flags & 0x40 == 0
    }

    /// The number of rows on this page (controls the number of row index
    /// entries there are, but some of those may not be marked as present in
    /// the table due to deletion).
    fn num_rows(&self) -> (r: usize)
        requires
            self.wf(),
        ensures
            r == num_rows_of(self.data@),
    {
        if self.num_rows_large > self.num_rows_small as u16 && self.num_rows_large != 0x1fff {
            self.num_rows_large as usize
        } else {
            self.num_rows_small as usize
        }
    }
}

/// A parsed `export.pdb`.
#[derive(Debug)]
pub struct RekordboxPdb<'a> {
    /// The bytes of the file.
    pub data: &'a [u8],
    /// The database page size, in bytes.
    pub len_page: u32,
    pub num_tables: u32,
    pub next_unused_page: u32,
    pub sequence: u32,
    pub tables: Vec<Table>,
}

impl<'a> RekordboxPdb<'a> {
    /// Parse the file header and table list.
    pub fn parse(data: &'a [u8]) -> (r: Result<Self, Error>)
        ensures
            r is Ok <==> header_ok(data@),
            r matches Ok(pdb) ==> {
                &&& pdb.data@ == data@
                &&& pdb.len_page == le_u32(data@, 4)
                &&& pdb.num_tables == le_u32(data@, 8)
                &&& pdb.next_unused_page == le_u32(data@, 12)
                &&& pdb.sequence == le_u32(data@, 20)
                &&& pdb.tables@ == tables_model(data@, pdb.num_tables as int)
            },
            r matches Err(e) ==> e == Error::Parse(
                if data@.len() >= 24 && le_u32(data@, 4) == 0 { ParseError::ZeroPageSize } else { ParseError::ReadPastEnd },
            ),
    {
        let len_page = u32_le(data, 4)?;
        let num_tables = u32_le(data, 8)?;
        let next_unused_page = u32_le(data, 12)?;
        let sequence = u32_le(data, 20)?;

        if len_page == 0 {
            return Err(Error::Parse(ParseError::ZeroPageSize));
        }

        let mut tables: Vec<Table> = Vec::new();
        let mut at: usize = 28;
        let mut i: u32 = 0;
        while i < num_tables
            invariant
                data@.len() >= 24,
                le_u32(data@, 4) != 0,
                num_tables == le_u32(data@, 8),
                i <= num_tables,
                at == 28 + 16 * i,
                i == 0 || at <= data@.len(),
                tables@ =~= tables_model(data@, i as int),
            decreases num_tables - i,
        {
            if at > data.len() || data.len() - at < 16 {
                return Err(Error::Parse(ParseError::ReadPastEnd));
            }
            let t = Table {
                page_type: PageType::from_u32(read_le_u32(data, at)),
                empty_candidate: read_le_u32(data, at + 4),
                first_page: read_le_u32(data, at + 8),
                last_page: read_le_u32(data, at + 12),
            };
            tables.push(t);
            at = at + 16;
            i = i + 1;
        }

        Ok(RekordboxPdb { data, len_page, num_tables, next_unused_page, sequence, tables })
    }

    fn page(&self, index: u32) -> (r: Result<Page<'a>, Error>)
        ensures
            r is Ok <==> page_fits(self.data@.len() as int, self.len_page as int, index as int),
            r matches Ok(pg) ==> pg.wf() && pg.data@ == page_bytes(self.data@, self.len_page as int, index as int),
            r matches Err(e) ==> e == Error::Parse(ParseError::ReadPastEnd),
    {
        let lp = self.len_page as u64;
        assert(index * lp <= 0xffff_ffff * 0xffff_ffff) by (nonlinear_arith)
            requires index <= 0xffff_ffff, lp <= 0xffff_ffff;
        let start = index as u64 * lp;
        if lp < 36 || start + lp > self.data.len() as u64 {
            return Err(Error::Parse(ParseError::ReadPastEnd));
        }
        let data = &self.data[start as usize..(start + lp) as usize];
        assert(data@ == page_bytes(self.data@, self.len_page as int, index as int));
        Ok(Page {
            data,
            page_index: read_le_u32(data, 4),
            page_type: PageType::from_u32(read_le_u32(data, 8)),
            next_page: read_le_u32(data, 12),
            num_rows_small: data[24],
            page_flags: data[27],
            free_size: read_le_u16(data, 28),
            used_size: read_le_u16(data, 30),
            num_rows_large: read_le_u16(data, 34),
        })
    }
    fn page_rows(&self, page: &Page<'a>, page_type: PageType) -> (r: Result<Vec<Row>, Error>)
        requires
            page.wf(),
        ensures
            r is Ok <==> page_rows_spec(page.data@, page_type) is Some,
            r matches Ok(v) ==> page_rows_spec(page.data@, page_type) == Some(rows_model(v@)),
            r matches Err(e) ==> e == Error::Parse(ParseError::ReadPastEnd),
    {
        let ghost p = page.data@;
        let len_page = page.data.len();
        let num_rows = page.num_rows();
        let mut out: Vec<Row> = Vec::new();
        assert(rows_model(out@) =~= Seq::<RowV>::empty());
        if num_rows == 0 {
            return Ok(out);
        }
        let num_groups = (num_rows - 1) / 16 + 1;
        let mut g: usize = 0;
        proof {
            lemma_prepend_empty(groups_from(p, num_rows as int, page_type, 0));
        }
        while g < num_groups
            invariant
                p == page.data@,
                len_page == p.len(),
                36 <= len_page,
                num_rows == num_rows_of(p),
                1 <= num_rows <= 0xffff,
                num_groups == self::num_groups(num_rows as int),
                g <= num_groups,
                page_rows_spec(p, page_type) == prepend(
                    rows_model(out@),
                    groups_from(p, num_rows as int, page_type, g as nat),
                ),
            decreases num_groups - g,
        {
            if g * 0x24 > len_page {
                return Err(Error::Parse(ParseError::ReadPastEnd));
            }
            // The starting point of this group of row indices.
            let base = len_page - g * 0x24;
            if base < 4 {
                assert(rows_model(out@) + Seq::<RowV>::empty() =~= rows_model(out@));
                return Ok(out);
            }
            let row_present_flags = read_le_u16(page.data, base - 4);
            let rows_in_group: usize = if g < num_groups - 1 { 16 } else { (num_rows - 1) % 16 + 1 };
            let ghost rest = groups_from(p, num_rows as int, page_type, (g + 1) as nat);
            assert(groups_from(p, num_rows as int, page_type, g as nat) == combine(
                group_from(p, base as int, rows_in_group as int, page_type, 0),
                rest,
            ));
            let mut ri: usize = 0;
            while ri < rows_in_group
                invariant
                    p == page.data@,
                    len_page == p.len(),
                    4 <= base <= len_page,
                    row_present_flags == le_u16(p, base - 4),
                    rows_in_group <= 16,
                    ri <= rows_in_group,
                    page_rows_spec(p, page_type) == prepend(
                        rows_model(out@),
                        combine(group_from(p, base as int, rows_in_group as int, page_type, ri as int), rest),
                    ),
                decreases rows_in_group - ri,
            {
                let ghost slot = slot_rows(p, base as int, ri as int, page_type);
                let ghost after = group_from(p, base as int, rows_in_group as int, page_type, ri + 1);
                assert(group_from(p, base as int, rows_in_group as int, page_type, ri as int) == combine(slot, after));
                let present = (row_present_flags >> (ri as u16)) & 1u16 != 0;
                let ghost before = out@;
                if present {
                    if base < 6 + 2 * ri {
                        return Err(Error::Parse(ParseError::ReadPastEnd));
                    }
                    let ofs_row = read_le_u16(page.data, base - (6 + 2 * ri)) as usize;
                    // The location of this row relative to the start of the page.
                    // A variety of pointers (such as all DeviceSQL strings) are
                    // calculated with respect to this position.
                    let row_base = 0x28 + ofs_row;
                    match parse_row(page.data, row_base, page_type) {
                        Ok(Some(row)) => {
                            out.push(row);
                            proof {
                                lemma_rows_model_push(before, row);
                            }
                        },
                        _ => {},
                    }
                }
                proof {
                    let s = slot->0;
                    assert(rows_model(out@) == rows_model(before) + s) by {
                        if s.len() == 0 {
                            assert(rows_model(before) + s =~= rows_model(before));
                        }
                    }
                    lemma_combine_prepend(s, after, rest);
                    lemma_prepend_assoc(rows_model(before), s, combine(after, rest));
                }
                ri = ri + 1;
            }
            proof {
                lemma_prepend_empty(rest);
            }
            g = g + 1;
        }
        assert(rows_model(out@) + Seq::<RowV>::empty() =~= rows_model(out@));
        Ok(out)
    }
    /// Every present row of the given table, page by page.
    pub fn table_rows(&self, table: &Table) -> (r: Result<Vec<Row>, Error>)
        ensures
            r is Ok <==> chain_rows(self.data@, self.len_page as int, *table, table.first_page as int, 0) is Some,
            r matches Ok(v) ==> chain_rows(self.data@, self.len_page as int, *table, table.first_page as int, 0)
                == Some(rows_model(v@)),
            r matches Err(e) ==> e == Error::Parse(ParseError::ReadPastEnd),
    {
        let ghost d = self.data@;
        let ghost lp = self.len_page as int;
        let ghost whole = chain_rows(d, lp, *table, table.first_page as int, 0);
        let mut rows: Vec<Row> = Vec::new();
        let mut page_index = table.first_page;
        let mut visited: u32 = 0;
        proof {
            lemma_prepend_empty(whole);
            assert(rows_model(rows@) =~= Seq::<RowV>::empty());
        }
        loop
            invariant
                d == self.data@,
                lp == self.len_page,
                visited <= 1_000_000,
                whole == chain_rows(d, lp, *table, table.first_page as int, 0),
                whole == prepend(rows_model(rows@), chain_rows(d, lp, *table, page_index as int, visited as int)),
            decreases 1_000_000 - visited,
        {
            let page = self.page(page_index)?;

            // Adjust our page ref for the next iteration early so we can
            // continue without having to remember to update it.
            let next = page.next_page;
            let ghost before = rows@;
            let ghost here: Seq<RowV> = Seq::empty();

            // Ignore non-data pages. Not sure what these are for?
            if page.is_data_page() {
                let mut found = self.page_rows(&page, table.page_type)?;
                proof {
                    here = rows_model(found@);
                    lemma_rows_model_add(rows@, found@);
                }
                rows.append(&mut found);
            } else {
                assert(rows_model(before) + here =~= rows_model(before));
            }
            assert(rows_model(rows@) == rows_model(before) + here);

            // Follow the chain until it points past the last page, with a
            // guard against a looping chain.
            visited = visited + 1;
            if next > table.last_page || next == page_index || visited > 1_000_000 {
                return Ok(rows);
            }
            assert(next * self.len_page <= 0xffff_ffff * 0xffff_ffff) by (nonlinear_arith)
                requires next <= 0xffff_ffff, self.len_page <= 0xffff_ffff;
            let next_offset = next as u64 * self.len_page as u64;
            if next_offset + self.len_page as u64 > self.data.len() as u64 {
                return Ok(rows);
            }
            proof {
                lemma_prepend_assoc(
                    rows_model(before),
                    here,
                    chain_rows(d, lp, *table, next as int, visited as int),
                );
            }
            page_index = next;
        }
    }

    /// Every present row of every table this crate knows how to read.
    pub fn all_rows(&self) -> (r: Result<Vec<(PageType, Vec<Row>)>, Error>)
        ensures
            r is Ok <==> all_rows_from(self.data@, self.len_page as int, self.tables@, 0) is Some,
            r matches Ok(v) ==> all_rows_from(self.data@, self.len_page as int, self.tables@, 0)
                == Some(table_rows_model(v@)),
            r matches Err(e) ==> e == Error::Parse(ParseError::ReadPastEnd),
    {
        let ghost d = self.data@;
        let ghost lp = self.len_page as int;
        let ghost whole = all_rows_from(d, lp, self.tables@, 0);
        let mut out: Vec<(PageType, Vec<Row>)> = Vec::new();
        let mut i: usize = 0;
        proof {
            lemma_prepend_empty(whole);
            assert(table_rows_model(out@) =~= Seq::<(PageType, Seq<RowV>)>::empty());
        }
        while i < self.tables.len()
            invariant
                d == self.data@,
                lp == self.len_page,
                i <= self.tables@.len(),
                whole == all_rows_from(d, lp, self.tables@, 0),
                whole == prepend(table_rows_model(out@), all_rows_from(d, lp, self.tables@, i as int)),
            decreases self.tables@.len() - i,
        {
            let table = self.tables[i];
            let ghost before = out@;
            if table_has_rows(table.page_type) {
                let rows = self.table_rows(&table)?;
                let ghost entry = (table.page_type, rows_model(rows@));
                out.push((table.page_type, rows));
                proof {
                    assert(table_rows_model(out@) =~= table_rows_model(before) + seq![entry]);
                    lemma_prepend_assoc(
                        table_rows_model(before),
                        seq![entry],
                        all_rows_from(d, lp, self.tables@, i + 1),
                    );
                }
            }
            i = i + 1;
        }
        assert(table_rows_model(out@) + Seq::<(PageType, Seq<RowV>)>::empty() =~= table_rows_model(out@));
        Ok(out)
    }
}

} // verus!
