//! Reader for rekordbox track analysis files (`.DAT`, `.EXT`, `.2EX`).
//!
//! The file is a `PMAI` header followed by type-tagged sections, each
//! identified by a four-byte magic sequence.

use vstd::prelude::*;
use crate::bytes::{be_u16, be_u32, has_at, read_be_u16, read_be_u32, bytes_at, copy_range};
use crate::error::{Error, ParseError};
use crate::text::{chars_of, decode_utf16_lossy, string_from_chars, utf16_lossy};

verus! {

broadcast use vstd::slice::group_slice_axioms;

/// The four-byte tags of the sections this crate understands.
#[derive(Debug, Clone, Copy, PartialEq, Eq, Hash, Structural)]
pub enum SectionTag {
    /// PCOB
    Cues,
    /// PCO2 (seen in .EXT)
    Cues2,
    /// PPTH
    Path,
    /// PVBR
    Vbr,
    /// PQTZ
    BeatGrid,
    /// PWAV
    WavePreview,
    /// PWV2
    WaveTiny,
    /// PWV3 (seen in .EXT)
    WaveScroll,
    /// PWV4 (seen in .EXT)
    WaveColorPreview,
    /// PWV5 (seen in .EXT)
    WaveColorScroll,
    /// PSSI (seen in .EXT)
    SongStructure,
    /// PWV6 (seen in .2EX)
    WaveColor3BandPreview,
    /// PWV7 (seen in .2EX)
    WaveColor3BandDetail,
    /// PWVC (seen in .2EX)
    VocalConfig,
    Other(u32),
}

/// The section tag a fourcc stands for.
pub open spec fn tag_of(v: u32) -> SectionTag {
    if v == 0x5043_4f42 {
        SectionTag::Cues
    } else if v == 0x5043_4f32 {
        SectionTag::Cues2
    } else if v == 0x5050_5448 {
        SectionTag::Path
    } else if v == 0x5056_4252 {
        SectionTag::Vbr
    } else if v == 0x5051_545a {
        SectionTag::BeatGrid
    } else if v == 0x5057_4156 {
        SectionTag::WavePreview
    } else if v == 0x5057_5632 {
        SectionTag::WaveTiny
    } else if v == 0x5057_5633 {
        SectionTag::WaveScroll
    } else if v == 0x5057_5634 {
        SectionTag::WaveColorPreview
    } else if v == 0x5057_5635 {
        SectionTag::WaveColorScroll
    } else if v == 0x5053_5349 {
        SectionTag::SongStructure
    } else if v == 0x5057_5636 {
        SectionTag::WaveColor3BandPreview
    } else if v == 0x5057_5637 {
        SectionTag::WaveColor3BandDetail
    } else if v == 0x5057_5643 {
        SectionTag::VocalConfig
    } else {
        SectionTag::Other(v)
    }
}

impl SectionTag {
    pub const CUES: u32 = 0x5043_4f42;
    pub const CUES_2: u32 = 0x5043_4f32;
    pub const PATH: u32 = 0x5050_5448;
    pub const VBR: u32 = 0x5056_4252;
    pub const BEAT_GRID: u32 = 0x5051_545a;
    pub const WAVE_PREVIEW: u32 = 0x5057_4156;
    pub const WAVE_TINY: u32 = 0x5057_5632;
    pub const WAVE_SCROLL: u32 = 0x5057_5633;
    pub const WAVE_COLOR_PREVIEW: u32 = 0x5057_5634;
    pub const WAVE_COLOR_SCROLL: u32 = 0x5057_5635;
    pub const SONG_STRUCTURE: u32 = 0x5053_5349;
    pub const WAVE_COLOR_3BAND_PREVIEW: u32 = 0x5057_5636;
    pub const WAVE_COLOR_3BAND_DETAIL: u32 = 0x5057_5637;
    pub const VOCAL_CONFIG: u32 = 0x5057_5643;

    /// The tag for a fourcc.
    pub fn from_u32(v: u32) -> (r: SectionTag)
        ensures
            r == tag_of(v),
    {
        if v == 0x5043_4f42 {
            SectionTag::Cues
        } else if v == 0x5043_4f32 {
            SectionTag::Cues2
        } else if v == 0x5050_5448 {
            SectionTag::Path
        } else if v == 0x5056_4252 {
            SectionTag::Vbr
        } else if v == 0x5051_545a {
            SectionTag::BeatGrid
        } else if v == 0x5057_4156 {
            SectionTag::WavePreview
        } else if v == 0x5057_5632 {
            SectionTag::WaveTiny
        } else if v == 0x5057_5633 {
            SectionTag::WaveScroll
        } else if v == 0x5057_5634 {
            SectionTag::WaveColorPreview
        } else if v == 0x5057_5635 {
            SectionTag::WaveColorScroll
        } else if v == 0x5053_5349 {
            SectionTag::SongStructure
        } else if v == 0x5057_5636 {
            SectionTag::WaveColor3BandPreview
        } else if v == 0x5057_5637 {
            SectionTag::WaveColor3BandDetail
        } else if v == 0x5057_5643 {
            SectionTag::VocalConfig
        } else {
            SectionTag::Other(v)
        }
    }
}

/// Describes an individual beat in a beat grid.
#[derive(Debug, Clone, Copy, PartialEq, Eq, Structural)]
pub struct BeatGridBeat {
    /// The position of the beat within its musical bar, where beat 1 is the
    /// down beat.
    pub beat_number: u16,
    /// The tempo at the time of this beat, in beats per minute, multiplied by 100.
    pub tempo: u16,
    /// The time, in milliseconds, at which this beat occurs when the track is
    /// played at normal (100%) pitch.
    pub time: u32,
}

/// Identifies whether a cue tag stores ordinary or hot cues.
#[derive(Debug, Clone, Copy, PartialEq, Eq, Structural)]
pub enum CueListType {
    MemoryCues,
    HotCues,
    Other(u32),
}

/// The cue list type a raw value stands for.
pub open spec fn cue_list_type_of(v: u32) -> CueListType {
    if v == 0 {
        CueListType::MemoryCues
    } else if v == 1 {
        CueListType::HotCues
    } else {
        CueListType::Other(v)
    }
}

impl CueListType {
    /// The list type for a raw value.
    pub fn from_u32(v: u32) -> (r: CueListType)
        ensures
            r == cue_list_type_of(v),
    {
        if v == 0 {
            CueListType::MemoryCues
        } else if v == 1 {
            CueListType::HotCues
        } else {
            CueListType::Other(v)
        }
    }
}

/// A cue list entry (PCPT). Can either represent a memory cue or a loop.
#[derive(Debug, Clone, PartialEq, Eq, Structural)]
pub struct CueEntry {
    /// If zero, this is an ordinary memory cue, otherwise this a hot cue with
    /// the specified number.
    pub hot_cue: u32,
    /// If zero, this entry should be ignored.
    pub status: u32,
    pub order_first: u16,
    pub order_last: u16,
    /// 1 = memory cue, 2 = loop.
    pub cue_type: u8,
    /// The position, in milliseconds, at which the cue point lies in the track.
    pub time: u32,
    /// The position, in milliseconds, at which the player loops back to the
    /// cue time if this is a loop.
    pub loop_time: u32,
}

/// A cue extended list entry (PCP2).
#[derive(Debug, Clone, PartialEq, Eq)]
pub struct CueExtendedEntry {
    pub hot_cue: u32,
    /// 1 = memory cue, 2 = loop.
    pub cue_type: u8,
    pub time: u32,
    pub loop_time: u32,
    /// References a row in the colors table if this is a memory cue or loop
    /// and has been assigned a color.
    pub color_id: u8,
    /// The comment assigned to this cue by the DJ, if any.
    pub comment: Option<String>,
    /// The length of the comment in bytes (0 when absent).
    pub len_comment: u32,
    /// A lookup value for a color table, used to index the hot cue colors
    /// shown in rekordbox.
    pub color_code: Option<u8>,
    pub color_red: Option<u8>,
    pub color_green: Option<u8>,
    pub color_blue: Option<u8>,
    /// For quantized loops, the loop size numerator / denominator (the last
    /// four bytes of the reserved area after `color_id`).
    pub loop_numerator: Option<u16>,
    pub loop_denominator: Option<u16>,
}

/// A song structure entry, a single phrase.
#[derive(Debug, Clone, Copy, PartialEq, Eq, Structural)]
pub struct SongStructureEntry {
    /// The absolute number of the phrase, starting at one.
    pub phrase_number: u16,
    /// The beat number at which the phrase starts.
    pub beat_number: u16,
    /// The kind of phrase as displayed in rekordbox; meaning depends on the mood.
    pub kind: u16,
    /// If nonzero, fill-in is present.
    pub fill_in: u8,
    /// The beat number at which fill-in starts.
    pub fill_in_beat_number: u16,
}

/// The body of a section.
#[derive(Debug, Clone, PartialEq, Eq)]
pub enum SectionBody {
    BeatGrid { beats: Vec<BeatGridBeat> },
    Cues { list_type: CueListType, memory_count: u32, cues: Vec<CueEntry> },
    Cues2 { list_type: CueListType, cues: Vec<CueExtendedEntry> },
    Path { path: Option<String> },
    Vbr { index: Vec<u32> },
    /// PWAV / PWV2. `data` is empty when the tag carries no preview.
    WavePreview { data: Vec<u8> },
    /// PWV3.
    WaveScroll { len_entry_bytes: u32, len_entries: u32, entries: Vec<u8> },
    /// PWV4.
    WaveColorPreview { len_entry_bytes: u32, len_entries: u32, entries: Vec<u8> },
    /// PWV5.
    WaveColorScroll { len_entry_bytes: u32, len_entries: u32, entries: Vec<u8> },
    SongStructure {
        len_entry_bytes: u32,
        len_entries: u16,
        /// 1 high, 2 mid, 3 low.
        mood: u16,
        end_beat: u16,
        bank: u8,
        entries: Vec<SongStructureEntry>,
    },
    /// PWV6.
    WaveColor3BandPreview { len_entry_bytes: u32, len_entries: u32, entries: Vec<u8> },
    /// PWV7.
    WaveColor3BandDetail { len_entry_bytes: u32, len_entries: u32, entries: Vec<u8> },
    VocalConfig { threshold_low: u16, threshold_mid: u16, threshold_high: u16 },
    Unknown,
}

/// A type-tagged file section.
#[derive(Debug, Clone, PartialEq, Eq)]
pub struct TaggedSection {
    pub tag: SectionTag,
    pub fourcc: u32,
    pub len_header: u32,
    pub len_tag: u32,
    pub body: SectionBody,
}

/// A parsed analysis file.
#[derive(Debug, Clone, PartialEq, Eq)]
pub struct RekordboxAnlz {
    pub len_header: u32,
    pub len_file: u32,
    pub sections: Vec<TaggedSection>,
}

// ---------------------------------------------------------------------------
// What a section body holds, stated over its bytes.
// ---------------------------------------------------------------------------

/// The UTF-16BE code units of a byte sequence (a trailing odd byte is dropped).
pub open spec fn be_units(b: Seq<u8>) -> Seq<u16> {
    Seq::new(b.len() / 2, |i: int| be_u16(b, 2 * i))
}

/// A string with its trailing NUL characters removed.
pub open spec fn strip_trailing_nul(s: Seq<char>) -> Seq<char>
    decreases s.len(),
{
    if s.len() > 0 && s.last() == '\0' {
        strip_trailing_nul(s.drop_last())
    } else {
        s
    }
}

/// The string a UTF-16BE field decodes to.
pub open spec fn utf16be_text(b: Seq<u8>) -> Seq<char> {
    utf16_lossy(be_units(b))
}

/// The beat at `p`.
pub open spec fn beat_at(b: Seq<u8>, p: int) -> BeatGridBeat {
    BeatGridBeat { beat_number: be_u16(b, p), tempo: be_u16(b, p + 2), time: be_u32(b, p + 4) }
}

pub open spec fn beat_grid_parses(b: Seq<u8>) -> bool {
    12 <= b.len() && 12 + 8 * be_u32(b, 8) <= b.len()
}

pub open spec fn beat_grid_beats(b: Seq<u8>) -> Seq<BeatGridBeat> {
    Seq::new(be_u32(b, 8) as nat, |i: int| beat_at(b, 12 + 8 * i))
}

/// The big-endian 32-bit number whose bytes begin at `o`.
pub open spec fn u32_be_at(b: Seq<u8>, o: int) -> int {
    0x100_0000 * b[o] + 0x1_0000 * b[o + 1] + 0x100 * b[o + 2] + b[o + 3]
}

/// The big-endian 16-bit number whose bytes begin at `o`.
pub open spec fn u16_be_at(b: Seq<u8>, o: int) -> int {
    0x100 * b[o] + b[o + 1]
}

/// The layout of a PQTZ beat grid body: the beat count is the 32-bit
/// number at 8, and beat `i` is the 8 bytes at `12 + 8 i`: its number in
/// the bar (16 bits), its tempo in hundredths of a BPM (16 bits) and its
/// time in milliseconds (32 bits), all big-endian.
pub proof fn law_beat_grid_layout(b: Seq<u8>, i: int)
    requires
        beat_grid_parses(b),
        0 <= i < beat_grid_beats(b).len(),
    ensures
        beat_grid_beats(b).len() == u32_be_at(b, 8),
        beat_grid_beats(b)[i].beat_number == u16_be_at(b, 12 + 8 * i),
        beat_grid_beats(b)[i].tempo == u16_be_at(b, 12 + 8 * i + 2),
        beat_grid_beats(b)[i].time == u32_be_at(b, 12 + 8 * i + 4),
{
}

/// The bytes "PCPT".
pub open spec fn pcpt_magic() -> Seq<u8> {
    seq![0x50u8, 0x43, 0x50, 0x54]
}

/// The bytes "PCP2".
pub open spec fn pcp2_magic() -> Seq<u8> {
    seq![0x50u8, 0x43, 0x50, 0x32]
}

/// The bytes "PMAI".
pub open spec fn pmai_magic() -> Seq<u8> {
    seq![0x50u8, 0x4d, 0x41, 0x49]
}

/// Where the `i`-th PCPT entry of a PCOB body starts: each entry is as long
/// as it declares, and at least 56 bytes.
pub open spec fn pcpt_pos(b: Seq<u8>, i: nat) -> int
    decreases i,
{
    if i == 0 {
        12
    } else {
        let p = pcpt_pos(b, (i - 1) as nat);
        p + if be_u32(b, p + 8) >= 56 { be_u32(b, p + 8) as int } else { 56 }
    }
}

pub open spec fn pcpt_ok(b: Seq<u8>, p: int) -> bool {
    0 <= p && p + 56 <= b.len() && has_at(b, p, pcpt_magic())
}

pub open spec fn pcpt_entry(b: Seq<u8>, p: int) -> CueEntry {
    CueEntry {
        hot_cue: be_u32(b, p + 12),
        status: be_u32(b, p + 16),
        order_first: be_u16(b, p + 24),
        order_last: be_u16(b, p + 26),
        cue_type: b[p + 28],
        time: be_u32(b, p + 32),
        loop_time: be_u32(b, p + 36),
    }
}

/// The layout of a PCPT cue entry from `p`: its hot cue number at 12, its
/// status at 16, its type byte at 28, its time at 32 and loop time at 36
/// (32-bit big-endian numbers).
pub proof fn law_cue_entry_layout(b: Seq<u8>, p: int)
    requires
        pcpt_ok(b, p),
    ensures
        pcpt_entry(b, p).hot_cue == u32_be_at(b, p + 12),
        pcpt_entry(b, p).status == u32_be_at(b, p + 16),
        pcpt_entry(b, p).cue_type == b[p + 28],
        pcpt_entry(b, p).time == u32_be_at(b, p + 32),
        pcpt_entry(b, p).loop_time == u32_be_at(b, p + 36),
{
}

pub open spec fn cues_parse(b: Seq<u8>) -> bool {
    &&& 12 <= b.len()
    &&& forall|i: nat| i < be_u16(b, 6) ==> pcpt_ok(b, #[trigger] pcpt_pos(b, i))
}

pub open spec fn cues_entries(b: Seq<u8>) -> Seq<CueEntry> {
    Seq::new(be_u16(b, 6) as nat, |i: int| pcpt_entry(b, pcpt_pos(b, i as nat)))
}

/// Where the `i`-th PCP2 entry of a PCO2 body starts: each entry is as long
/// as it declares.
pub open spec fn pcp2_pos(b: Seq<u8>, i: nat) -> int
    decreases i,
{
    if i == 0 {
        8
    } else {
        let p = pcp2_pos(b, (i - 1) as nat);
        p + be_u32(b, p + 8) as int
    }
}

/// The declared length of the PCP2 entry at `p`.
pub open spec fn pcp2_len(b: Seq<u8>, p: int) -> u32 {
    be_u32(b, p + 8)
}

/// The comment length of the PCP2 entry at `p` (0 when it has none).
pub open spec fn pcp2_len_comment(b: Seq<u8>, p: int) -> u32 {
    if pcp2_len(b, p) > 43 { be_u32(b, p + 40) } else { 0 }
}

/// Where the colour bytes of the PCP2 entry at `p` start.
pub open spec fn pcp2_colors_at(b: Seq<u8>, p: int) -> int {
    if pcp2_len(b, p) > 43 { p + 44 + pcp2_len_comment(b, p) } else { p + 40 }
}

/// The entry length past the comment, which says how many colour bytes follow.
pub open spec fn pcp2_after(b: Seq<u8>, p: int) -> int {
    if pcp2_len(b, p) >= pcp2_len_comment(b, p) {
        pcp2_len(b, p) - pcp2_len_comment(b, p)
    } else {
        0
    }
}

/// How many colour bytes an entry with `after` bytes past the comment has.
pub open spec fn color_count(after: int) -> int {
    if after > 47 { 4 } else if after > 46 { 3 } else if after > 45 { 2 } else if after > 44 { 1 } else { 0 }
}

pub open spec fn pcp2_ok(b: Seq<u8>, p: int) -> bool {
    &&& 0 <= p
    &&& p + 40 <= b.len()
    &&& has_at(b, p, pcp2_magic())
    &&& pcp2_len(b, p) > 43 ==> p + 44 + pcp2_len_comment(b, p) <= b.len()
    &&& pcp2_colors_at(b, p) + color_count(pcp2_after(b, p)) <= b.len()
}

/// The byte at `at` when `present`.
pub open spec fn opt_byte(b: Seq<u8>, at: int, present: bool) -> Option<u8> {
    if present { Some(b[at]) } else { None }
}

/// The comment of the PCP2 entry at `p`: the UTF-16BE text without its
/// trailing NULs.
pub open spec fn pcp2_comment(b: Seq<u8>, p: int) -> Seq<char> {
    strip_trailing_nul(
        utf16be_text(b.subrange(p + 44, p + 44 + pcp2_len_comment(b, p))),
    )
}

pub open spec fn pcp2_entry_ok(b: Seq<u8>, p: int, e: CueExtendedEntry) -> bool {
    let c = pcp2_colors_at(b, p);
    let a = pcp2_after(b, p);
    &&& e.hot_cue == be_u32(b, p + 12)
    &&& e.cue_type == b[p + 16]
    &&& e.time == be_u32(b, p + 20)
    &&& e.loop_time == be_u32(b, p + 24)
    &&& e.color_id == b[p + 28]
    &&& e.loop_numerator == Some(be_u16(b, p + 36))
    &&& e.loop_denominator == Some(be_u16(b, p + 38))
    &&& e.len_comment == pcp2_len_comment(b, p)
    &&& if pcp2_len(b, p) > 43 {
        e.comment is Some && e.comment.unwrap()@ == pcp2_comment(b, p)
    } else {
        e.comment is None
    }
    &&& e.color_code == opt_byte(b, c, a > 44)
    &&& e.color_red == opt_byte(b, c + 1, a > 45)
    &&& e.color_green == opt_byte(b, c + 2, a > 46)
    &&& e.color_blue == opt_byte(b, c + 3, a > 47)
}

pub open spec fn cues2_parse(b: Seq<u8>) -> bool {
    &&& 8 <= b.len()
    &&& forall|i: nat| i < be_u16(b, 4) ==> pcp2_ok(b, #[trigger] pcp2_pos(b, i))
}

pub open spec fn cues2_ok(b: Seq<u8>, cues: Seq<CueExtendedEntry>) -> bool {
    &&& cues.len() == be_u16(b, 4)
    &&& forall|i: int| 0 <= i < cues.len() ==> pcp2_entry_ok(b, pcp2_pos(b, i as nat), #[trigger] cues[i])
}

pub open spec fn path_parses(b: Seq<u8>) -> bool {
    4 <= b.len() && (be_u32(b, 0) > 1 ==> 4 + be_u32(b, 0) - 2 <= b.len())
}

pub open spec fn vbr_index(b: Seq<u8>) -> Seq<u32> {
    Seq::new(400, |i: int| be_u32(b, 4 + 4 * i))
}

pub open spec fn preview_parses(b: Seq<u8>, len_header: u32, len_tag: u32) -> bool {
    8 <= b.len() && (len_tag > len_header ==> 8 + be_u32(b, 0) <= b.len())
}

pub open spec fn preview_data(b: Seq<u8>, len_header: u32, len_tag: u32) -> Seq<u8> {
    if len_tag > len_header { b.subrange(8, 8 + be_u32(b, 0)) } else { Seq::empty() }
}

/// The byte count of a waveform with `n` entries of `w` bytes.
pub open spec fn entries_len(w: u32, n: u32) -> int {
    w as int * n as int
}

pub open spec fn waves_parse(b: Seq<u8>, at: int) -> bool {
    at <= b.len() && at + entries_len(be_u32(b, 0), be_u32(b, 4)) <= b.len()
}

pub open spec fn waves_data(b: Seq<u8>, at: int) -> Seq<u8> {
    b.subrange(at, at + entries_len(be_u32(b, 0), be_u32(b, 4)))
}

/// The XOR key rekordbox masks the song structure body with.
pub open spec fn song_structure_key() -> Seq<u8> {
    seq![0xCBu8, 0xE1, 0xEE, 0xFA, 0xE5, 0xEE, 0xAD, 0xEE, 0xE9, 0xD2, 0xE9, 0xEB, 0xE1, 0xE9, 0xF3, 0xE8, 0xE9, 0xF4, 0xE1]
}

/// The `k`-th byte of the mask for a song structure with `count` phrases:
/// the key byte plus the low byte of the count, wrapping.
pub open spec fn mask_byte(count: u16, k: int) -> u8 {
    ((song_structure_key()[k] as int + count as int % 256) % 256) as u8
}

/// The song structure body after the phrase count, unmasked.
pub open spec fn song_structure_plain(b: Seq<u8>) -> Seq<u8> {
    Seq::new((b.len() - 6) as nat, |i: int| b[6 + i] ^ mask_byte(be_u16(b, 4), i % 19))
}

/// A song structure body as rekordbox writes it: each byte after the
/// phrase count masked with the key for that count.
pub open spec fn masked_body(count: u16, plain: Seq<u8>) -> Seq<u8> {
    Seq::new(plain.len(), |i: int| plain[i] ^ mask_byte(count, i % 19))
}

/// Reading a song structure unmasks what rekordbox masked: a body whose
/// phrase count is `count` and whose bytes after it were masked for that
/// count reads back as the bytes before masking.
pub proof fn law_masked_song_structure_reads_back(len_entry_bytes: Seq<u8>, count: u16, plain: Seq<u8>)
    requires
        len_entry_bytes.len() == 4,
    ensures
        song_structure_plain(
            len_entry_bytes + seq![(count / 256) as u8, (count % 256) as u8] + masked_body(count, plain),
        ) == plain,
{
    let b = len_entry_bytes + seq![(count / 256) as u8, (count % 256) as u8] + masked_body(count, plain);
    assert(b[4] == (count / 256) as u8 && b[5] == (count % 256) as u8);
    assert(be_u16(b, 4) == count);
    assert forall|i: int| 0 <= i < plain.len() implies #[trigger] song_structure_plain(b)[i] == plain[i] by {
        let m = mask_byte(count, i % 19);
        let p = plain[i];
        assert(b[6 + i] == p ^ m);
        assert((p ^ m) ^ m == p) by (bit_vector);
    }
    assert(song_structure_plain(b) =~= plain);
}

/// The bytes a phrase entry has between its kind and its fill-in flag.
pub open spec fn phrase_gap(b: Seq<u8>) -> int {
    if be_u32(b, 0) >= 9 { be_u32(b, 0) - 9 } else { 0 }
}

pub open spec fn phrase_at(u: Seq<u8>, q: int, gap: int) -> SongStructureEntry {
    SongStructureEntry {
        phrase_number: be_u16(u, q),
        beat_number: be_u16(u, q + 2),
        kind: be_u16(u, q + 4),
        fill_in: u[q + 6 + gap],
        fill_in_beat_number: be_u16(u, q + 7 + gap),
    }
}

pub open spec fn song_structure_parses(b: Seq<u8>) -> bool {
    6 <= b.len() && 20 + be_u16(b, 4) as int * (9 + phrase_gap(b)) <= b.len()
}

pub open spec fn song_structure_entries(b: Seq<u8>) -> Seq<SongStructureEntry> {
    let u = song_structure_plain(b);
    let g = phrase_gap(b);
    Seq::new(be_u16(b, 4) as nat, |i: int| phrase_at(u, 14 + i * (9 + g), g))
}

/// True when a section body with this tag parses.
pub open spec fn body_parses(tag: SectionTag, b: Seq<u8>, len_header: u32, len_tag: u32) -> bool {
    match tag {
        SectionTag::BeatGrid => beat_grid_parses(b),
        SectionTag::Cues => cues_parse(b),
        SectionTag::Cues2 => cues2_parse(b),
        SectionTag::Path => path_parses(b),
        SectionTag::Vbr => 1604 <= b.len(),
        SectionTag::WavePreview | SectionTag::WaveTiny => preview_parses(b, len_header, len_tag),
        SectionTag::WaveScroll | SectionTag::WaveColorPreview | SectionTag::WaveColorScroll
        | SectionTag::WaveColor3BandDetail => 12 <= b.len() && waves_parse(b, 12),
        SectionTag::WaveColor3BandPreview => 8 <= b.len() && waves_parse(b, 8),
        SectionTag::SongStructure => song_structure_parses(b),
        SectionTag::VocalConfig => 8 <= b.len(),
        SectionTag::Other(_) => true,
    }
}

/// What a parsed section body of this tag holds.
pub open spec fn body_ok(tag: SectionTag, b: Seq<u8>, len_header: u32, len_tag: u32, body: SectionBody) -> bool {
    match tag {
        SectionTag::BeatGrid => body matches SectionBody::BeatGrid { beats } && beats@ == beat_grid_beats(b),
        SectionTag::Cues => body matches SectionBody::Cues { list_type, memory_count, cues }
            && list_type == cue_list_type_of(be_u32(b, 0)) && memory_count == be_u32(b, 8)
            && cues@ == cues_entries(b),
        SectionTag::Cues2 => body matches SectionBody::Cues2 { list_type, cues }
            && list_type == cue_list_type_of(be_u32(b, 0)) && cues2_ok(b, cues@),
        SectionTag::Path => body matches SectionBody::Path { path } && if be_u32(b, 0) > 1 {
            path is Some && path.unwrap()@ == utf16be_text(b.subrange(4, 4 + be_u32(b, 0) - 2))
        } else {
            path is None
        },
        SectionTag::Vbr => body matches SectionBody::Vbr { index } && index@ == vbr_index(b),
        SectionTag::WavePreview | SectionTag::WaveTiny => body matches SectionBody::WavePreview { data }
            && data@ == preview_data(b, len_header, len_tag),
        SectionTag::WaveScroll => body matches SectionBody::WaveScroll { len_entry_bytes, len_entries, entries }
            && len_entry_bytes == be_u32(b, 0) && len_entries == be_u32(b, 4) && entries@ == waves_data(b, 12),
        SectionTag::WaveColorPreview => body matches SectionBody::WaveColorPreview { len_entry_bytes, len_entries, entries }
            && len_entry_bytes == be_u32(b, 0) && len_entries == be_u32(b, 4) && entries@ == waves_data(b, 12),
        SectionTag::WaveColorScroll => body matches SectionBody::WaveColorScroll { len_entry_bytes, len_entries, entries }
            && len_entry_bytes == be_u32(b, 0) && len_entries == be_u32(b, 4) && entries@ == waves_data(b, 12),
        SectionTag::WaveColor3BandDetail => body matches SectionBody::WaveColor3BandDetail { len_entry_bytes, len_entries, entries }
            && len_entry_bytes == be_u32(b, 0) && len_entries == be_u32(b, 4) && entries@ == waves_data(b, 12),
        SectionTag::WaveColor3BandPreview => body matches SectionBody::WaveColor3BandPreview { len_entry_bytes, len_entries, entries }
            && len_entry_bytes == be_u32(b, 0) && len_entries == be_u32(b, 4) && entries@ == waves_data(b, 8),
        SectionTag::SongStructure => body matches SectionBody::SongStructure { len_entry_bytes, len_entries, mood, end_beat, bank, entries }
            && len_entry_bytes == be_u32(b, 0) && len_entries == be_u16(b, 4)
            && mood == be_u16(song_structure_plain(b), 0) && end_beat == be_u16(song_structure_plain(b), 8)
            && bank == song_structure_plain(b)[12] && entries@ == song_structure_entries(b),
        SectionTag::VocalConfig => body == SectionBody::VocalConfig {
            threshold_low: be_u16(b, 2),
            threshold_mid: be_u16(b, 4),
            threshold_high: be_u16(b, 6),
        },
        SectionTag::Other(_) => body is Unknown,
    }
}

// ---------------------------------------------------------------------------
// The file: a header and a run of sections.
// ---------------------------------------------------------------------------

/// Where the section after the one at `p` starts: the body is as long as the
/// section declares, cut at the end of the data.
pub open spec fn next_section(d: Seq<u8>, p: int) -> int {
    let want = be_u32(d, p + 8) - 12;
    let have = d.len() - p - 12;
    p + 12 + if want <= have { want } else { have }
}

/// What the section at `p` holds: its header fields, and its body when the
/// body parses (otherwise `Unknown`).
pub open spec fn section_ok(d: Seq<u8>, p: int, s: TaggedSection) -> bool {
    let body = d.subrange(p + 12, next_section(d, p));
    &&& s.fourcc == be_u32(d, p)
    &&& s.tag == tag_of(s.fourcc)
    &&& s.len_header == be_u32(d, p + 4)
    &&& s.len_tag == be_u32(d, p + 8)
    &&& if body_parses(s.tag, body, s.len_header, s.len_tag) {
        body_ok(s.tag, body, s.len_header, s.len_tag, s.body)
    } else {
        s.body is Unknown
    }
}

/// True when every section from `p` on declares a length of at least 12.
pub open spec fn sections_parse(d: Seq<u8>, p: int) -> bool
    decreases d.len() - p,
{
    if d.len() - p < 12 {
        true
    } else if be_u32(d, p + 8) < 12 {
        false
    } else {
        sections_parse(d, next_section(d, p))
    }
}

/// The sections from `p` on are `secs`.
pub open spec fn sections_ok(d: Seq<u8>, p: int, secs: Seq<TaggedSection>) -> bool
    decreases d.len() - p,
{
    if d.len() - p < 12 {
        secs.len() == 0
    } else if be_u32(d, p + 8) < 12 {
        false
    } else {
        &&& secs.len() > 0
        &&& section_ok(d, p, secs[0])
        &&& sections_ok(d, next_section(d, p), secs.drop_first())
    }
}

/// Where the first section starts: after the declared header, cut at the
/// end of the data.
pub open spec fn first_section(d: Seq<u8>) -> int {
    if be_u32(d, 4) <= d.len() { be_u32(d, 4) as int } else { d.len() as int }
}

/// True when an analysis file parses.
pub open spec fn anlz_parses(d: Seq<u8>) -> bool {
    &&& has_at(d, 0, pmai_magic())
    &&& 12 <= d.len()
    &&& sections_parse(d, first_section(d))
}

/// The error an analysis file that does not parse is refused with.
pub open spec fn anlz_error(d: Seq<u8>) -> ParseError {
    if d.len() < 4 {
        ParseError::ReadPastEnd
    } else if !has_at(d, 0, pmai_magic()) {
        ParseError::MissingMagic
    } else if d.len() < 12 {
        ParseError::ReadPastEnd
    } else {
        ParseError::BadSectionLength
    }
}

/// What a parsed analysis file holds.
pub open spec fn anlz_ok(d: Seq<u8>, a: RekordboxAnlz) -> bool {
    &&& a.len_header == be_u32(d, 4)
    &&& a.len_file == be_u32(d, 8)
    &&& sections_ok(d, first_section(d), a.sections@)
}

// ---------------------------------------------------------------------------
// Parsing.
// ---------------------------------------------------------------------------

fn magic_pcpt() -> (r: [u8; 4])
    ensures
        r@ == pcpt_magic(),
{
    let r = [0x50u8, 0x43, 0x50, 0x54];
    assert(r@ =~= pcpt_magic());
    r
}

fn magic_pcp2() -> (r: [u8; 4])
    ensures
        r@ == pcp2_magic(),
{
    let r = [0x50u8, 0x43, 0x50, 0x32];
    assert(r@ =~= pcp2_magic());
    r
}

fn magic_pmai() -> (r: [u8; 4])
    ensures
        r@ == pmai_magic(),
{
    let r = [0x50u8, 0x4d, 0x41, 0x49];
    assert(r@ =~= pmai_magic());
    r
}

/// The UTF-16BE code units of a byte slice.
pub fn be_units_of(b: &[u8]) -> (r: Vec<u16>)
    ensures
        r@ == be_units(b@),
{
    let n = b.len() / 2;
    let mut out: Vec<u16> = Vec::new();
    let mut i: usize = 0;
    while i < n
        invariant
            n == b@.len() / 2,
            i <= n,
            out@.len() == i,
            forall|k: int| 0 <= k < i ==> out@[k] == be_u16(b@, 2 * k),
        decreases n - i,
    {
        assert(2 * i + 2 <= b.len());
        out.push(read_be_u16(b, 2 * i));
        i = i + 1;
    }
    assert(out@ =~= be_units(b@));
    out
}

/// A string with its trailing NUL characters removed.
pub fn strip_nul(s: &str) -> (r: String)
    ensures
        r@ == strip_trailing_nul(s@),
{
    let mut cs = chars_of(s);
    while cs.len() > 0 && cs[cs.len() - 1] == '\0'
        invariant
            strip_trailing_nul(cs@) == strip_trailing_nul(s@),
        decreases cs@.len(),
    {
        assert(cs@.drop_last() =~= cs@.subrange(0, cs@.len() - 1));
        cs.pop();
    }
    string_from_chars(cs.as_slice())
}

fn parse_beat_grid(b: &[u8]) -> (r: Option<Vec<BeatGridBeat>>)
    ensures
        r is Some <==> beat_grid_parses(b@),
        r matches Some(v) ==> v@ == beat_grid_beats(b@),
{
    if b.len() < 12 {
        return None;
    }
    let n = read_be_u32(b, 8);
    if (n as u64) * 8 > (b.len() - 12) as u64 {
        return None;
    }
    let mut beats: Vec<BeatGridBeat> = Vec::new();
    let mut i: u32 = 0;
    while i < n
        invariant
            n == be_u32(b@, 8),
            12 + 8 * n <= b.len(),
            i <= n,
            beats@.len() == i,
            forall|k: int| 0 <= k < i ==> beats@[k] == beat_at(b@, 12 + 8 * k),
        decreases n - i,
    {
        let at = 12 + 8 * (i as usize);
        beats.push(BeatGridBeat {
            beat_number: read_be_u16(b, at),
            tempo: read_be_u16(b, at + 2),
            time: read_be_u32(b, at + 4),
        });
        i = i + 1;
    }
    assert(beats@ =~= beat_grid_beats(b@));
    Some(beats)
}

fn parse_pcpt_entry(b: &[u8], p: usize) -> (r: Option<CueEntry>)
    ensures
        r is Some <==> pcpt_ok(b@, p as int),
        r matches Some(e) ==> e == pcpt_entry(b@, p as int),
{
    if p > b.len() || b.len() - p < 56 {
        return None;
    }
    let m = magic_pcpt();
    if !bytes_at(b, p, &m) {
        return None;
    }
    Some(CueEntry {
        hot_cue: read_be_u32(b, p + 12),
        status: read_be_u32(b, p + 16),
        order_first: read_be_u16(b, p + 24),
        order_last: read_be_u16(b, p + 26),
        cue_type: b[p + 28],
        time: read_be_u32(b, p + 32),
        loop_time: read_be_u32(b, p + 36),
    })
}

fn parse_pcob(b: &[u8]) -> (r: Option<SectionBody>)
    ensures
        r is Some <==> cues_parse(b@),
        r matches Some(body) ==> body_ok(SectionTag::Cues, b@, 0, 0, body),
{
    if b.len() < 12 {
        return None;
    }
    let list_type = CueListType::from_u32(read_be_u32(b, 0));
    let n = read_be_u16(b, 6);
    let memory_count = read_be_u32(b, 8);
    let mut cues: Vec<CueEntry> = Vec::new();
    if n == 0 {
        assert(cues@ =~= cues_entries(b@));
        return Some(SectionBody::Cues { list_type, memory_count, cues });
    }
    let mut p: usize = 12;
    let mut k: u16 = 0;
    loop
        invariant_except_break
            k < n,
            p <= b.len(),
            p as int == pcpt_pos(b@, k as nat),
        invariant
            n == be_u16(b@, 6),
            12 <= b.len(),
            k <= n,
            cues@.len() == k,
            forall|i: nat| i < k ==> pcpt_ok(b@, #[trigger] pcpt_pos(b@, i)),
            forall|i: int| 0 <= i < k ==> cues@[i] == pcpt_entry(b@, pcpt_pos(b@, i as nat)),
        ensures
            k == n,
        decreases n - k,
    {
        match parse_pcpt_entry(b, p) {
            None => {
                assert(!pcpt_ok(b@, pcpt_pos(b@, k as nat)));
                return None;
            },
            Some(e) => {
                cues.push(e);
            },
        }
        let ghost kk = k as nat;
        k = k + 1;
        if k == n {
            break;
        }
        let le = read_be_u32(b, p + 8);
        let step: usize = if le >= 56 { le as usize } else { 56 };
        assert(pcpt_pos(b@, (kk + 1) as nat) == p + step);
        if step > b.len() - p {
            assert(!pcpt_ok(b@, pcpt_pos(b@, k as nat)));
            return None;
        }
        p = p + step;
    }
    assert(cues@ =~= cues_entries(b@));
    Some(SectionBody::Cues { list_type, memory_count, cues })
}

fn parse_pcp2_entry(b: &[u8], p: usize) -> (r: Option<CueExtendedEntry>)
    ensures
        r is Some <==> pcp2_ok(b@, p as int),
        r matches Some(e) ==> pcp2_entry_ok(b@, p as int, e),
{
    if p > b.len() || b.len() - p < 40 {
        return None;
    }
    let m = magic_pcp2();
    if !bytes_at(b, p, &m) {
        return None;
    }
    let len_entry = read_be_u32(b, p + 8);
    let hot_cue = read_be_u32(b, p + 12);
    let cue_type = b[p + 16];
    let time = read_be_u32(b, p + 20);
    let loop_time = read_be_u32(b, p + 24);
    let color_id = b[p + 28];
    let loop_numerator = read_be_u16(b, p + 36);
    let loop_denominator = read_be_u16(b, p + 38);
    let mut len_comment: u32 = 0;
    let mut comment: Option<String> = None;
    let mut c: usize = p + 40;
    if len_entry > 43 {
        if b.len() - p < 44 {
            return None;
        }
        len_comment = read_be_u32(b, p + 40);
        if len_comment as usize > b.len() - p - 44 {
            return None;
        }
        let text = &b[p + 44..p + 44 + len_comment as usize];
        let units = be_units_of(text);
        let decoded = decode_utf16_lossy(units.as_slice());
        comment = Some(strip_nul(decoded.as_str()));
        c = p + 44 + len_comment as usize;
    }
    let after: u32 = if len_entry >= len_comment { len_entry - len_comment } else { 0 };
    let count: usize = if after > 47 { 4 } else if after > 46 { 3 } else if after > 45 { 2 } else if after > 44 { 1 } else { 0 };
    assert(c as int == pcp2_colors_at(b@, p as int));
    assert(after as int == pcp2_after(b@, p as int));
    if count > b.len() - c {
        return None;
    }
    let color_code = if after > 44 { Some(b[c]) } else { None };
    let color_red = if after > 45 { Some(b[c + 1]) } else { None };
    let color_green = if after > 46 { Some(b[c + 2]) } else { None };
    let color_blue = if after > 47 { Some(b[c + 3]) } else { None };
    Some(CueExtendedEntry {
        hot_cue,
        cue_type,
        time,
        loop_time,
        color_id,
        comment,
        len_comment,
        color_code,
        color_red,
        color_green,
        color_blue,
        loop_numerator: Some(loop_numerator),
        loop_denominator: Some(loop_denominator),
    })
}

fn parse_pco2(b: &[u8]) -> (r: Option<SectionBody>)
    ensures
        r is Some <==> cues2_parse(b@),
        r matches Some(body) ==> body_ok(SectionTag::Cues2, b@, 0, 0, body),
{
    if b.len() < 8 {
        return None;
    }
    let list_type = CueListType::from_u32(read_be_u32(b, 0));
    let n = read_be_u16(b, 4);
    let mut cues: Vec<CueExtendedEntry> = Vec::new();
    if n == 0 {
        return Some(SectionBody::Cues2 { list_type, cues });
    }
    let mut p: usize = 8;
    let mut k: u16 = 0;
    loop
        invariant_except_break
            k < n,
            p <= b.len(),
            p as int == pcp2_pos(b@, k as nat),
        invariant
            n == be_u16(b@, 4),
            8 <= b.len(),
            k <= n,
            cues@.len() == k,
            forall|i: nat| i < k ==> pcp2_ok(b@, #[trigger] pcp2_pos(b@, i)),
            forall|i: int| 0 <= i < k ==> pcp2_entry_ok(b@, pcp2_pos(b@, i as nat), #[trigger] cues@[i]),
        ensures
            k == n,
        decreases n - k,
    {
        match parse_pcp2_entry(b, p) {
            None => {
                assert(!pcp2_ok(b@, pcp2_pos(b@, k as nat)));
                return None;
            },
            Some(e) => {
                cues.push(e);
            },
        }
        let ghost kk = k as nat;
        k = k + 1;
        if k == n {
            break;
        }
        let le = read_be_u32(b, p + 8);
        assert(pcp2_pos(b@, (kk + 1) as nat) == p + le);
        if le as usize > b.len() - p {
            assert(!pcp2_ok(b@, pcp2_pos(b@, k as nat)));
            return None;
        }
        p = p + le as usize;
    }
    Some(SectionBody::Cues2 { list_type, cues })
}

fn parse_path(b: &[u8]) -> (r: Option<SectionBody>)
    ensures
        r is Some <==> path_parses(b@),
        r matches Some(body) ==> body_ok(SectionTag::Path, b@, 0, 0, body),
{
    if b.len() < 4 {
        return None;
    }
    let len_path = read_be_u32(b, 0);
    if len_path > 1 {
        if (len_path - 2) as usize > b.len() - 4 {
            return None;
        }
        let units = be_units_of(&b[4..4 + (len_path - 2) as usize]);
        let text = decode_utf16_lossy(units.as_slice());
        Some(SectionBody::Path { path: Some(text) })
    } else {
        Some(SectionBody::Path { path: None })
    }
}

fn parse_vbr(b: &[u8]) -> (r: Option<SectionBody>)
    ensures
        r is Some <==> 1604 <= b@.len(),
        r matches Some(body) ==> body_ok(SectionTag::Vbr, b@, 0, 0, body),
{
    if b.len() < 1604 {
        return None;
    }
    let mut index: Vec<u32> = Vec::new();
    let mut i: usize = 0;
    while i < 400
        invariant
            1604 <= b.len(),
            i <= 400,
            index@.len() == i,
            forall|k: int| 0 <= k < i ==> index@[k] == be_u32(b@, 4 + 4 * k),
        decreases 400 - i,
    {
        index.push(read_be_u32(b, 4 + 4 * i));
        i = i + 1;
    }
    assert(index@ =~= vbr_index(b@));
    Some(SectionBody::Vbr { index })
}

fn parse_preview(b: &[u8], len_header: u32, len_tag: u32) -> (r: Option<SectionBody>)
    ensures
        r is Some <==> preview_parses(b@, len_header, len_tag),
        r matches Some(body) ==> body_ok(SectionTag::WavePreview, b@, len_header, len_tag, body),
{
    if b.len() < 8 {
        return None;
    }
    let len_preview = read_be_u32(b, 0);
    if len_tag > len_header {
        if len_preview as usize > b.len() - 8 {
            return None;
        }
        let data = copy_range(b, 8, 8 + len_preview as usize);
        Some(SectionBody::WavePreview { data })
    } else {
        let data: Vec<u8> = Vec::new();
        assert(data@ =~= preview_data(b@, len_header, len_tag));
        Some(SectionBody::WavePreview { data })
    }
}

/// The entry width, entry count and entry bytes of a waveform body whose
/// entries start at `at`.
fn parse_waves(b: &[u8], at: usize) -> (r: Option<(u32, u32, Vec<u8>)>)
    requires
        at == 8 || at == 12,
    ensures
        r is Some <==> at <= b@.len() && waves_parse(b@, at as int),
        r matches Some(t) ==> t.0 == be_u32(b@, 0) && t.1 == be_u32(b@, 4) && t.2@ == waves_data(b@, at as int),
{
    if b.len() < at {
        return None;
    }
    let w = read_be_u32(b, 0);
    let n = read_be_u32(b, 4);
    assert((w as u64) * (n as u64) <= 0xffff_ffff_ffff_ffffu64) by (nonlinear_arith);
    let total: u64 = (w as u64) * (n as u64);
    if total > (b.len() - at) as u64 {
        return None;
    }
    let entries = copy_range(b, at, at + total as usize);
    Some((w, n, entries))
}

fn song_structure_key_bytes() -> (r: [u8; 19])
    ensures
        r@ == song_structure_key(),
{
    let r = [0xCBu8, 0xE1, 0xEE, 0xFA, 0xE5, 0xEE, 0xAD, 0xEE, 0xE9, 0xD2, 0xE9, 0xEB, 0xE1, 0xE9, 0xF3, 0xE8, 0xE9, 0xF4, 0xE1];
    assert(r@ =~= song_structure_key());
    r
}

/// The XOR mask rekordbox applies to the song structure body, keyed on the
/// phrase count.
pub fn song_structure_mask(len_entries: u16) -> (r: [u8; 19])
    ensures
        forall|k: int| 0 <= k < 19 ==> r@[k] == mask_byte(len_entries, k),
{
    let key = song_structure_key_bytes();
    let c: u16 = len_entries % 256;
    let mut mask = [0u8; 19];
    let mut i: usize = 0;
    while i < 19
        invariant
            key@ == song_structure_key(),
            c == len_entries % 256,
            i <= 19,
            forall|k: int| 0 <= k < i ==> mask@[k] == mask_byte(len_entries, k),
        decreases 19 - i,
    {
        mask[i] = ((key[i] as u16 + c) % 256) as u8;
        i = i + 1;
    }
    mask
}

/// The song structure body after the phrase count, unmasked.
fn unmask_song_structure(b: &[u8]) -> (r: Vec<u8>)
    requires
        6 <= b.len(),
    ensures
        r@ == song_structure_plain(b@),
{
    let mask = song_structure_mask(read_be_u16(b, 4));
    let n = b.len() - 6;
    let mut out: Vec<u8> = Vec::new();
    let mut i: usize = 0;
    while i < n
        invariant
            n == b.len() - 6,
            i <= n,
            out@.len() == i,
            forall|k: int| 0 <= k < 19 ==> mask@[k] == mask_byte(be_u16(b@, 4), k),
            forall|k: int| 0 <= k < i ==> out@[k] == b@[6 + k] ^ mask_byte(be_u16(b@, 4), k % 19),
        decreases n - i,
    {
        out.push(b[6 + i] ^ mask[i % 19]);
        i = i + 1;
    }
    assert(out@ =~= song_structure_plain(b@));
    out
}

fn parse_song_structure(b: &[u8]) -> (r: Option<SectionBody>)
    ensures
        r is Some <==> song_structure_parses(b@),
        r matches Some(body) ==> body_ok(SectionTag::SongStructure, b@, 0, 0, body),
{
    if b.len() < 6 {
        return None;
    }
    let len_entry_bytes = read_be_u32(b, 0);
    let len_entries = read_be_u16(b, 4);
    let gap: u64 = if len_entry_bytes >= 9 { (len_entry_bytes - 9) as u64 } else { 0 };
    assert(len_entries as u64 * (9 + gap) <= 0xffff * 0x1_0000_0009u64) by (nonlinear_arith)
        requires
            len_entries <= 0xffff,
            gap <= 0xffff_ffff,
    ;
    let need: u64 = 20 + (len_entries as u64) * (9 + gap);
    if need > b.len() as u64 {
        return None;
    }
    let u = unmask_song_structure(b);
    let ghost uu = song_structure_plain(b@);
    let mood = read_be_u16(u.as_slice(), 0);
    let end_beat = read_be_u16(u.as_slice(), 8);
    let bank = u[12];
    let g: usize = gap as usize;
    let stride: usize = 9 + g;
    let mut entries: Vec<SongStructureEntry> = Vec::new();
    let mut i: u16 = 0;
    let mut q: usize = 14;
    while i < len_entries
        invariant
            u@ == uu,
            uu == song_structure_plain(b@),
            u@.len() == b@.len() - 6,
            u.len() == b.len() - 6,
            len_entries == be_u16(b@, 4),
            g as int == phrase_gap(b@),
            stride == 9 + g,
            20 + len_entries as int * stride <= b@.len(),
            i <= len_entries,
            q as int == 14 + i as int * stride,
            entries@.len() == i,
            forall|k: int| 0 <= k < i ==> entries@[k] == phrase_at(uu, 14 + k * (9 + g), g as int),
        decreases len_entries - i,
    {
        assert(q + stride <= u@.len()) by (nonlinear_arith)
            requires
                q as int == 14 + i as int * stride,
                i < len_entries,
                20 + len_entries as int * stride <= b.len(),
                u.len() == b.len() - 6,
        ;
        let e = SongStructureEntry {
            phrase_number: read_be_u16(u.as_slice(), q),
            beat_number: read_be_u16(u.as_slice(), q + 2),
            kind: read_be_u16(u.as_slice(), q + 4),
            fill_in: u[q + 6 + g],
            fill_in_beat_number: read_be_u16(u.as_slice(), q + 7 + g),
        };
        entries.push(e);
        assert(q + stride == 14 + (i + 1) as int * stride) by (nonlinear_arith)
            requires
                q as int == 14 + i as int * stride,
        ;
        q = q + stride;
        i = i + 1;
    }
    assert(entries@ =~= song_structure_entries(b@));
    Some(SectionBody::SongStructure { len_entry_bytes, len_entries, mood, end_beat, bank, entries })
}

fn parse_vocal_config(b: &[u8]) -> (r: Option<SectionBody>)
    ensures
        r is Some <==> 8 <= b@.len(),
        r matches Some(body) ==> body_ok(SectionTag::VocalConfig, b@, 0, 0, body),
{
    if b.len() < 8 {
        return None;
    }
    Some(SectionBody::VocalConfig {
        threshold_low: read_be_u16(b, 2),
        threshold_mid: read_be_u16(b, 4),
        threshold_high: read_be_u16(b, 6),
    })
}

/// Parse a section body of the given tag; `None` when it does not parse.
fn parse_body(tag: SectionTag, b: &[u8], len_header: u32, len_tag: u32) -> (r: Option<SectionBody>)
    ensures
        r is Some <==> body_parses(tag, b@, len_header, len_tag),
        r matches Some(body) ==> body_ok(tag, b@, len_header, len_tag, body),
{
    match tag {
        SectionTag::BeatGrid => match parse_beat_grid(b) {
            Some(beats) => Some(SectionBody::BeatGrid { beats }),
            None => None,
        },
        SectionTag::Cues => parse_pcob(b),
        SectionTag::Cues2 => parse_pco2(b),
        SectionTag::Path => parse_path(b),
        SectionTag::Vbr => parse_vbr(b),
        SectionTag::WavePreview | SectionTag::WaveTiny => parse_preview(b, len_header, len_tag),
        SectionTag::WaveScroll => match parse_waves(b, 12) {
            Some((w, n, e)) => Some(SectionBody::WaveScroll { len_entry_bytes: w, len_entries: n, entries: e }),
            None => None,
        },
        SectionTag::WaveColorPreview => match parse_waves(b, 12) {
            Some((w, n, e)) => Some(SectionBody::WaveColorPreview { len_entry_bytes: w, len_entries: n, entries: e }),
            None => None,
        },
        SectionTag::WaveColorScroll => match parse_waves(b, 12) {
            Some((w, n, e)) => Some(SectionBody::WaveColorScroll { len_entry_bytes: w, len_entries: n, entries: e }),
            None => None,
        },
        SectionTag::WaveColor3BandDetail => match parse_waves(b, 12) {
            Some((w, n, e)) => Some(SectionBody::WaveColor3BandDetail { len_entry_bytes: w, len_entries: n, entries: e }),
            None => None,
        },
        SectionTag::WaveColor3BandPreview => match parse_waves(b, 8) {
            Some((w, n, e)) => Some(SectionBody::WaveColor3BandPreview { len_entry_bytes: w, len_entries: n, entries: e }),
            None => None,
        },
        SectionTag::SongStructure => parse_song_structure(b),
        SectionTag::VocalConfig => parse_vocal_config(b),
        SectionTag::Other(_) => Some(SectionBody::Unknown),
    }
}

impl RekordboxAnlz {
    /// Parse an analysis file. A section whose body does not parse is kept
    /// with an `Unknown` body.
    pub fn parse(data: &[u8]) -> (r: Result<RekordboxAnlz, Error>)
        ensures
            r is Ok <==> anlz_parses(data@),
            r matches Ok(a) ==> anlz_ok(data@, a),
            r matches Err(e) ==> e == Error::Parse(anlz_error(data@)),
    {
        if data.len() < 4 {
            return Err(Error::Parse(ParseError::ReadPastEnd));
        }
        let m = magic_pmai();
        if !bytes_at(data, 0, &m) {
            return Err(Error::Parse(ParseError::MissingMagic));
        }
        if data.len() < 12 {
            return Err(Error::Parse(ParseError::ReadPastEnd));
        }
        let len_header = read_be_u32(data, 4);
        let len_file = read_be_u32(data, 8);
        let p0: usize = if (len_header as usize) <= data.len() { len_header as usize } else { data.len() };
        let mut p: usize = p0;
        let mut sections: Vec<TaggedSection> = Vec::new();
        while data.len() - p >= 12
            invariant
                has_at(data@, 0, pmai_magic()),
                12 <= data.len(),
                p0 as int == first_section(data@),
                p <= data.len(),
                sections_parse(data@, p0 as int) == sections_parse(data@, p as int),
                forall|rest: Seq<TaggedSection>| #[trigger] sections_ok(data@, p as int, rest)
                    ==> sections_ok(data@, p0 as int, sections@ + rest),
            decreases data.len() - p,
        {
            let fourcc = read_be_u32(data, p);
            let section_len_header = read_be_u32(data, p + 4);
            let len_tag = read_be_u32(data, p + 8);
            if len_tag < 12 {
                return Err(Error::Parse(ParseError::BadSectionLength));
            }
            let want: usize = (len_tag - 12) as usize;
            let have: usize = data.len() - p - 12;
            let body_len: usize = if want <= have { want } else { have };
            let next: usize = p + 12 + body_len;
            assert(next as int == next_section(data@, p as int));
            let body_bytes = &data[p + 12..next];
            let tag = SectionTag::from_u32(fourcc);
            let body = match parse_body(tag, body_bytes, section_len_header, len_tag) {
                Some(body) => body,
                None => SectionBody::Unknown,
            };
            let s = TaggedSection { tag, fourcc, len_header: section_len_header, len_tag, body };
            assert(section_ok(data@, p as int, s));
            proof {
                assert forall|rest: Seq<TaggedSection>| #[trigger] sections_ok(data@, next as int, rest)
                    implies sections_ok(data@, p0 as int, sections@.push(s) + rest) by {
                    let whole = seq![s] + rest;
                    assert(whole.drop_first() =~= rest);
                    assert(whole[0] == s);
                    assert(sections_ok(data@, p as int, whole));
                    assert(sections@ + whole =~= sections@.push(s) + rest);
                }
            }
            sections.push(s);
            p = next;
        }
        assert(sections_ok(data@, p as int, Seq::<TaggedSection>::empty()));
        assert(sections@ + Seq::<TaggedSection>::empty() =~= sections@);
        Ok(RekordboxAnlz { len_header, len_file, sections })
    }

    /// The first section with the given tag.
    pub fn section(&self, tag: SectionTag) -> (r: Option<&TaggedSection>)
        ensures
            r matches Some(s) ==> exists|i: int|
                0 <= i < self.sections@.len() && *s == self.sections@[i] && s.tag == tag
                    && forall|j: int| 0 <= j < i ==> self.sections@[j].tag != tag,
            r is None ==> forall|i: int| 0 <= i < self.sections@.len() ==> self.sections@[i].tag != tag,
    {
        let mut i: usize = 0;
        while i < self.sections.len()
            invariant
                i <= self.sections@.len(),
                forall|j: int| 0 <= j < i ==> self.sections@[j].tag != tag,
            decreases self.sections@.len() - i,
        {
            if self.sections[i].tag == tag {
                return Some(&self.sections[i]);
            }
            i = i + 1;
        }
        None
    }
}

} // verus!
