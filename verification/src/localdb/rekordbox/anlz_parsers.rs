//! Converters from parsed ANLZ sections to the crate's public types.

use vstd::prelude::*;
use crate::entities::{
    button_number, button_of, cue_button_field, cue_color_field, cue_label_field, cue_length_field, cue_offset, CueAndLoop,
    HotcueButton,
};
use crate::localdb::rekordbox::anlz::{BeatGridBeat, CueEntry, CueExtendedEntry, SectionBody, SongStructureEntry};
use crate::localdb::utils::{cue_loop_entry, make_cue_loop_entry};
use crate::text::owned;
use crate::types::{
    Bank, Beat, ExtendedCue, Mood, Phrase, Rgb, SongStructure, VocalConfig, Waveform3BandDetail, Waveform3BandPreview,
    WaveformPreviewData,
};

verus! {

/// The beat a beat grid entry becomes.
pub open spec fn beat_of(b: BeatGridBeat) -> Beat {
    Beat { offset: b.time, tempo: b.tempo, count: if b.beat_number <= 255 { b.beat_number as u8 } else { 255 } }
}

/// Each beat of a beat grid keeps its time as offset and its tempo, and
/// its number in the bar as count (capped at 255).
pub proof fn law_beat_grid_beats(beats: Seq<BeatGridBeat>, i: int)
    requires
        0 <= i < beats.len(),
    ensures
        beats.map_values(|b: BeatGridBeat| beat_of(b)).len() == beats.len(),
        beats.map_values(|b: BeatGridBeat| beat_of(b))[i].offset == beats[i].time,
        beats.map_values(|b: BeatGridBeat| beat_of(b))[i].tempo == beats[i].tempo,
        beats[i].beat_number <= 255 ==> beats.map_values(|b: BeatGridBeat| beat_of(b))[i].count == beats[i].beat_number,
        beats[i].beat_number > 255 ==> beats.map_values(|b: BeatGridBeat| beat_of(b))[i].count == 255,
{
}

/// Fill beatgrid data from the ANLZ section.
pub fn make_beat_grid(beats: &[BeatGridBeat]) -> (r: Vec<Beat>)
    ensures
        r@ == beats@.map_values(|b: BeatGridBeat| beat_of(b)),
        r@.len() == beats@.len(),
        forall|i: int| 0 <= i < beats@.len() ==> {
            &&& (#[trigger] r@[i]).offset == beats@[i].time
            &&& r@[i].tempo == beats@[i].tempo
            &&& r@[i].count == if beats@[i].beat_number <= 255 { beats@[i].beat_number } else { 255 }
        },
{
    let mut out: Vec<Beat> = Vec::new();
    let mut i: usize = 0;
    while i < beats.len()
        invariant
            i <= beats@.len(),
            out@.len() == i,
            forall|k: int| 0 <= k < i ==> out@[k] == beat_of(beats@[k]),
        decreases beats@.len() - i,
    {
        let b = beats[i];
        let count: u8 = if b.beat_number <= 255 { b.beat_number as u8 } else { 255 };
        out.push(Beat { offset: b.time, tempo: b.tempo, count });
        i = i + 1;
    }
    assert(out@ =~= beats@.map_values(|b: BeatGridBeat| beat_of(b)));
    out
}

/// The hot cue button of a cue entry: none for 0, else the button its
/// number (capped at 255) names.
pub open spec fn entry_button(e: CueEntry) -> Option<HotcueButton> {
    if e.hot_cue == 0 {
        None
    } else {
        button_of(if e.hot_cue <= 255 { e.hot_cue as u8 } else { 255 })
    }
}

/// What a cue entry becomes: type 1 is a cue point, type 2 a loop whose
/// length is the loop time minus the cue time, each a hot one where the
/// entry names a button. Entries of status 0 (leftovers of removed cues) and
/// entries of any other type are dropped.
pub open spec fn cue_of(e: CueEntry) -> Option<CueAndLoop> {
    if e.status == 0 {
        None
    } else {
        cue_loop_entry(e.cue_type == 1, e.cue_type == 2, e.time, (e.loop_time as int - e.time as int) as i64, entry_button(e))
    }
}

/// A cue entry of a PCOB list reads as follows, whatever else it holds:
/// nothing where its status is 0 or its type is neither 1 (a cue point) nor
/// 2 (a loop); otherwise an entry at its time, a loop exactly when its type
/// is 2 (of the length from its time to its loop time), a hot one exactly
/// when its hot cue number is 1 to 8 (on the button of that number), with
/// no label or colour.
pub proof fn law_cue_entry_reading(e: CueEntry)
    ensures
        e.status == 0 || (e.cue_type != 1 && e.cue_type != 2) ==> cue_of(e) is None,
        e.status != 0 && (e.cue_type == 1 || e.cue_type == 2) ==> (cue_of(e) matches Some(c) && {
            &&& cue_offset(c) == e.time
            &&& (cue_length_field(c) is Some <==> e.cue_type == 2)
            &&& (cue_length_field(c) matches Some(l) ==> l == e.loop_time - e.time)
            &&& (cue_button_field(c) is Some <==> 1 <= e.hot_cue <= 8)
            &&& (cue_button_field(c) matches Some(b) ==> button_number(b) == e.hot_cue)
            &&& cue_label_field(c) is None
            &&& cue_color_field(c) is None
        }),
{
    if 1 <= e.hot_cue <= 8 {
        let n = e.hot_cue as u8;
        assert(button_of(n) is Some && button_number(button_of(n)->0) == n);
    }
}

/// The cues and loops a run of cue entries becomes, in order.
pub open spec fn cues_of(s: Seq<CueEntry>) -> Seq<CueAndLoop>
    decreases s.len(),
{
    if s.len() == 0 {
        Seq::empty()
    } else {
        let rest = cues_of(s.drop_last());
        match cue_of(s.last()) {
            Some(c) => rest.push(c),
            None => rest,
        }
    }
}

/// Fill cue and loop data from the ANLZ section.
pub fn make_cue_and_loop(cues: &[CueEntry]) -> (r: Vec<CueAndLoop>)
    ensures
        r@ == cues_of(cues@),
{
    let mut out: Vec<CueAndLoop> = Vec::new();
    let mut i: usize = 0;
    while i < cues.len()
        invariant
            i <= cues@.len(),
            out@ == cues_of(cues@.subrange(0, i as int)),
        decreases cues@.len() - i,
    {
        let entry = &cues[i];
        let button = if entry.hot_cue == 0 {
            None
        } else {
            let n: u8 = if entry.hot_cue <= 255 { entry.hot_cue as u8 } else { 255 };
            HotcueButton::from_u8(n)
        };
        let is_cue = entry.cue_type == 0x01;
        let is_loop = entry.cue_type == 0x02;
        let length: i64 = entry.loop_time as i64 - entry.time as i64;
        // Cues with the status 0 are leftovers of removed ones.
        let made = if entry.status == 0 {
            None
        } else {
            make_cue_loop_entry(is_cue, is_loop, entry.time, length, button)
        };
        assert(cues@.subrange(0, i + 1).drop_last() =~= cues@.subrange(0, i as int));
        assert(cues@.subrange(0, i + 1).last() == cues@[i as int]);
        match made {
            Some(c) => out.push(c),
            None => {},
        }
        i = i + 1;
    }
    assert(cues@.subrange(0, cues@.len() as int) =~= cues@);
    out
}

/// What an extended cue entry becomes.
pub open spec fn extended_cue_ok(e: CueExtendedEntry, c: ExtendedCue) -> bool {
    &&& c.hot_cue == e.hot_cue
    &&& c.cue_type == e.cue_type
    &&& c.time == e.time
    &&& c.loop_time == if e.cue_type == 2 { Some(e.loop_time) } else { None }
    &&& c.color_id == if e.color_id > 0 { Some(e.color_id) } else { None }
    &&& c.color_code == match e.color_code {
        Some(code) => if code > 0 { Some(code) } else { None },
        None => None,
    }
    &&& c.color_rgb == match e.color_code {
        Some(code) => if code > 0 {
            Some(Rgb {
                r: match e.color_red { Some(v) => v, None => 0 },
                g: match e.color_green { Some(v) => v, None => 0 },
                b: match e.color_blue { Some(v) => v, None => 0 },
            })
        } else {
            None
        },
        None => None,
    }
    &&& (c.comment is Some <==> e.len_comment > 0 && e.comment is Some && e.comment.unwrap()@.len() > 0)
    &&& c.comment matches Some(s) ==> s@ == e.comment.unwrap()@
    &&& c.loop_numerator == match e.loop_numerator {
        Some(n) => if n > 0 { Some(n) } else { None },
        None => None,
    }
    &&& c.loop_denominator == match e.loop_numerator {
        Some(n) => if n > 0 {
            Some(match e.loop_denominator { Some(d) => d, None => 1 })
        } else {
            None
        },
        None => None,
    }
}

/// An extended cue keeps its entry's hot cue number, type and time; it has
/// a loop end exactly when it is a loop (type 2), the entry's loop time; a
/// colour id exactly when the entry's is not 0; a comment exactly when the
/// entry has a non-empty one, that comment.
pub proof fn law_extended_cue_fields(e: CueExtendedEntry, c: ExtendedCue)
    requires
        extended_cue_ok(e, c),
    ensures
        c.hot_cue == e.hot_cue,
        c.cue_type == e.cue_type,
        c.time == e.time,
        c.loop_time is Some <==> e.cue_type == 2,
        c.loop_time matches Some(t) ==> t == e.loop_time,
        c.color_id is Some <==> e.color_id != 0,
        c.color_id matches Some(x) ==> x == e.color_id,
        c.comment is Some <==> (e.len_comment > 0 && e.comment is Some && e.comment->0@.len() > 0),
        c.comment matches Some(t) ==> t@ == e.comment->0@,
{
}

fn make_extended_cue(entry: &CueExtendedEntry) -> (r: ExtendedCue)
    ensures
        extended_cue_ok(*entry, r),
{
    let mut cue = ExtendedCue {
        hot_cue: entry.hot_cue,
        cue_type: entry.cue_type,
        time: entry.time,
        loop_time: None,
        color_id: None,
        color_code: None,
        color_rgb: None,
        comment: None,
        loop_numerator: None,
        loop_denominator: None,
    };

    // Add loop end time if this is a loop
    if entry.cue_type == 2 {
        cue.loop_time = Some(entry.loop_time);
    }
    // Add color ID for memory points/loops
    if entry.color_id > 0 {
        cue.color_id = Some(entry.color_id);
    }
    // Add hot cue color information
    if let Some(code) = entry.color_code {
        if code > 0 {
            cue.color_code = Some(code);
            cue.color_rgb = Some(Rgb {
                r: match entry.color_red { Some(v) => v, None => 0 },
                g: match entry.color_green { Some(v) => v, None => 0 },
                b: match entry.color_blue { Some(v) => v, None => 0 },
            });
        }
    }
    // Add comment if present
    if entry.len_comment > 0 {
        if let Some(c) = &entry.comment {
            if !c.as_str().is_empty() {
                cue.comment = Some(c.clone());
            }
        }
    }
    // Add quantized loop information if present
    if let Some(n) = entry.loop_numerator {
        if n > 0 {
            cue.loop_numerator = Some(n);
            cue.loop_denominator = Some(match entry.loop_denominator { Some(d) => d, None => 1 });
        }
    }
    cue
}

/// Parse extended cues (PCO2) with colors and comments.
pub fn make_extended_cues(cues: &[CueExtendedEntry]) -> (r: Vec<ExtendedCue>)
    ensures
        r@.len() == cues@.len(),
        forall|i: int| 0 <= i < cues@.len() ==> extended_cue_ok(cues@[i], #[trigger] r@[i]),
{
    let mut out: Vec<ExtendedCue> = Vec::new();
    let mut i: usize = 0;
    while i < cues.len()
        invariant
            i <= cues@.len(),
            out@.len() == i,
            forall|k: int| 0 <= k < i ==> extended_cue_ok(cues@[k], #[trigger] out@[k]),
        decreases cues@.len() - i,
    {
        out.push(make_extended_cue(&cues[i]));
        i = i + 1;
    }
    out
}

/// The mood a raw value stands for: 2 mid, 3 low, anything else high.
pub open spec fn mood_of(v: u16) -> Mood {
    if v == 2 {
        Mood::Mid
    } else if v == 3 {
        Mood::Low
    } else {
        Mood::High
    }
}

/// The mood a raw value stands for.
pub fn mood_from_u16(v: u16) -> (r: Mood)
    ensures
        r == mood_of(v),
{
    match v {
        2 => Mood::Mid,
        3 => Mood::Low,
        // 1 and anything unknown
        _ => Mood::High,
    }
}

/// The bank a raw value stands for: 1 to 8, anything else the default.
pub open spec fn bank_of(v: u8) -> Bank {
    if v == 1 {
        Bank::Cool
    } else if v == 2 {
        Bank::Natural
    } else if v == 3 {
        Bank::Hot
    } else if v == 4 {
        Bank::Subtle
    } else if v == 5 {
        Bank::Warm
    } else if v == 6 {
        Bank::Vivid
    } else if v == 7 {
        Bank::Club1
    } else if v == 8 {
        Bank::Club2
    } else {
        Bank::Default
    }
}

/// The bank a raw value stands for.
pub fn bank_from_u8(v: u8) -> (r: Bank)
    ensures
        r == bank_of(v),
{
    match v {
        1 => Bank::Cool,
        2 => Bank::Natural,
        3 => Bank::Hot,
        4 => Bank::Subtle,
        5 => Bank::Warm,
        6 => Bank::Vivid,
        7 => Bank::Club1,
        8 => Bank::Club2,
        _ => Bank::Default,
    }
}

/// The human-readable name of a phrase kind in a mood.
pub open spec fn phrase_label(mood: Mood, kind: u16) -> Seq<char> {
    match mood {
        Mood::High => if kind == 1 {
            "Intro"@
        } else if kind == 2 {
            "Up"@
        } else if kind == 3 {
            "Down"@
        } else if kind == 5 {
            "Chorus"@
        } else if kind == 6 {
            "Outro"@
        } else {
            "Unknown"@
        },
        Mood::Mid => if kind == 1 {
            "Intro"@
        } else if kind == 2 {
            "Verse 1"@
        } else if kind == 3 {
            "Verse 2"@
        } else if kind == 4 {
            "Verse 3"@
        } else if kind == 5 {
            "Verse 4"@
        } else if kind == 6 {
            "Verse 5"@
        } else if kind == 7 {
            "Verse 6"@
        } else if kind == 8 {
            "Bridge"@
        } else if kind == 9 {
            "Chorus"@
        } else if kind == 10 {
            "Outro"@
        } else {
            "Unknown"@
        },
        Mood::Low => if kind == 1 {
            "Intro"@
        } else if 2 <= kind <= 4 {
            "Verse 1"@
        } else if 5 <= kind <= 7 {
            "Verse 2"@
        } else if kind == 8 {
            "Bridge"@
        } else if kind == 9 {
            "Chorus"@
        } else if kind == 10 {
            "Outro"@
        } else {
            "Unknown"@
        },
    }
}

/// The human-readable phrase type for a kind in a mood.
pub fn phrase_type(mood: Mood, kind: u16) -> (r: &'static str)
    ensures
        r@ == phrase_label(mood, kind),
{
    match mood {
        Mood::High => if kind == 1 {
            "Intro"
        } else if kind == 2 {
            "Up"
        } else if kind == 3 {
            "Down"
        } else if kind == 5 {
            "Chorus"
        } else if kind == 6 {
            "Outro"
        } else {
            "Unknown"
        },
        Mood::Mid => if kind == 1 {
            "Intro"
        } else if kind == 2 {
            "Verse 1"
        } else if kind == 3 {
            "Verse 2"
        } else if kind == 4 {
            "Verse 3"
        } else if kind == 5 {
            "Verse 4"
        } else if kind == 6 {
            "Verse 5"
        } else if kind == 7 {
            "Verse 6"
        } else if kind == 8 {
            "Bridge"
        } else if kind == 9 {
            "Chorus"
        } else if kind == 10 {
            "Outro"
        } else {
            "Unknown"
        },
        Mood::Low => if kind == 1 {
            "Intro"
        } else if 2 <= kind && kind <= 4 {
            "Verse 1"
        } else if 5 <= kind && kind <= 7 {
            "Verse 2"
        } else if kind == 8 {
            "Bridge"
        } else if kind == 9 {
            "Chorus"
        } else if kind == 10 {
            "Outro"
        } else {
            "Unknown"
        },
    }
}

/// What a song structure entry becomes in a mood.
pub open spec fn phrase_ok(mood: Mood, e: SongStructureEntry, p: Phrase) -> bool {
    &&& p.index == e.phrase_number
    &&& p.beat == e.beat_number
    &&& p.kind == e.kind
    &&& p.phrase_type@ == phrase_label(mood, e.kind)
    &&& p.fill == if e.fill_in > 0 { Some(e.fill_in) } else { None }
    &&& p.fill_beat == if e.fill_in > 0 { Some(e.fill_in_beat_number) } else { None }
}

/// A phrase keeps its entry's number, beat and kind; it has a fill exactly
/// when the entry's fill-in is not 0, with the entry's fill-in beat.
pub proof fn law_phrase_fields(mood: Mood, e: SongStructureEntry, p: Phrase)
    requires
        phrase_ok(mood, e, p),
    ensures
        p.index == e.phrase_number,
        p.beat == e.beat_number,
        p.kind == e.kind,
        p.fill is Some <==> e.fill_in != 0,
        p.fill matches Some(f) ==> f == e.fill_in,
        p.fill_beat is Some <==> e.fill_in != 0,
        p.fill_beat matches Some(b) ==> b == e.fill_in_beat_number,
{
}

/// Parse song structure (PSSI) with phrase analysis.
pub fn make_song_structure(mood: u16, bank: u8, end_beat: u16, entries: &[SongStructureEntry]) -> (r: SongStructure)
    ensures
        r.mood == mood_of(mood),
        r.bank == bank_of(bank),
        r.end_beat == end_beat,
        r.phrases@.len() == entries@.len(),
        forall|i: int| 0 <= i < entries@.len() ==> phrase_ok(mood_of(mood), entries@[i], #[trigger] r.phrases@[i]),
{
    let mood = mood_from_u16(mood);
    let bank = bank_from_u8(bank);
    let mut phrases: Vec<Phrase> = Vec::new();
    let mut i: usize = 0;
    while i < entries.len()
        invariant
            i <= entries@.len(),
            phrases@.len() == i,
            forall|k: int| 0 <= k < i ==> phrase_ok(mood, entries@[k], #[trigger] phrases@[k]),
        decreases entries@.len() - i,
    {
        let entry = entries[i];
        let mut phrase = Phrase {
            index: entry.phrase_number,
            beat: entry.beat_number,
            kind: entry.kind,
            phrase_type: owned(phrase_type(mood, entry.kind)),
            fill: None,
            fill_beat: None,
        };
        // Add fill-in information if present
        if entry.fill_in > 0 {
            phrase.fill = Some(entry.fill_in);
            phrase.fill_beat = Some(entry.fill_in_beat_number);
        }
        phrases.push(phrase);
        i = i + 1;
    }
    SongStructure { mood, bank, end_beat, phrases }
}

/// Fill waveform HD data from the ANLZ section (PWV5): its two-byte
/// entries, each a colour and a height, as they are stored.
pub fn make_waveform_hd(entries: &[u8]) -> (r: Vec<u8>)
    ensures
        r@ == entries@,
{
    vstd::slice::slice_to_vec(entries)
}

/// Parse waveform preview data (PWAV/PWV2).
pub fn make_waveform_preview(data: &[u8]) -> (r: WaveformPreviewData)
    ensures
        r.data@ == data@,
{
    WaveformPreviewData { data: vstd::slice::slice_to_vec(data) }
}

/// Parse 3-band color waveform preview (PWV6 from .2EX files).
pub fn make_waveform_3band_preview(len_entries: u32, entries: &[u8]) -> (r: Waveform3BandPreview)
    ensures
        r.num_entries == len_entries,
        r.data@ == entries@,
{
    Waveform3BandPreview { num_entries: len_entries, data: vstd::slice::slice_to_vec(entries) }
}

/// Parse 3-band color detail waveform (PWV7 from .2EX files).
pub fn make_waveform_3band_detail(len_entries: u32, entries: &[u8]) -> (r: Waveform3BandDetail)
    ensures
        r.num_entries == len_entries,
        r.data@ == entries@,
{
    Waveform3BandDetail { num_entries: len_entries, data: vstd::slice::slice_to_vec(entries) }
}

/// Parse vocal detection config (PWVC from .2EX files).
pub fn make_vocal_config(body: &SectionBody) -> (r: Option<VocalConfig>)
    ensures
        r == match *body {
            SectionBody::VocalConfig { threshold_low, threshold_mid, threshold_high } => Some(
                VocalConfig { threshold_low, threshold_mid, threshold_high },
            ),
            _ => None,
        },
{
    match body {
        SectionBody::VocalConfig { threshold_low, threshold_mid, threshold_high } => Some(
            VocalConfig { threshold_low: *threshold_low, threshold_mid: *threshold_mid, threshold_high: *threshold_high },
        ),
        _ => None,
    }
}

} // verus!
