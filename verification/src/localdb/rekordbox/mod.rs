//! Rekordbox database (pdb) rows and analysis file (ANLZ) loading.

pub mod anlz;
pub mod anlz_parsers;
pub mod entity_creators;
pub mod hydrator;
pub mod pdb;
pub mod table_mappings;
pub mod types;

use vstd::prelude::*;
use crate::error::Error;
use crate::localdb::rekordbox::anlz::{anlz_error, anlz_ok, anlz_parses, RekordboxAnlz, SectionBody, SectionTag, TaggedSection};
use crate::localdb::rekordbox::anlz_parsers::{
    beat_of, cues_of, extended_cue_ok, make_beat_grid, make_cue_and_loop, make_extended_cues, make_song_structure,
    make_vocal_config, make_waveform_3band_detail, make_waveform_3band_preview, make_waveform_hd, make_waveform_preview,
    mood_of,
    bank_of, phrase_ok,
};
use crate::localdb::rekordbox::types::{AnlzResponse, AnlzResponse2EX, AnlzResponseDAT, AnlzResponseEXT};
use crate::types::VocalConfig;

verus! {

/// True when a section body has the shape its tag promises, so that the
/// section feeds the response.
pub open spec fn body_fits(tag: SectionTag, body: SectionBody) -> bool {
    match tag {
        SectionTag::BeatGrid => body is BeatGrid,
        SectionTag::Cues => body is Cues,
        SectionTag::Cues2 => body is Cues2,
        SectionTag::WavePreview => body is WavePreview,
        SectionTag::WaveTiny => body is WavePreview,
        SectionTag::WaveScroll => body is WaveScroll,
        SectionTag::WaveColorPreview => body is WaveColorPreview,
        SectionTag::WaveColorScroll => body is WaveColorScroll,
        SectionTag::SongStructure => body is SongStructure,
        SectionTag::WaveColor3BandPreview => body is WaveColor3BandPreview,
        SectionTag::WaveColor3BandDetail => body is WaveColor3BandDetail,
        SectionTag::VocalConfig => body is VocalConfig,
        _ => false,
    }
}

/// The index of the last of the first `n` sections that has tag `t` and a
/// body of the shape the tag promises.
pub open spec fn last_match(secs: Seq<TaggedSection>, n: int, t: SectionTag) -> Option<int>
    decreases n,
{
    if n <= 0 {
        None
    } else if secs[n - 1].tag == t && body_fits(t, secs[n - 1].body) {
        Some(n - 1)
    } else {
        last_match(secs, n - 1, t)
    }
}

/// What the response holds after the first `n` sections: each field comes
/// from the last section of its tag, or is `None` when there is none.
pub open spec fn response_ok(secs: Seq<TaggedSection>, n: int, r: AnlzResponse) -> bool {
    &&& match last_match(secs, n, SectionTag::BeatGrid) {
        Some(i) => r.dat.beat_grid matches Some(g) && secs[i].body matches SectionBody::BeatGrid { beats }
            && g@ == beats@.map_values(|b| beat_of(b)),
        None => r.dat.beat_grid is None,
    }
    &&& match last_match(secs, n, SectionTag::Cues) {
        Some(i) => r.dat.cue_and_loops matches Some(c) && secs[i].body matches SectionBody::Cues { cues, .. }
            && c@ == cues_of(cues@),
        None => r.dat.cue_and_loops is None,
    }
    &&& match last_match(secs, n, SectionTag::Cues2) {
        Some(i) => r.ext.extended_cues matches Some(c) && secs[i].body matches SectionBody::Cues2 { cues, .. }
            && c@.len() == cues@.len() && forall|k: int| 0 <= k < cues@.len() ==> extended_cue_ok(cues@[k], #[trigger] c@[k]),
        None => r.ext.extended_cues is None,
    }
    &&& match last_match(secs, n, SectionTag::WavePreview) {
        Some(i) => r.dat.waveform_preview matches Some(w) && secs[i].body matches SectionBody::WavePreview { data }
            && w.data@ == data@,
        None => r.dat.waveform_preview is None,
    }
    &&& match last_match(secs, n, SectionTag::WaveTiny) {
        Some(i) => r.dat.waveform_tiny matches Some(w) && secs[i].body matches SectionBody::WavePreview { data }
            && w.data@ == data@,
        None => r.dat.waveform_tiny is None,
    }
    &&& match last_match(secs, n, SectionTag::WaveScroll) {
        Some(i) => r.ext.waveform_detail matches Some(w) && secs[i].body matches SectionBody::WaveScroll { entries, .. }
            && w@ == entries@,
        None => r.ext.waveform_detail is None,
    }
    &&& match last_match(secs, n, SectionTag::WaveColorPreview) {
        Some(i) => r.ext.waveform_color_preview matches Some(w)
            && secs[i].body matches SectionBody::WaveColorPreview { entries, .. } && w@ == entries@,
        None => r.ext.waveform_color_preview is None,
    }
    &&& match last_match(secs, n, SectionTag::WaveColorScroll) {
        Some(i) => r.ext.waveform_hd matches Some(w) && secs[i].body matches SectionBody::WaveColorScroll { entries, .. }
            && w@ == entries@,
        None => r.ext.waveform_hd is None,
    }
    &&& match last_match(secs, n, SectionTag::SongStructure) {
        Some(i) => r.ext.song_structure matches Some(s)
            && secs[i].body matches SectionBody::SongStructure { mood, bank, end_beat, entries, .. }
            && s.mood == mood_of(mood) && s.bank == bank_of(bank) && s.end_beat == end_beat
            && s.phrases@.len() == entries@.len()
            && forall|k: int| 0 <= k < entries@.len() ==> phrase_ok(mood_of(mood), entries@[k], #[trigger] s.phrases@[k]),
        None => r.ext.song_structure is None,
    }
    &&& match last_match(secs, n, SectionTag::WaveColor3BandPreview) {
        Some(i) => r.two_ex.waveform_3band_preview matches Some(w)
            && secs[i].body matches SectionBody::WaveColor3BandPreview { len_entries, entries, .. }
            && w.num_entries == len_entries && w.data@ == entries@,
        None => r.two_ex.waveform_3band_preview is None,
    }
    &&& match last_match(secs, n, SectionTag::WaveColor3BandDetail) {
        Some(i) => r.two_ex.waveform_3band_detail matches Some(w)
            && secs[i].body matches SectionBody::WaveColor3BandDetail { len_entries, entries, .. }
            && w.num_entries == len_entries && w.data@ == entries@,
        None => r.two_ex.waveform_3band_detail is None,
    }
    &&& match last_match(secs, n, SectionTag::VocalConfig) {
        Some(i) => secs[i].body matches SectionBody::VocalConfig { threshold_low, threshold_mid, threshold_high }
            && r.two_ex.vocal_config == Some(VocalConfig { threshold_low, threshold_mid, threshold_high }),
        None => r.two_ex.vocal_config is None,
    }
}

/// The response an analysis file's sections make: each field from the last
/// section of its tag.
pub fn anlz_response(anlz: &RekordboxAnlz) -> (r: AnlzResponse)
    ensures
        response_ok(anlz.sections@, anlz.sections@.len() as int, r),
{
    let mut result = AnlzResponse {
        dat: AnlzResponseDAT { beat_grid: None, cue_and_loops: None, waveform_preview: None, waveform_tiny: None },
        ext: AnlzResponseEXT {
            waveform_hd: None,
            extended_cues: None,
            song_structure: None,
            waveform_detail: None,
            waveform_color_preview: None,
        },
        two_ex: AnlzResponse2EX { waveform_3band_preview: None, waveform_3band_detail: None, vocal_config: None },
    };
    let ghost secs = anlz.sections@;
    let mut i: usize = 0;
    while i < anlz.sections.len()
        invariant
            secs == anlz.sections@,
            i <= secs.len(),
            response_ok(secs, i as int, result),
        decreases secs.len() - i,
    {
        let section = &anlz.sections[i];
        match (&section.tag, &section.body) {
            (SectionTag::BeatGrid, SectionBody::BeatGrid { beats }) => {
                result.dat.beat_grid = Some(make_beat_grid(beats.as_slice()));
            },
            (SectionTag::Cues, SectionBody::Cues { cues, .. }) => {
                result.dat.cue_and_loops = Some(make_cue_and_loop(cues.as_slice()));
            },
            (SectionTag::Cues2, SectionBody::Cues2 { cues, .. }) => {
                result.ext.extended_cues = Some(make_extended_cues(cues.as_slice()));
            },
            (SectionTag::WavePreview, SectionBody::WavePreview { data }) => {
                result.dat.waveform_preview = Some(make_waveform_preview(data.as_slice()));
            },
            (SectionTag::WaveTiny, SectionBody::WavePreview { data }) => {
                result.dat.waveform_tiny = Some(make_waveform_preview(data.as_slice()));
            },
            (SectionTag::WaveScroll, SectionBody::WaveScroll { entries, .. }) => {
                result.ext.waveform_detail = Some(vstd::slice::slice_to_vec(entries.as_slice()));
            },
            (SectionTag::WaveColorPreview, SectionBody::WaveColorPreview { entries, .. }) => {
                result.ext.waveform_color_preview = Some(vstd::slice::slice_to_vec(entries.as_slice()));
            },
            (SectionTag::WaveColorScroll, SectionBody::WaveColorScroll { entries, .. }) => {
                result.ext.waveform_hd = Some(make_waveform_hd(entries.as_slice()));
            },
            (SectionTag::SongStructure, SectionBody::SongStructure { mood, end_beat, bank, entries, .. }) => {
                result.ext.song_structure = Some(make_song_structure(*mood, *bank, *end_beat, entries.as_slice()));
            },
            (SectionTag::WaveColor3BandPreview, SectionBody::WaveColor3BandPreview { len_entries, entries, .. }) => {
                result.two_ex.waveform_3band_preview = Some(make_waveform_3band_preview(*len_entries, entries.as_slice()));
            },
            (SectionTag::WaveColor3BandDetail, SectionBody::WaveColor3BandDetail { len_entries, entries, .. }) => {
                result.two_ex.waveform_3band_detail = Some(make_waveform_3band_detail(*len_entries, entries.as_slice()));
            },
            (SectionTag::VocalConfig, SectionBody::VocalConfig { .. }) => {
                result.two_ex.vocal_config = make_vocal_config(&section.body);
            },
            // VBR and PATH tags are defined but not currently extracted as
            // they're not commonly needed in the application.
            _ => {},
        }
        i = i + 1;
    }
    result
}

/// Parse an ANLZ file's bytes into a response.
pub fn parse_anlz(data: &[u8]) -> (r: Result<AnlzResponse, Error>)
    ensures
        r is Ok <==> anlz_parses(data@),
        r matches Err(e) ==> e == Error::Parse(anlz_error(data@)),
        r matches Ok(resp) ==> exists|a: RekordboxAnlz| anlz_ok(data@, a)
            && response_ok(a.sections@, a.sections@.len() as int, resp),
{
    let anlz = RekordboxAnlz::parse(data)?;
    let resp = anlz_response(&anlz);
    assert(anlz_ok(data@, anlz) && response_ok(anlz.sections@, anlz.sections@.len() as int, resp));
    Ok(resp)
}

} // verus!
