//! All analysis data of a track from its EXT and 2EX files.

use vstd::prelude::*;
use crate::localdb::rekordbox::types::AnlzResponse;
use crate::types::{ExtendedCue, SongStructure, VocalConfig, Waveform3BandDetail, Waveform3BandPreview};

verus! {

/// Everything the EXT and 2EX analysis files hold for a track.
#[derive(Debug, Clone, PartialEq)]
pub struct TrackAnalysis {
    /// Extended cues with colors and comments (PCO2 tag).
    pub extended_cues: Option<Vec<ExtendedCue>>,
    /// Song structure / phrase analysis (PSSI tag).
    pub song_structure: Option<SongStructure>,
    /// Color waveform preview (PWV4 tag).
    pub waveform_color_preview: Option<Vec<u8>>,
    /// HD waveform data (PWV5 tag): the raw two-byte entries.
    pub waveform_hd: Option<Vec<u8>>,
    /// 3-band color waveform preview (PWV6 tag from .2EX).
    pub waveform_3band_preview: Option<Waveform3BandPreview>,
    /// 3-band color detail waveform (PWV7 tag from .2EX).
    pub waveform_3band_detail: Option<Waveform3BandDetail>,
    /// Vocal detection config (PWVC tag from .2EX).
    pub vocal_config: Option<VocalConfig>,
}

/// The analysis of a track without an analysis path: nothing.
pub fn empty_analysis() -> (r: TrackAnalysis)
    ensures
        r.extended_cues is None,
        r.song_structure is None,
        r.waveform_color_preview is None,
        r.waveform_hd is None,
        r.waveform_3band_preview is None,
        r.waveform_3band_detail is None,
        r.vocal_config is None,
{
    TrackAnalysis {
        extended_cues: None,
        song_structure: None,
        waveform_color_preview: None,
        waveform_hd: None,
        waveform_3band_preview: None,
        waveform_3band_detail: None,
        vocal_config: None,
    }
}

/// The analysis of a track from its EXT file and, when rekordbox wrote one
/// (only rekordbox 7 does), its 2EX file.
pub fn track_analysis(ext: AnlzResponse, two_ex: Option<AnlzResponse>) -> (r: TrackAnalysis)
    ensures
        r.extended_cues == ext.ext.extended_cues,
        r.song_structure == ext.ext.song_structure,
        r.waveform_color_preview == ext.ext.waveform_color_preview,
        r.waveform_hd == ext.ext.waveform_hd,
        r.waveform_3band_preview == (match two_ex {
            Some(t) => t.two_ex.waveform_3band_preview,
            None => None,
        }),
        r.waveform_3band_detail == (match two_ex {
            Some(t) => t.two_ex.waveform_3band_detail,
            None => None,
        }),
        r.vocal_config == (match two_ex {
            Some(t) => t.two_ex.vocal_config,
            None => None,
        }),
{
    let (p, d, v) = match two_ex {
        Some(t) => (t.two_ex.waveform_3band_preview, t.two_ex.waveform_3band_detail, t.two_ex.vocal_config),
        None => (None, None, None),
    };
    TrackAnalysis {
        extended_cues: ext.ext.extended_cues,
        song_structure: ext.ext.song_structure,
        waveform_color_preview: ext.ext.waveform_color_preview,
        waveform_hd: ext.ext.waveform_hd,
        waveform_3band_preview: p,
        waveform_3band_detail: d,
        vocal_config: v,
    }
}

} // verus!
