//! Entities: what is stored in the rekordbox database, plus the cue data
//! attached to a track.

use vstd::prelude::*;
use crate::types::BeatGrid;

verus! {

#[derive(Debug, Clone, PartialEq, Eq)]
pub struct Artwork {
    pub id: u32,
    pub path: Option<String>,
}

#[derive(Debug, Clone, PartialEq, Eq)]
pub struct Key {
    pub id: u32,
    pub name: String,
}

#[derive(Debug, Clone, PartialEq, Eq)]
pub struct Label {
    pub id: u32,
    pub name: String,
}

#[derive(Debug, Clone, PartialEq, Eq)]
pub struct Color {
    pub id: u32,
    pub name: String,
}

#[derive(Debug, Clone, PartialEq, Eq)]
pub struct Genre {
    pub id: u32,
    pub name: String,
}

#[derive(Debug, Clone, PartialEq, Eq)]
pub struct Album {
    pub id: u32,
    pub name: String,
}

#[derive(Debug, Clone, PartialEq, Eq)]
pub struct Artist {
    pub id: u32,
    pub name: String,
}

#[derive(Debug, Clone, PartialEq, Eq)]
pub struct Playlist {
    pub id: u32,
    pub name: String,
    pub is_folder: bool,
    pub parent_id: Option<u32>,
}

/// A track's position in a playlist, by foreign keys.
#[derive(Debug, Clone, Copy, PartialEq, Eq, Structural)]
pub struct PlaylistEntry {
    pub id: u32,
    pub sort_index: u32,
    pub playlist_id: u32,
    pub track_id: u32,
}

/// Represents a track with both database fields and analysis data.
///
/// Relations are resolved. The analysis fields `beat_grid`, `cue_and_loops`
/// and `waveform_hd` are filled from the .DAT/.EXT analysis files.
#[derive(Debug, Clone, PartialEq)]
pub struct Track {
    pub id: u32,
    pub title: String,
    /// Milliseconds.
    pub duration: u32,
    pub bitrate: Option<u32>,
    /// Beats per minute, multiplied by 100.
    pub tempo: u32,
    pub rating: u32,
    pub comment: String,
    pub file_path: String,
    pub file_name: String,
    pub track_number: Option<u32>,
    pub disc_number: Option<u32>,
    pub sample_rate: Option<u32>,
    pub sample_depth: Option<u32>,
    pub play_count: Option<u32>,
    pub year: Option<u32>,
    pub mix_name: Option<String>,
    pub autoload_hotcues: Option<bool>,
    pub kuvo_public: Option<bool>,
    pub file_size: Option<u64>,
    /// The analysis file path with its extension trimmed off; loading
    /// appends `.DAT` / `.EXT` / `.2EX`.
    pub analyze_path: Option<String>,
    pub release_date: Option<String>,
    /// The date of the analysis as the database writes it (`YYYY-MM-DD`).
    pub analyze_date: Option<String>,
    /// The date the track was added as the database writes it (`YYYY-MM-DD`).
    pub date_added: Option<String>,
    /// Embedded cue and loop information from the database.
    pub cue_and_loops: Option<Vec<CueAndLoop>>,
    pub artwork: Option<Artwork>,
    pub artist: Option<Artist>,
    pub original_artist: Option<Artist>,
    pub remixer: Option<Artist>,
    pub composer: Option<Artist>,
    pub album: Option<Album>,
    pub label: Option<Label>,
    pub genre: Option<Genre>,
    pub color: Option<Color>,
    pub key: Option<Key>,
    /// Embedded beat grid information (from analysis files).
    pub beat_grid: Option<BeatGrid>,
    /// Embedded HD waveform (from analysis files): the raw two-byte entries.
    pub waveform_hd: Option<Vec<u8>>,
}

/// Values that can be copied field by field into an equal value.
pub trait Duplicate: Sized {
    fn duplicate(&self) -> (r: Self)
        ensures
            r == *self,
    ;
}

impl Duplicate for Artwork {
    fn duplicate(&self) -> (r: Self) {
        Artwork {
            id: self.id,
            path: match &self.path {
                Some(p) => Some(p.clone()),
                None => None,
            },
        }
    }
}

impl Duplicate for Key {
    fn duplicate(&self) -> (r: Self) {
        Key { id: self.id, name: self.name.clone() }
    }
}

impl Duplicate for Label {
    fn duplicate(&self) -> (r: Self) {
        Label { id: self.id, name: self.name.clone() }
    }
}

impl Duplicate for Color {
    fn duplicate(&self) -> (r: Self) {
        Color { id: self.id, name: self.name.clone() }
    }
}

impl Duplicate for Genre {
    fn duplicate(&self) -> (r: Self) {
        Genre { id: self.id, name: self.name.clone() }
    }
}

impl Duplicate for Album {
    fn duplicate(&self) -> (r: Self) {
        Album { id: self.id, name: self.name.clone() }
    }
}

impl Duplicate for Artist {
    fn duplicate(&self) -> (r: Self) {
        Artist { id: self.id, name: self.name.clone() }
    }
}

impl Duplicate for Playlist {
    fn duplicate(&self) -> (r: Self) {
        Playlist { id: self.id, name: self.name.clone(), is_folder: self.is_folder, parent_id: self.parent_id }
    }
}

/// A hotcue button label.
#[derive(Debug, Clone, Copy, PartialEq, Eq, Hash, Structural)]
pub enum HotcueButton {
    A,
    B,
    C,
    D,
    E,
    F,
    G,
    H,
}

/// The number of a hotcue button, 1 (A) to 8 (H).
pub open spec fn button_number(b: HotcueButton) -> u8 {
    match b {
        HotcueButton::A => 1,
        HotcueButton::B => 2,
        HotcueButton::C => 3,
        HotcueButton::D => 4,
        HotcueButton::E => 5,
        HotcueButton::F => 6,
        HotcueButton::G => 7,
        HotcueButton::H => 8,
    }
}

/// The button a 1-8 value names, `None` for anything else.
pub open spec fn button_of(v: u8) -> Option<HotcueButton> {
    if v == 1 {
        Some(HotcueButton::A)
    } else if v == 2 {
        Some(HotcueButton::B)
    } else if v == 3 {
        Some(HotcueButton::C)
    } else if v == 4 {
        Some(HotcueButton::D)
    } else if v == 5 {
        Some(HotcueButton::E)
    } else if v == 6 {
        Some(HotcueButton::F)
    } else if v == 7 {
        Some(HotcueButton::G)
    } else if v == 8 {
        Some(HotcueButton::H)
    } else {
        None
    }
}

impl HotcueButton {
    /// The button for a 1-8 value, `None` for anything else (including 0,
    /// which means "not a hot cue").
    pub fn from_u8(v: u8) -> (r: Option<HotcueButton>)
        ensures
            r == button_of(v),
    {
        match v {
            1 => Some(HotcueButton::A),
            2 => Some(HotcueButton::B),
            3 => Some(HotcueButton::C),
            4 => Some(HotcueButton::D),
            5 => Some(HotcueButton::E),
            6 => Some(HotcueButton::F),
            7 => Some(HotcueButton::G),
            8 => Some(HotcueButton::H),
            _ => None,
        }
    }

    /// The button's number, 1 (A) to 8 (H).
    pub fn as_u8(self) -> (r: u8)
        ensures
            r == button_number(self),
    {
        match self {
            HotcueButton::A => 1,
            HotcueButton::B => 2,
            HotcueButton::C => 3,
            HotcueButton::D => 4,
            HotcueButton::E => 5,
            HotcueButton::F => 6,
            HotcueButton::G => 7,
            HotcueButton::H => 8,
        }
    }
}

/// A button's number names that button again, and a value names a button
/// exactly when it is 1 to 8, which is that button's number.
pub proof fn law_hotcue_button_round_trip(b: HotcueButton, v: u8)
    ensures
        button_of(button_number(b)) == Some(b),
        button_of(v) is Some <==> 1 <= v <= 8,
        button_of(v) matches Some(c) ==> button_number(c) == v,
{
}

/// When a custom color is not configured the cue point will be one of these
/// colors.
#[derive(Debug, Clone, Copy, PartialEq, Eq, Hash, Structural)]
pub enum CueColor {
    /// No colour (raw value 0).
    NoColor,
    Blank,
    Magenta,
    Violet,
    Fuchsia,
    LightSlateBlue,
    Blue,
    SteelBlue,
    Aqua,
    SeaGreen,
    Teal,
    Green,
    Lime,
    Olive,
    Yellow,
    Orange,
    Red,
    Pink,
    Other(u8),
}

/// The colour a raw value stands for.
pub open spec fn cue_color_of(v: u8) -> CueColor {
    if v == 0x00 {
        CueColor::NoColor
    } else if v == 0x15 {
        CueColor::Blank
    } else if v == 0x31 {
        CueColor::Magenta
    } else if v == 0x38 {
        CueColor::Violet
    } else if v == 0x3c {
        CueColor::Fuchsia
    } else if v == 0x3e {
        CueColor::LightSlateBlue
    } else if v == 0x01 {
        CueColor::Blue
    } else if v == 0x05 {
        CueColor::SteelBlue
    } else if v == 0x09 {
        CueColor::Aqua
    } else if v == 0x0e {
        CueColor::SeaGreen
    } else if v == 0x12 {
        CueColor::Teal
    } else if v == 0x16 {
        CueColor::Green
    } else if v == 0x1a {
        CueColor::Lime
    } else if v == 0x1e {
        CueColor::Olive
    } else if v == 0x20 {
        CueColor::Yellow
    } else if v == 0x26 {
        CueColor::Orange
    } else if v == 0x2a {
        CueColor::Red
    } else if v == 0x2d {
        CueColor::Pink
    } else {
        CueColor::Other(v)
    }
}

/// The raw value of a colour.
pub open spec fn cue_color_value(c: CueColor) -> u8 {
    match c {
        CueColor::NoColor => 0x00,
        CueColor::Blank => 0x15,
        CueColor::Magenta => 0x31,
        CueColor::Violet => 0x38,
        CueColor::Fuchsia => 0x3c,
        CueColor::LightSlateBlue => 0x3e,
        CueColor::Blue => 0x01,
        CueColor::SteelBlue => 0x05,
        CueColor::Aqua => 0x09,
        CueColor::SeaGreen => 0x0e,
        CueColor::Teal => 0x12,
        CueColor::Green => 0x16,
        CueColor::Lime => 0x1a,
        CueColor::Olive => 0x1e,
        CueColor::Yellow => 0x20,
        CueColor::Orange => 0x26,
        CueColor::Red => 0x2a,
        CueColor::Pink => 0x2d,
        CueColor::Other(v) => v,
    }
}

impl CueColor {
    /// The colour for a raw value.
    pub fn from_u8(v: u8) -> (r: CueColor)
        ensures
            r == cue_color_of(v),
    {
        match v {
            0x00 => CueColor::NoColor,
            0x15 => CueColor::Blank,
            0x31 => CueColor::Magenta,
            0x38 => CueColor::Violet,
            0x3c => CueColor::Fuchsia,
            0x3e => CueColor::LightSlateBlue,
            0x01 => CueColor::Blue,
            0x05 => CueColor::SteelBlue,
            0x09 => CueColor::Aqua,
            0x0e => CueColor::SeaGreen,
            0x12 => CueColor::Teal,
            0x16 => CueColor::Green,
            0x1a => CueColor::Lime,
            0x1e => CueColor::Olive,
            0x20 => CueColor::Yellow,
            0x26 => CueColor::Orange,
            0x2a => CueColor::Red,
            0x2d => CueColor::Pink,
            other => CueColor::Other(other),
        }
    }

    /// The raw value of the colour.
    pub fn as_u8(self) -> (r: u8)
        ensures
            r == cue_color_value(self),
    {
        match self {
            CueColor::NoColor => 0x00,
            CueColor::Blank => 0x15,
            CueColor::Magenta => 0x31,
            CueColor::Violet => 0x38,
            CueColor::Fuchsia => 0x3c,
            CueColor::LightSlateBlue => 0x3e,
            CueColor::Blue => 0x01,
            CueColor::SteelBlue => 0x05,
            CueColor::Aqua => 0x09,
            CueColor::SeaGreen => 0x0e,
            CueColor::Teal => 0x12,
            CueColor::Green => 0x16,
            CueColor::Lime => 0x1a,
            CueColor::Olive => 0x1e,
            CueColor::Yellow => 0x20,
            CueColor::Orange => 0x26,
            CueColor::Red => 0x2a,
            CueColor::Pink => 0x2d,
            CueColor::Other(v) => v,
        }
    }
}

/// Reading a raw colour value and writing it back gives the same value; a
/// named colour read back from its value is that colour.
pub proof fn law_cue_color_round_trip(v: u8, c: CueColor)
    ensures
        cue_color_value(cue_color_of(v)) == v,
        !(c is Other) ==> cue_color_of(cue_color_value(c)) == c,
{
}

/// A cue point, loop, hot cue or hot loop. Offsets and lengths are in
/// milliseconds. On older exports the label and color are `None`.
#[derive(Debug, Clone, PartialEq)]
pub enum CueAndLoop {
    /// A single cue point.
    CuePoint { offset: u32, label: Option<String>, color: Option<CueColor> },
    /// A loop, similar to a cue point, but includes a length.
    Loop { offset: u32, length: i64, label: Option<String>, color: Option<CueColor> },
    /// A hotcue is like a cue point, but also includes the button it is
    /// assigned to.
    HotCue { offset: u32, button: HotcueButton, label: Option<String>, color: Option<CueColor> },
    /// A hot loop, the union of a hotcue and a loop.
    HotLoop { offset: u32, length: i64, button: HotcueButton, label: Option<String>, color: Option<CueColor> },
}

/// The offset of any kind of entry.
pub open spec fn cue_offset(c: CueAndLoop) -> u32 {
    match c {
        CueAndLoop::CuePoint { offset, .. } => offset,
        CueAndLoop::Loop { offset, .. } => offset,
        CueAndLoop::HotCue { offset, .. } => offset,
        CueAndLoop::HotLoop { offset, .. } => offset,
    }
}

/// The colour of any kind of entry.
pub open spec fn cue_color_field(c: CueAndLoop) -> Option<CueColor> {
    match c {
        CueAndLoop::CuePoint { color, .. } => color,
        CueAndLoop::Loop { color, .. } => color,
        CueAndLoop::HotCue { color, .. } => color,
        CueAndLoop::HotLoop { color, .. } => color,
    }
}

/// The label of any kind of entry.
pub open spec fn cue_label_field(c: CueAndLoop) -> Option<String> {
    match c {
        CueAndLoop::CuePoint { label, .. } => label,
        CueAndLoop::Loop { label, .. } => label,
        CueAndLoop::HotCue { label, .. } => label,
        CueAndLoop::HotLoop { label, .. } => label,
    }
}

/// The length of the two loop kinds; `None` for the others.
pub open spec fn cue_length_field(c: CueAndLoop) -> Option<i64> {
    match c {
        CueAndLoop::Loop { length, .. } => Some(length),
        CueAndLoop::HotLoop { length, .. } => Some(length),
        _ => None,
    }
}

/// The button of the two hot kinds; `None` for the others.
pub open spec fn cue_button_field(c: CueAndLoop) -> Option<HotcueButton> {
    match c {
        CueAndLoop::HotCue { button, .. } => Some(button),
        CueAndLoop::HotLoop { button, .. } => Some(button),
        _ => None,
    }
}

impl CueAndLoop {
    /// Milliseconds from the start of the track.
    pub fn offset(&self) -> (r: u32)
        ensures
            r == cue_offset(*self),
    {
        match self {
            CueAndLoop::CuePoint { offset, .. } => *offset,
            CueAndLoop::Loop { offset, .. } => *offset,
            CueAndLoop::HotCue { offset, .. } => *offset,
            CueAndLoop::HotLoop { offset, .. } => *offset,
        }
    }

    /// Loop length in milliseconds, for the two loop kinds.
    pub fn length(&self) -> (r: Option<i64>)
        ensures
            r == match *self {
                CueAndLoop::Loop { length, .. } => Some(length),
                CueAndLoop::HotLoop { length, .. } => Some(length),
                _ => None,
            },
    {
        match self {
            CueAndLoop::Loop { length, .. } => Some(*length),
            CueAndLoop::HotLoop { length, .. } => Some(*length),
            _ => None,
        }
    }

    /// The hot cue button, for the two hot kinds.
    pub fn button(&self) -> (r: Option<HotcueButton>)
        ensures
            r == match *self {
                CueAndLoop::HotCue { button, .. } => Some(button),
                CueAndLoop::HotLoop { button, .. } => Some(button),
                _ => None,
            },
    {
        match self {
            CueAndLoop::HotCue { button, .. } => Some(*button),
            CueAndLoop::HotLoop { button, .. } => Some(*button),
            _ => None,
        }
    }

    /// The label of any kind of entry.
    pub fn label(&self) -> (r: Option<&str>)
        ensures
            r is Some == match *self {
                CueAndLoop::CuePoint { label, .. } => label is Some,
                CueAndLoop::Loop { label, .. } => label is Some,
                CueAndLoop::HotCue { label, .. } => label is Some,
                CueAndLoop::HotLoop { label, .. } => label is Some,
            },
            r matches Some(s) ==> s@ == match *self {
                CueAndLoop::CuePoint { label, .. } => label.unwrap()@,
                CueAndLoop::Loop { label, .. } => label.unwrap()@,
                CueAndLoop::HotCue { label, .. } => label.unwrap()@,
                CueAndLoop::HotLoop { label, .. } => label.unwrap()@,
            },
    {
        let l = match self {
            CueAndLoop::CuePoint { label, .. } => label,
            CueAndLoop::Loop { label, .. } => label,
            CueAndLoop::HotCue { label, .. } => label,
            CueAndLoop::HotLoop { label, .. } => label,
        };
        match l {
            Some(s) => Some(s.as_str()),
            None => None,
        }
    }

    /// The colour of any kind of entry.
    pub fn color(&self) -> (r: Option<CueColor>)
        ensures
            r == match *self {
                CueAndLoop::CuePoint { color, .. } => color,
                CueAndLoop::Loop { color, .. } => color,
                CueAndLoop::HotCue { color, .. } => color,
                CueAndLoop::HotLoop { color, .. } => color,
            },
    {
        match self {
            CueAndLoop::CuePoint { color, .. } => *color,
            CueAndLoop::Loop { color, .. } => *color,
            CueAndLoop::HotCue { color, .. } => *color,
            CueAndLoop::HotLoop { color, .. } => *color,
        }
    }

    /// Attach a label and colour to any kind of entry.
    pub fn with_label_color(self, label: Option<String>, color: Option<CueColor>) -> (r: CueAndLoop)
        ensures
            r == match self {
                CueAndLoop::CuePoint { offset, .. } => CueAndLoop::CuePoint { offset, label, color },
                CueAndLoop::Loop { offset, length, .. } => CueAndLoop::Loop { offset, length, label, color },
                CueAndLoop::HotCue { offset, button, .. } => CueAndLoop::HotCue { offset, button, label, color },
                CueAndLoop::HotLoop { offset, length, button, .. } => CueAndLoop::HotLoop { offset, length, button, label, color },
            },
    {
        match self {
            CueAndLoop::CuePoint { offset, .. } => CueAndLoop::CuePoint { offset, label, color },
            CueAndLoop::Loop { offset, length, .. } => CueAndLoop::Loop { offset, length, label, color },
            CueAndLoop::HotCue { offset, button, .. } => CueAndLoop::HotCue { offset, button, label, color },
            CueAndLoop::HotLoop { offset, length, button, .. } => CueAndLoop::HotLoop { offset, length, button, label, color },
        }
    }
}

/// User-created tag (MyTag).
#[derive(Debug, Clone, PartialEq, Eq)]
pub struct MyTag {
    pub id: u32,
    pub name: String,
    pub is_folder: bool,
    pub parent_id: Option<u32>,
}

/// History session.
#[derive(Debug, Clone, PartialEq, Eq)]
pub struct HistorySession {
    pub id: u32,
    pub name: String,
    pub parent_id: Option<u32>,
}

/// Hot cue bank list.
#[derive(Debug, Clone, PartialEq, Eq)]
pub struct HotCueBankList {
    pub id: u32,
    pub name: String,
    pub parent_id: Option<u32>,
}

/// Menu item for browsing.
#[derive(Debug, Clone, PartialEq, Eq)]
pub struct MenuItem {
    pub id: u32,
    pub kind: u32,
    pub name: String,
}

/// Browse category.
#[derive(Debug, Clone, PartialEq, Eq)]
pub struct Category {
    pub id: u32,
    pub menu_item_id: u32,
    pub name: String,
    pub kind: u32,
    pub is_visible: bool,
}

/// Sort option.
#[derive(Debug, Clone, PartialEq, Eq)]
pub struct SortOption {
    pub id: u32,
    pub menu_item_id: u32,
    pub name: String,
    pub kind: u32,
    pub is_visible: bool,
    pub is_selected_as_sub_column: bool,
}

/// Device property.
#[derive(Debug, Clone, PartialEq, Eq)]
pub struct DeviceProperty {
    pub device_name: String,
    pub db_version: String,
    pub number_of_contents: u32,
    pub created_date: String,
    pub background_color_type: u32,
}

} // verus!
