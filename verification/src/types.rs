//! Shared data types: devices, play states, and the analysis data attached
//! to a track.

use vstd::prelude::*;
use crate::entities::Playlist;

verus! {

/// The kind of a device on the network.
#[derive(Debug, Clone, Copy, PartialEq, Eq, Hash, Structural)]
pub enum DeviceType {
    Cdj,
    Mixer,
    Rekordbox,
    Stagehand,
    /// A type byte with no known kind, kept as sent.
    Unknown(u8),
}

/// The kind a device announces with its type byte.
pub open spec fn device_type_of(v: u8) -> DeviceType {
    if v == 1 {
        DeviceType::Cdj
    } else if v == 2 {
        DeviceType::Mixer
    } else if v == 3 {
        DeviceType::Rekordbox
    } else {
        DeviceType::Unknown(v)
    }
}

impl DeviceType {
    pub fn from_u8(v: u8) -> (r: DeviceType)
        ensures
            r == device_type_of(v),
    {
        if v == 1 {
            DeviceType::Cdj
        } else if v == 2 {
            DeviceType::Mixer
        } else if v == 3 {
            DeviceType::Rekordbox
        } else {
            DeviceType::Unknown(v)
        }
    }
}

/// A device on the PRO DJ LINK network.
#[derive(Debug, Clone, PartialEq, Eq)]
pub struct Device {
    /// The name the device announces itself with.
    pub name: String,
    /// The device (player) number.
    pub id: u8,
    pub device_type: DeviceType,
    pub mac_addr: [u8; 6],
    /// The IPv4 address, most significant byte first.
    pub ip: [u8; 4],
}

impl Device {
    pub fn new(name: String, id: u8, device_type: DeviceType, mac_addr: [u8; 6], ip: [u8; 4]) -> (r: Device)
        ensures
            r.name@ == name@,
            r.id == id,
            r.device_type == device_type,
            r.mac_addr@ == mac_addr@,
            r.ip@ == ip@,
    {
        Device { name, id, device_type, mac_addr, ip }
    }
}

/// The play state a player reports.
#[derive(Debug, Clone, Copy, PartialEq, Eq, Hash, Structural)]
pub enum PlayState {
    Empty,
    Loading,
    Playing,
    Looping,
    Paused,
    Cued,
    Cuing,
    PlatterHeld,
    Searching,
    SpunDown,
    Ended,
}

/// A beat of a beat grid.
#[derive(Debug, Clone, Copy, PartialEq, Eq, Structural)]
pub struct Beat {
    /// The time of the beat, in milliseconds from the start of the track.
    pub offset: u32,
    /// The tempo at the beat, in beats per minute multiplied by 100.
    pub tempo: u16,
    /// The position of the beat in its bar (1 is the down beat).
    pub count: u8,
}

/// A track's beat grid.
pub type BeatGrid = Vec<Beat>;

#[derive(Debug, Clone, Copy, PartialEq, Eq, Structural)]
pub struct Rgb {
    pub r: u8,
    pub g: u8,
    pub b: u8,
}

/// An extended cue (PCO2) with colour and comment.
#[derive(Debug, Clone, PartialEq, Eq)]
pub struct ExtendedCue {
    pub hot_cue: u32,
    pub cue_type: u8,
    pub time: u32,
    pub loop_time: Option<u32>,
    pub color_id: Option<u8>,
    pub color_code: Option<u8>,
    pub color_rgb: Option<Rgb>,
    pub comment: Option<String>,
    pub loop_numerator: Option<u16>,
    pub loop_denominator: Option<u16>,
}

/// The mood of a song structure, which names its phrases.
#[derive(Debug, Clone, Copy, PartialEq, Eq, Hash, Structural)]
pub enum Mood {
    High,
    Mid,
    Low,
}

/// The lighting bank of a song structure.
#[derive(Debug, Clone, Copy, PartialEq, Eq, Hash, Structural)]
pub enum Bank {
    Default,
    Cool,
    Natural,
    Hot,
    Subtle,
    Warm,
    Vivid,
    Club1,
    Club2,
}

/// A phrase of a song structure.
#[derive(Debug, Clone, PartialEq, Eq)]
pub struct Phrase {
    pub index: u16,
    pub beat: u16,
    pub kind: u16,
    pub phrase_type: String,
    pub fill: Option<u8>,
    pub fill_beat: Option<u16>,
}

/// A track's song structure (phrase analysis).
#[derive(Debug, Clone, PartialEq, Eq)]
pub struct SongStructure {
    pub mood: Mood,
    pub bank: Bank,
    pub end_beat: u16,
    pub phrases: Vec<Phrase>,
}

/// The vocal detection thresholds (PWVC).
#[derive(Debug, Clone, Copy, PartialEq, Eq, Structural)]
pub struct VocalConfig {
    pub threshold_low: u16,
    pub threshold_mid: u16,
    pub threshold_high: u16,
}

/// A monochrome waveform preview (PWAV / PWV2).
#[derive(Debug, Clone, PartialEq, Eq)]
pub struct WaveformPreviewData {
    pub data: Vec<u8>,
}

/// A 3-band colour waveform preview (PWV6).
#[derive(Debug, Clone, PartialEq, Eq)]
pub struct Waveform3BandPreview {
    pub num_entries: u32,
    pub data: Vec<u8>,
}

/// A 3-band colour detail waveform (PWV7).
#[derive(Debug, Clone, PartialEq, Eq)]
pub struct Waveform3BandDetail {
    pub num_entries: u32,
    pub data: Vec<u8>,
}

/// The contents of a playlist: sub-folders, sub-playlists and the tracks.
#[derive(Debug, Clone, PartialEq, Eq)]
pub struct PlaylistContents {
    pub folders: Vec<Playlist>,
    pub playlists: Vec<Playlist>,
    pub total_tracks: usize,
    pub track_ids: Vec<u32>,
}

/// A media slot of a player.
#[derive(Debug, Clone, Copy, PartialEq, Eq, Hash, Structural)]
pub enum MediaSlot {
    Empty,
    Cd,
    Sd,
    Usb,
    Rb,
}

/// The number a slot goes by on the wire.
pub open spec fn slot_number(s: MediaSlot) -> u8 {
    match s {
        MediaSlot::Empty => 0,
        MediaSlot::Cd => 1,
        MediaSlot::Sd => 2,
        MediaSlot::Usb => 3,
        MediaSlot::Rb => 4,
    }
}

impl MediaSlot {
    /// The slots that hold a rekordbox database: USB and SD.
    pub fn is_database_slot(self) -> (r: bool)
        ensures
            r == (self == MediaSlot::Usb || self == MediaSlot::Sd),
    {
        match self {
            MediaSlot::Usb | MediaSlot::Sd => true,
            _ => false,
        }
    }

    pub fn as_u8(self) -> (r: u8)
        ensures
            r == slot_number(self),
    {
        match self {
            MediaSlot::Empty => 0,
            MediaSlot::Cd => 1,
            MediaSlot::Sd => 2,
            MediaSlot::Usb => 3,
            MediaSlot::Rb => 4,
        }
    }
}

/// The colour given to a medium.
#[derive(Debug, Clone, Copy, PartialEq, Eq, Hash, Structural)]
pub enum MediaColor {
    Default,
    Pink,
    Red,
    Orange,
    Yellow,
    Green,
    Aqua,
    Blue,
    Purple,
}

/// The kind of tracks a medium holds.
#[derive(Debug, Clone, Copy, PartialEq, Eq, Hash, Structural)]
pub enum TrackType {
    Rb,
    Unanalyzed,
    AudioCd,
    Streaming,
}

/// What a player reports of the medium in one of its slots.
#[derive(Debug, Clone, PartialEq, Eq)]
pub struct MediaSlotInfo {
    pub device_id: u8,
    pub slot: MediaSlot,
    pub name: String,
    pub color: MediaColor,
    /// The creation date in RFC 3339 form, where the medium reports one.
    pub created_date: Option<String>,
    pub free_bytes: u64,
    pub total_bytes: u64,
    pub tracks_type: TrackType,
    pub track_count: u32,
    pub playlist_count: u32,
    pub has_settings: bool,
}

/// How far a file download has come.
#[derive(Debug, Clone, Copy, PartialEq, Eq, Structural)]
pub struct FetchProgress {
    pub read: u64,
    pub total: u64,
}

} // verus!
