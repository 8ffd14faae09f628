//! Types for audio metadata extraction.

use vstd::prelude::*;
use crate::error::Error;

verus! {

/// The bytes a read of `length` bytes at `offset` gives: those of the
/// file from `offset` on, fewer at the end of the file.
pub open spec fn window(content: Seq<u8>, offset: int, length: int) -> Seq<u8> {
    let start = if offset < content.len() { offset } else { content.len() as int };
    let end = if offset + length < content.len() { offset + length } else { content.len() as int };
    content.subrange(start, if end < start { start } else { end })
}

/// Interface for reading file data at arbitrary offsets. This allows
/// extracting metadata from remote files by reading only the necessary bytes.
pub trait FileReader {
    /// The bytes of the whole file.
    spec fn content(&self) -> Seq<u8>;

    /// The file extension (without dot).
    spec fn file_extension(&self) -> Seq<char>;

    /// True when every read succeeds (as for a file held in memory); a
    /// reader over a network may fail.
    spec fn reads_succeed(&self) -> bool;

    /// Total file size in bytes.
    fn size(&self) -> (r: u64)
        ensures
            r == self.content().len(),
    ;

    /// File extension (without dot), e.g. 'mp3', 'flac', 'm4a'.
    fn extension(&self) -> (r: &str)
        ensures
            r@ == self.file_extension(),
    ;

    /// Read bytes from the file at a given offset. May return fewer bytes
    /// than asked for at the end of the file.
    fn read(&self, offset: u64, length: u64) -> (r: Result<Vec<u8>, Error>)
        ensures
            r matches Ok(v) ==> v@ == window(self.content(), offset as int, length as int),
            self.reads_succeed() ==> r is Ok,
    ;
}

/// Standard picture types from ID3v2 / FLAC specs.
#[derive(Debug, Clone, Copy, PartialEq, Eq, Hash, Structural)]
pub enum PictureType {
    Other,
    FileIcon32x32,
    OtherFileIcon,
    FrontCover,
    BackCover,
    LeafletPage,
    Media,
    LeadArtist,
    Artist,
    Conductor,
    Band,
    Composer,
    Lyricist,
    RecordingLocation,
    DuringRecording,
    DuringPerformance,
    MovieScreenCapture,
    BrightColoredFish,
    Illustration,
    BandLogotype,
    PublisherLogotype,
    Unknown(u32),
}

/// The picture type a raw value stands for.
pub open spec fn picture_type_of(v: u32) -> PictureType {
    if v == 0 { PictureType::Other }
    else if v == 1 { PictureType::FileIcon32x32 }
    else if v == 2 { PictureType::OtherFileIcon }
    else if v == 3 { PictureType::FrontCover }
    else if v == 4 { PictureType::BackCover }
    else if v == 5 { PictureType::LeafletPage }
    else if v == 6 { PictureType::Media }
    else if v == 7 { PictureType::LeadArtist }
    else if v == 8 { PictureType::Artist }
    else if v == 9 { PictureType::Conductor }
    else if v == 10 { PictureType::Band }
    else if v == 11 { PictureType::Composer }
    else if v == 12 { PictureType::Lyricist }
    else if v == 13 { PictureType::RecordingLocation }
    else if v == 14 { PictureType::DuringRecording }
    else if v == 15 { PictureType::DuringPerformance }
    else if v == 16 { PictureType::MovieScreenCapture }
    else if v == 17 { PictureType::BrightColoredFish }
    else if v == 18 { PictureType::Illustration }
    else if v == 19 { PictureType::BandLogotype }
    else if v == 20 { PictureType::PublisherLogotype }
    else { PictureType::Unknown(v) }
}

impl PictureType {
    pub fn from_u32(v: u32) -> (r: PictureType)
        ensures
            r == picture_type_of(v),
    {
        match v {
            0 => PictureType::Other,
            1 => PictureType::FileIcon32x32,
            2 => PictureType::OtherFileIcon,
            3 => PictureType::FrontCover,
            4 => PictureType::BackCover,
            5 => PictureType::LeafletPage,
            6 => PictureType::Media,
            7 => PictureType::LeadArtist,
            8 => PictureType::Artist,
            9 => PictureType::Conductor,
            10 => PictureType::Band,
            11 => PictureType::Composer,
            12 => PictureType::Lyricist,
            13 => PictureType::RecordingLocation,
            14 => PictureType::DuringRecording,
            15 => PictureType::DuringPerformance,
            16 => PictureType::MovieScreenCapture,
            17 => PictureType::BrightColoredFish,
            18 => PictureType::Illustration,
            19 => PictureType::BandLogotype,
            20 => PictureType::PublisherLogotype,
            other => PictureType::Unknown(other),
        }
    }
}

/// MIME types supported for artwork.
#[derive(Debug, Clone, Copy, PartialEq, Eq, Hash, Structural)]
pub enum ArtworkMimeType {
    Jpeg,
    Png,
    Gif,
}

/// The MIME type text of an artwork type.
pub open spec fn mime_text(m: ArtworkMimeType) -> Seq<char> {
    match m {
        ArtworkMimeType::Jpeg => "image/jpeg"@,
        ArtworkMimeType::Png => "image/png"@,
        ArtworkMimeType::Gif => "image/gif"@,
    }
}

impl ArtworkMimeType {
    pub fn as_str(self) -> (r: &'static str)
        ensures
            r@ == mime_text(self),
    {
        match self {
            ArtworkMimeType::Jpeg => "image/jpeg",
            ArtworkMimeType::Png => "image/png",
            ArtworkMimeType::Gif => "image/gif",
        }
    }
}

/// A tempo tag as a file holds it, to be read as beats per minute.
#[derive(Debug, Clone, PartialEq, Eq)]
pub enum BpmTag {
    /// A text value (ID3 `TBPM`, Vorbis `BPM`) that holds a tempo, such as
    /// "128", "128.5" or "128 BPM"; a tag whose text holds none is not kept.
    Text(String),
    /// A whole number of beats per minute (MP4 `tmpo`).
    Whole(u16),
}

/// Extracted metadata from an audio file.
#[derive(Debug, Clone, PartialEq)]
pub struct ExtractedMetadata {
    /// Track title.
    pub title: Option<String>,
    /// Artist name.
    pub artist: Option<String>,
    /// Album name.
    pub album: Option<String>,
    /// Genre.
    pub genre: Option<String>,
    /// Record label / publisher.
    pub label: Option<String>,
    /// Release year.
    pub year: Option<u32>,
    /// The tempo tags, in file order: the first one that reads as a tempo
    /// gives the beats per minute.
    pub bpm_tags: Vec<BpmTag>,
    /// Musical key (e.g., "Am", "C#m", "5A").
    pub key: Option<String>,
    /// Artwork image data.
    pub artwork: Option<Vec<u8>>,
    /// MIME type of the artwork.
    pub artwork_mime_type: Option<ArtworkMimeType>,
}

/// A tempo tag, with its text as characters.
pub enum BpmTagV {
    Text(Seq<char>),
    Whole(u16),
}

impl View for BpmTag {
    type V = BpmTagV;

    open spec fn view(&self) -> BpmTagV {
        match *self {
            BpmTag::Text(s) => BpmTagV::Text(s@),
            BpmTag::Whole(n) => BpmTagV::Whole(n),
        }
    }
}

/// The metadata of a file, with its texts as characters.
pub struct MetadataV {
    pub title: Option<Seq<char>>,
    pub artist: Option<Seq<char>>,
    pub album: Option<Seq<char>>,
    pub genre: Option<Seq<char>>,
    pub label: Option<Seq<char>>,
    pub year: Option<u32>,
    pub bpm_tags: Seq<BpmTagV>,
    pub key: Option<Seq<char>>,
    pub artwork: Option<Seq<u8>>,
    pub artwork_mime_type: Option<ArtworkMimeType>,
}

/// The characters of an optional text.
pub open spec fn opt_chars(o: Option<String>) -> Option<Seq<char>> {
    match o {
        Some(s) => Some(s@),
        None => None,
    }
}

/// The bytes of an optional buffer.
pub open spec fn opt_bytes(o: Option<Vec<u8>>) -> Option<Seq<u8>> {
    match o {
        Some(v) => Some(v@),
        None => None,
    }
}

impl View for ExtractedMetadata {
    type V = MetadataV;

    open spec fn view(&self) -> MetadataV {
        MetadataV {
            title: opt_chars(self.title),
            artist: opt_chars(self.artist),
            album: opt_chars(self.album),
            genre: opt_chars(self.genre),
            label: opt_chars(self.label),
            year: self.year,
            bpm_tags: self.bpm_tags@.map_values(|t: BpmTag| t@),
            key: opt_chars(self.key),
            artwork: opt_bytes(self.artwork),
            artwork_mime_type: self.artwork_mime_type,
        }
    }
}

/// Nothing found.
pub open spec fn empty_metadata() -> MetadataV {
    MetadataV {
        title: None,
        artist: None,
        album: None,
        genre: None,
        label: None,
        year: None,
        bpm_tags: Seq::empty(),
        key: None,
        artwork: None,
        artwork_mime_type: None,
    }
}

/// True when no field was found.
pub open spec fn view_empty(m: MetadataV) -> bool {
    &&& m.title is None
    &&& m.artist is None
    &&& m.album is None
    &&& m.genre is None
    &&& m.label is None
    &&& m.year is None
    &&& m.bpm_tags.len() == 0
    &&& m.key is None
    &&& m.artwork is None
}

/// True when no field was found.
pub open spec fn metadata_empty(m: ExtractedMetadata) -> bool {
    &&& m.title is None
    &&& m.artist is None
    &&& m.album is None
    &&& m.genre is None
    &&& m.label is None
    &&& m.year is None
    &&& m.bpm_tags@.len() == 0
    &&& m.key is None
    &&& m.artwork is None
}

impl ExtractedMetadata {
    /// Nothing found yet.
    pub fn new() -> (r: ExtractedMetadata)
        ensures
            r@ == empty_metadata(),
    {
        let r = ExtractedMetadata {
            title: None,
            artist: None,
            album: None,
            genre: None,
            label: None,
            year: None,
            bpm_tags: Vec::new(),
            key: None,
            artwork: None,
            artwork_mime_type: None,
        };
        assert(r@.bpm_tags =~= Seq::<BpmTagV>::empty());
        r
    }

    /// True when no field was found.
    pub fn is_empty(&self) -> (r: bool)
        ensures
            r == metadata_empty(*self),
            r == view_empty(self@),
    {
        self.title.is_none() && self.artist.is_none() && self.album.is_none() && self.genre.is_none()
            && self.label.is_none() && self.year.is_none() && self.bpm_tags.len() == 0 && self.key.is_none()
            && self.artwork.is_none()
    }
}

/// An artwork parse result shared by the parsers.
#[derive(Debug, Clone, PartialEq, Eq)]
pub struct ArtworkResult {
    pub data: Vec<u8>,
    pub mime_type: ArtworkMimeType,
    pub picture_type: PictureType,
    pub width: Option<u32>,
    pub height: Option<u32>,
}

} // verus!
