//! Translate pdb rows into entities.

use vstd::prelude::*;
use vstd::string::StringSliceAdditionalSpecFns;
use vstd::utf8::{encode_utf8, is_char_boundary};
use crate::entities::{Album, Artist, Artwork, Color, Genre, Key, Label, Playlist, PlaylistEntry, Track};
use crate::localdb::orm::TrackWithFks;
use crate::localdb::rekordbox::pdb::{ArtworkRow, IdNameRow, PlaylistEntryRow, PlaylistTreeRow, TrackRow};
use crate::text::str_eq;

verus! {

/// `None` for the zero id, which marks a missing relation.
pub open spec fn nonzero_id(v: u32) -> Option<u32> {
    if v == 0 { None } else { Some(v) }
}

fn nonzero(v: u32) -> (r: Option<u32>)
    ensures
        r == nonzero_id(v),
{
    if v == 0 {
        None
    } else {
        Some(v)
    }
}

/// Where the analysis path is cut: four bytes (the `.DAT` extension)
/// before its end, or at its start when it is shorter.
pub open spec fn extension_cut(p: Seq<char>) -> int {
    if encode_utf8(p).len() >= 4 { encode_utf8(p).len() - 4 } else { 0 }
}

/// True when the analysis path can be cut there: the cut falls on a
/// character boundary.
pub open spec fn analyze_path_cuttable(p: Seq<char>) -> bool {
    is_char_boundary(encode_utf8(p), extension_cut(p))
}

/// True when the analysis path of the track row can be cut.
pub fn analyze_path_can_be_cut(row: &TrackRow) -> (r: bool)
    ensures
        r == analyze_path_cuttable(row.analyze_path@),
{
    let s = row.analyze_path.as_str();
    let n = s.as_bytes().len();
    let cut: usize = if n >= 4 { n - 4 } else { 0 };
    assert(s.spec_bytes() == encode_utf8(row.analyze_path@));
    s.is_char_boundary(cut)
}

/// A date column: `None` where the database has none.
pub open spec fn date_text(s: Seq<char>) -> Option<Seq<char>> {
    if s.len() == 0 { None } else { Some(s) }
}

fn date_of(s: &String) -> (r: Option<String>)
    ensures
        r matches Some(t) ==> t@ == s@,
        r is Some <==> date_text(s@) is Some,
{
    if s.as_str().is_empty() {
        None
    } else {
        Some(s.clone())
    }
}

/// The analysis path with its extension trimmed off; `None` when empty.
fn trimmed_analyze_path(path: &String) -> (r: Option<String>)
    requires
        analyze_path_cuttable(path@),
    ensures
        r is Some <==> path@.len() > 0,
        r matches Some(s) ==> encode_utf8(s@) == encode_utf8(path@).subrange(0, extension_cut(path@)),
{
    let s = path.as_str();
    if s.is_empty() {
        return None;
    }
    let n = s.as_bytes().len();
    let cut: usize = if n >= 4 { n - 4 } else { 0 };
    assert(s.spec_bytes() == encode_utf8(path@));
    let (head, _tail) = s.split_at(cut);
    let r = head.to_owned();
    assert(encode_utf8(r@) == head.spec_bytes());
    Some(r)
}

/// What [`create_track`] makes of a track row: the row's columns, the
/// analysis path with its extension trimmed off, no relations resolved yet,
/// and the foreign keys with zero read as missing.
pub open spec fn track_created(row: TrackRow, t: TrackWithFks) -> bool {
    &&& t.track.id == row.id
    &&& t.track.title == row.title
    &&& t.track.track_number == Some(row.track_number)
    &&& t.track.disc_number == Some(row.disc_number as u32)
    &&& t.track.duration == row.duration as u32 * 1000
    &&& t.track.sample_rate == Some(row.sample_rate)
    &&& t.track.sample_depth == Some(row.sample_depth as u32)
    &&& t.track.bitrate == Some(row.bitrate)
    &&& t.track.tempo == row.tempo
    &&& t.track.play_count == Some(row.play_count as u32)
    &&& t.track.year == Some(row.year as u32)
    &&& t.track.rating == row.rating as u32
    &&& t.track.mix_name == Some(row.mix_name)
    &&& t.track.comment == row.comment
    &&& t.track.autoload_hotcues == Some(row.autoload_hotcues@ == "ON"@)
    &&& t.track.kuvo_public == Some(row.kuvo_public@ == "ON"@)
    &&& t.track.file_path == row.file_path
    &&& t.track.file_name == row.filename
    &&& t.track.file_size == Some(row.file_size as u64)
    &&& t.track.release_date == Some(row.release_date)
    &&& t.track.analyze_date is Some <==> date_text(row.analyze_date@) is Some
    &&& t.track.analyze_date matches Some(d) ==> d@ == row.analyze_date@
    &&& t.track.date_added is Some <==> date_text(row.date_added@) is Some
    &&& t.track.date_added matches Some(d) ==> d@ == row.date_added@
    &&& t.track.analyze_path is Some <==> row.analyze_path@.len() > 0
    &&& t.track.analyze_path matches Some(p)
        ==> encode_utf8(p@) == encode_utf8(row.analyze_path@).subrange(0, extension_cut(row.analyze_path@))
    &&& t.track.beat_grid is None
    &&& t.track.cue_and_loops is None
    &&& t.track.waveform_hd is None
    &&& t.track.artwork is None
    &&& t.track.artist is None
    &&& t.track.original_artist is None
    &&& t.track.remixer is None
    &&& t.track.composer is None
    &&& t.track.album is None
    &&& t.track.label is None
    &&& t.track.genre is None
    &&& t.track.color is None
    &&& t.track.key is None
    &&& t.artwork_id == nonzero_id(row.artwork_id)
    &&& t.artist_id == nonzero_id(row.artist_id)
    &&& t.original_artist_id == nonzero_id(row.original_artist_id)
    &&& t.remixer_id == nonzero_id(row.remixer_id)
    &&& t.composer_id == nonzero_id(row.composer_id)
    &&& t.album_id == nonzero_id(row.album_id)
    &&& t.label_id == nonzero_id(row.label_id)
    &&& t.genre_id == nonzero_id(row.genre_id)
    &&& t.color_id == nonzero_id(row.color_id as u32)
    &&& t.key_id == nonzero_id(row.key_id)
}

/// A created track holds the row's own numbers and names, and each foreign
/// key points where the row's column of that name does (zero meaning none):
/// the artist key is the row's artist id, the album key its album id, and
/// so on for every relation; the duration is the row's seconds in
/// milliseconds.
pub proof fn law_created_track_follows_its_row(row: TrackRow, t: TrackWithFks)
    requires
        track_created(row, t),
    ensures
        t.track.id == row.id,
        t.track.title@ == row.title@,
        t.track.file_path@ == row.file_path@,
        t.track.tempo == row.tempo,
        t.track.duration == row.duration * 1000,
        t.track.year == Some(row.year as u32),
        t.artist_id == (if row.artist_id == 0 { None } else { Some(row.artist_id) }),
        t.album_id == (if row.album_id == 0 { None } else { Some(row.album_id) }),
        t.genre_id == (if row.genre_id == 0 { None } else { Some(row.genre_id) }),
        t.key_id == (if row.key_id == 0 { None } else { Some(row.key_id) }),
        t.label_id == (if row.label_id == 0 { None } else { Some(row.label_id) }),
        t.remixer_id == (if row.remixer_id == 0 { None } else { Some(row.remixer_id) }),
        t.composer_id == (if row.composer_id == 0 { None } else { Some(row.composer_id) }),
        t.original_artist_id == (if row.original_artist_id == 0 { None } else { Some(row.original_artist_id) }),
        t.artwork_id == (if row.artwork_id == 0 { None } else { Some(row.artwork_id) }),
        t.color_id == (if row.color_id == 0 { None } else { Some(row.color_id as u32) }),
{
}

/// Translates a pdb track row entry to a track entity (with foreign keys).
/// The analysis data is hydrated later from the analysis files.
pub fn create_track(row: &TrackRow) -> (r: TrackWithFks)
    requires
        analyze_path_cuttable(row.analyze_path@),
    ensures
        track_created(*row, r),
{
    // The analyze file comes in 3 forms:
    //
    //  1. A `DAT` file, which is missing some extended information, for the
    //     older Pioneer equipment (likely due to memory constraints).
    //  2. A `EXT` file which includes colored waveforms and other extended data.
    //  3. A `2EX` file with 3-band waveforms and vocal detection.
    //
    // We normalize this path by trimming the DAT extension off. Later we will
    // try and read whatever is available.
    let analyze_path = trimmed_analyze_path(&row.analyze_path);

    let track = Track {
        id: row.id,
        title: row.title.clone(),
        track_number: Some(row.track_number),
        disc_number: Some(row.disc_number as u32),
        duration: row.duration as u32 * 1000,
        sample_rate: Some(row.sample_rate),
        sample_depth: Some(row.sample_depth as u32),
        bitrate: Some(row.bitrate),
        tempo: row.tempo,
        play_count: Some(row.play_count as u32),
        year: Some(row.year as u32),
        rating: row.rating as u32,
        mix_name: Some(row.mix_name.clone()),
        comment: row.comment.clone(),
        autoload_hotcues: Some(str_eq(row.autoload_hotcues.as_str(), "ON")),
        kuvo_public: Some(str_eq(row.kuvo_public.as_str(), "ON")),
        file_path: row.file_path.clone(),
        file_name: row.filename.clone(),
        file_size: Some(row.file_size as u64),
        analyze_path,
        release_date: Some(row.release_date.clone()),
        analyze_date: date_of(&row.analyze_date),
        date_added: date_of(&row.date_added),
        // There are a few additional columns that will be hydrated through
        // the analyze files (given the analyze_path) which we do not assign here.
        beat_grid: None,
        cue_and_loops: None,
        waveform_hd: None,
        artwork: None,
        artist: None,
        original_artist: None,
        remixer: None,
        composer: None,
        album: None,
        label: None,
        genre: None,
        color: None,
        key: None,
    };

    TrackWithFks {
        track,
        artwork_id: nonzero(row.artwork_id),
        artist_id: nonzero(row.artist_id),
        original_artist_id: nonzero(row.original_artist_id),
        remixer_id: nonzero(row.remixer_id),
        composer_id: nonzero(row.composer_id),
        album_id: nonzero(row.album_id),
        label_id: nonzero(row.label_id),
        genre_id: nonzero(row.genre_id),
        color_id: nonzero(row.color_id as u32),
        key_id: nonzero(row.key_id),
    }
}

/// Translates a pdb playlist row entry into a [`Playlist`] entity.
pub fn create_playlist(row: &PlaylistTreeRow) -> (r: Playlist)
    ensures
        r == (Playlist {
            id: row.id,
            name: row.name,
            is_folder: row.raw_is_folder != 0,
            parent_id: nonzero_id(row.parent_id),
        }),
{
    Playlist { id: row.id, name: row.name.clone(), is_folder: row.is_folder(), parent_id: nonzero(row.parent_id) }
}

/// Translates a pdb playlist track entry into a [`PlaylistEntry`] entity.
///
/// The pdb row has no id of its own; the entry index doubles as the id.
pub fn create_playlist_entry(row: &PlaylistEntryRow) -> (r: PlaylistEntry)
    ensures
        r == (PlaylistEntry {
            id: row.entry_index,
            sort_index: row.entry_index,
            playlist_id: row.playlist_id,
            track_id: row.track_id,
        }),
{
    PlaylistEntry { id: row.entry_index, sort_index: row.entry_index, playlist_id: row.playlist_id, track_id: row.track_id }
}

/// Translates a pdb artwork entry into an [`Artwork`] entity.
pub fn create_artwork_entry(row: &ArtworkRow) -> (r: Artwork)
    ensures
        r == (Artwork { id: row.id, path: Some(row.path) }),
{
    Artwork { id: row.id, path: Some(row.path.clone()) }
}

pub fn create_artist(row: &IdNameRow) -> (r: Artist)
    ensures
        r == (Artist { id: row.id, name: row.name }),
{
    Artist { id: row.id, name: row.name.clone() }
}

pub fn create_album(row: &IdNameRow) -> (r: Album)
    ensures
        r == (Album { id: row.id, name: row.name }),
{
    Album { id: row.id, name: row.name.clone() }
}

pub fn create_genre(row: &IdNameRow) -> (r: Genre)
    ensures
        r == (Genre { id: row.id, name: row.name }),
{
    Genre { id: row.id, name: row.name.clone() }
}

pub fn create_label(row: &IdNameRow) -> (r: Label)
    ensures
        r == (Label { id: row.id, name: row.name }),
{
    Label { id: row.id, name: row.name.clone() }
}

pub fn create_color(row: &IdNameRow) -> (r: Color)
    ensures
        r == (Color { id: row.id, name: row.name }),
{
    Color { id: row.id, name: row.name.clone() }
}

pub fn create_key(row: &IdNameRow) -> (r: Key)
    ensures
        r == (Key { id: row.id, name: row.name }),
{
    Key { id: row.id, name: row.name.clone() }
}

} // verus!
