//! OneLibrary (exportLibrary.db) rows and the entities made of them.
//!
//! The database is read row by row; each row's columns are handed over as
//! plain values: integer columns as `Option<i64>` (`None` for NULL or a
//! value that is not an integer), text columns as `Option<String>`.

use vstd::prelude::*;
use vstd::string::StringSliceAdditionalSpecFns;
use vstd::utf8::{encode_utf8, is_char_boundary};
use crate::entities::{
    button_number, button_of, cue_button_field, cue_color_field, cue_color_of, cue_label_field, cue_length_field, cue_offset, Album, Artist, Artwork, Color, CueAndLoop, CueColor, Genre, HotcueButton, Key, Label, MyTag,
    Playlist, PlaylistEntry, Track,
};
use crate::localdb::database_adapter::PlaylistQueryResult;
use crate::localdb::onelibrary::schema::{my_tag_attribute, playlist_attribute};
use crate::localdb::rekordbox::entity_creators::{analyze_path_cuttable, extension_cut};

verus! {

broadcast use vstd::slice::group_slice_axioms;

/// The columns of a `content` row joined with the names of its relations.
#[derive(Debug, Clone, PartialEq, Eq)]
pub struct ContentRow {
    pub content_id: Option<i64>,
    pub title: Option<String>,
    /// Milliseconds.
    pub length: Option<i64>,
    pub bitrate: Option<i64>,
    pub bpmx100: Option<i64>,
    pub rating: Option<i64>,
    pub dj_comment: Option<String>,
    pub path: Option<String>,
    pub file_name: Option<String>,
    pub track_no: Option<i64>,
    pub disc_no: Option<i64>,
    pub sampling_rate: Option<i64>,
    pub bit_depth: Option<i64>,
    pub dj_play_count: Option<i64>,
    pub release_year: Option<i64>,
    pub subtitle: Option<String>,
    pub is_hot_cue_auto_load_on: Option<i64>,
    pub is_kuvo_deliver_status_on: Option<i64>,
    pub file_size: Option<i64>,
    pub analysis_data_file_path: Option<String>,
    pub release_date: Option<String>,
    pub date_added: Option<String>,
    pub image_id: Option<i64>,
    pub artwork_path: Option<String>,
    pub artist_id: Option<i64>,
    pub artist_name: Option<String>,
    pub original_artist_id: Option<i64>,
    pub original_artist_name: Option<String>,
    pub remixer_id: Option<i64>,
    pub remixer_name: Option<String>,
    pub composer_id: Option<i64>,
    pub composer_name: Option<String>,
    pub album_id: Option<i64>,
    pub album_name: Option<String>,
    pub genre_id: Option<i64>,
    pub genre_name: Option<String>,
    pub key_id: Option<i64>,
    pub key_name: Option<String>,
    pub color_id: Option<i64>,
    pub color_name: Option<String>,
    pub label_id: Option<i64>,
    pub label_name: Option<String>,
}

/// An integer column as a `u32`: `None` for NULL or a value out of range.
pub open spec fn col_u32_of(v: Option<i64>) -> Option<u32> {
    match v {
        Some(x) => if 0 <= x <= u32::MAX { Some(x as u32) } else { None },
        None => None,
    }
}

/// An integer column as a `u32`.
pub fn col_u32(v: Option<i64>) -> (r: Option<u32>)
    ensures
        r == col_u32_of(v),
{
    match v {
        Some(x) => if 0 <= x && x <= 0xffff_ffff {
            Some(x as u32)
        } else {
            None
        },
        None => None,
    }
}

/// A zero id marks a missing relation.
pub open spec fn nonzero_of(v: Option<u32>) -> Option<u32> {
    match v {
        Some(x) => if x != 0 { Some(x) } else { None },
        None => None,
    }
}

fn nonzero(v: Option<u32>) -> (r: Option<u32>)
    ensures
        r == nonzero_of(v),
{
    match v {
        Some(x) => if x != 0 {
            Some(x)
        } else {
            None
        },
        None => None,
    }
}

/// A text column, empty for NULL.
pub fn text_or_empty(v: &Option<String>) -> (r: String)
    ensures
        r@ == match v {
            Some(s) => s@,
            None => Seq::<char>::empty(),
        },
{
    match v {
        Some(s) => s.clone(),
        None => String::new(),
    }
}

fn copy_text(v: &Option<String>) -> (r: Option<String>)
    ensures
        r == *v,
{
    match v {
        Some(s) => Some(s.clone()),
        None => None,
    }
}

/// The text of a column, empty for NULL.
pub open spec fn text_of(v: Option<String>) -> Seq<char> {
    match v {
        Some(s) => s@,
        None => Seq::empty(),
    }
}

/// A positive column that fits in a `u32`, else 0.
pub open spec fn positive_u32(v: Option<i64>) -> u32 {
    match v {
        Some(x) => if 0 < x <= u32::MAX { x as u32 } else { 0 },
        None => 0,
    }
}

/// A flag column: set where it holds a non-zero value.
pub open spec fn flag_of(v: Option<i64>) -> bool {
    match v {
        Some(x) => x != 0,
        None => false,
    }
}

/// True when the analysis path of the row, if any, can be cut.
pub open spec fn content_row_ok(row: ContentRow) -> bool {
    row.analysis_data_file_path matches Some(p) ==> analyze_path_cuttable(p@)
}

/// An id-name relation as read from its id and joined name columns:
/// present where the id is non-zero, named by the name column (empty for
/// NULL).
pub open spec fn relation_of(id: Option<i64>, name: Option<String>) -> Option<(u32, Seq<char>)> {
    match nonzero_of(col_u32_of(id)) {
        Some(i) => Some((i, text_of(name))),
        None => None,
    }
}

pub open spec fn artist_pair(o: Option<Artist>) -> Option<(u32, Seq<char>)> {
    match o {
        Some(a) => Some((a.id, a.name@)),
        None => None,
    }
}

pub open spec fn album_pair(o: Option<Album>) -> Option<(u32, Seq<char>)> {
    match o {
        Some(a) => Some((a.id, a.name@)),
        None => None,
    }
}

pub open spec fn label_pair(o: Option<Label>) -> Option<(u32, Seq<char>)> {
    match o {
        Some(a) => Some((a.id, a.name@)),
        None => None,
    }
}

pub open spec fn genre_pair(o: Option<Genre>) -> Option<(u32, Seq<char>)> {
    match o {
        Some(a) => Some((a.id, a.name@)),
        None => None,
    }
}

pub open spec fn color_pair(o: Option<Color>) -> Option<(u32, Seq<char>)> {
    match o {
        Some(a) => Some((a.id, a.name@)),
        None => None,
    }
}

pub open spec fn key_pair(o: Option<Key>) -> Option<(u32, Seq<char>)> {
    match o {
        Some(a) => Some((a.id, a.name@)),
        None => None,
    }
}

/// True when the row can be converted: its analysis path, if any, can be
/// cut before its extension at a character boundary.
pub fn content_row_convertible(row: &ContentRow) -> (r: bool)
    ensures
        r == content_row_ok(*row),
{
    match &row.analysis_data_file_path {
        Some(p) => {
            let s = p.as_str();
            let n = s.as_bytes().len();
            let cut: usize = if n >= 4 { n - 4 } else { 0 };
            assert(s.spec_bytes() == encode_utf8(p@));
            s.is_char_boundary(cut)
        },
        None => true,
    }
}

/// Convert a content row to a Track entity.
pub fn content_to_track(row: &ContentRow) -> (t: Track)
    requires
        content_row_ok(*row),
    ensures
        t.id == match col_u32_of(row.content_id) {
            Some(v) => v,
            None => 0,
        },
        t.title@ == text_of(row.title),
        t.duration == positive_u32(row.length),
        t.bitrate == col_u32_of(row.bitrate),
        t.tempo == positive_u32(row.bpmx100),
        t.rating == match col_u32_of(row.rating) {
            Some(v) => v,
            None => 0,
        },
        t.comment@ == text_of(row.dj_comment),
        t.file_path@ == text_of(row.path),
        t.file_name@ == text_of(row.file_name),
        t.track_number == col_u32_of(row.track_no),
        t.disc_number == col_u32_of(row.disc_no),
        t.sample_rate == col_u32_of(row.sampling_rate),
        t.sample_depth == col_u32_of(row.bit_depth),
        t.play_count == col_u32_of(row.dj_play_count),
        t.year == col_u32_of(row.release_year),
        t.mix_name == row.subtitle,
        t.autoload_hotcues == Some(flag_of(row.is_hot_cue_auto_load_on)),
        t.kuvo_public == Some(flag_of(row.is_kuvo_deliver_status_on)),
        t.file_size == match row.file_size {
            Some(x) => if x >= 0 { Some(x as u64) } else { None },
            None => None,
        },
        t.analyze_path is Some <==> (row.analysis_data_file_path matches Some(p) && p@.len() > 0),
        t.analyze_path matches Some(p) ==> encode_utf8(p@) == encode_utf8(row.analysis_data_file_path->0@).subrange(
            0,
            extension_cut(row.analysis_data_file_path->0@),
        ),
        t.release_date == row.release_date,
        t.analyze_date is None,
        t.date_added is Some <==> (row.date_added matches Some(d) && d@.len() > 0),
        t.date_added matches Some(d) ==> d@ == row.date_added->0@,
        t.cue_and_loops is None,
        t.artwork == match nonzero_of(col_u32_of(row.image_id)) {
            Some(id) => Some(Artwork { id, path: row.artwork_path }),
            None => None,
        },
        artist_pair(t.artist) == relation_of(row.artist_id, row.artist_name),
        artist_pair(t.original_artist) == relation_of(row.original_artist_id, row.original_artist_name),
        artist_pair(t.remixer) == relation_of(row.remixer_id, row.remixer_name),
        artist_pair(t.composer) == relation_of(row.composer_id, row.composer_name),
        album_pair(t.album) == relation_of(row.album_id, row.album_name),
        label_pair(t.label) == relation_of(row.label_id, row.label_name),
        genre_pair(t.genre) == relation_of(row.genre_id, row.genre_name),
        color_pair(t.color) == relation_of(row.color_id, row.color_name),
        key_pair(t.key) == relation_of(row.key_id, row.key_name),
        t.beat_grid is None,
        t.waveform_hd is None,
{
    // Normalize analyze_path by trimming the .DAT extension (same as the
    // pdb hydrator); loading appends the extension of each kind.
    let analyze_path = match &row.analysis_data_file_path {
        Some(p) => {
            let s = p.as_str();
            if s.is_empty() {
                None
            } else {
                let n = s.as_bytes().len();
                let cut: usize = if n >= 4 { n - 4 } else { 0 };
                assert(s.spec_bytes() == encode_utf8(p@));
                let (head, _tail) = s.split_at(cut);
                let r = head.to_owned();
                assert(encode_utf8(r@) == head.spec_bytes());
                Some(r)
            }
        },
        None => None,
    };
    let date_added = match &row.date_added {
        Some(d) => if d.as_str().is_empty() {
            None
        } else {
            Some(d.clone())
        },
        None => None,
    };
    let artwork = match nonzero(col_u32(row.image_id)) {
        Some(id) => Some(Artwork { id, path: copy_text(&row.artwork_path) }),
        None => None,
    };
    let artist = match nonzero(col_u32(row.artist_id)) {
        Some(id) => Some(Artist { id, name: text_or_empty(&row.artist_name) }),
        None => None,
    };
    let original_artist = match nonzero(col_u32(row.original_artist_id)) {
        Some(id) => Some(Artist { id, name: text_or_empty(&row.original_artist_name) }),
        None => None,
    };
    let remixer = match nonzero(col_u32(row.remixer_id)) {
        Some(id) => Some(Artist { id, name: text_or_empty(&row.remixer_name) }),
        None => None,
    };
    let composer = match nonzero(col_u32(row.composer_id)) {
        Some(id) => Some(Artist { id, name: text_or_empty(&row.composer_name) }),
        None => None,
    };
    let album = match nonzero(col_u32(row.album_id)) {
        Some(id) => Some(Album { id, name: text_or_empty(&row.album_name) }),
        None => None,
    };
    let label = match nonzero(col_u32(row.label_id)) {
        Some(id) => Some(Label { id, name: text_or_empty(&row.label_name) }),
        None => None,
    };
    let genre = match nonzero(col_u32(row.genre_id)) {
        Some(id) => Some(Genre { id, name: text_or_empty(&row.genre_name) }),
        None => None,
    };
    let color = match nonzero(col_u32(row.color_id)) {
        Some(id) => Some(Color { id, name: text_or_empty(&row.color_name) }),
        None => None,
    };
    let key = match nonzero(col_u32(row.key_id)) {
        Some(id) => Some(Key { id, name: text_or_empty(&row.key_name) }),
        None => None,
    };
    let duration: u32 = match row.length {
        Some(l) => if 0 < l && l <= 0xffff_ffff { l as u32 } else { 0 },
        None => 0,
    };
    let tempo: u32 = match row.bpmx100 {
        Some(b) => if 0 < b && b <= 0xffff_ffff { b as u32 } else { 0 },
        None => 0,
    };
    let file_size: Option<u64> = match row.file_size {
        Some(x) => if x >= 0 { Some(x as u64) } else { None },
        None => None,
    };
    Track {
        id: match col_u32(row.content_id) {
            Some(v) => v,
            None => 0,
        },
        title: text_or_empty(&row.title),
        duration,
        bitrate: col_u32(row.bitrate),
        tempo,
        rating: match col_u32(row.rating) {
            Some(v) => v,
            None => 0,
        },
        comment: text_or_empty(&row.dj_comment),
        file_path: text_or_empty(&row.path),
        file_name: text_or_empty(&row.file_name),
        track_number: col_u32(row.track_no),
        disc_number: col_u32(row.disc_no),
        sample_rate: col_u32(row.sampling_rate),
        sample_depth: col_u32(row.bit_depth),
        play_count: col_u32(row.dj_play_count),
        year: col_u32(row.release_year),
        mix_name: copy_text(&row.subtitle),
        autoload_hotcues: Some(
            match row.is_hot_cue_auto_load_on {
                Some(x) => x != 0,
                None => false,
            },
        ),
        kuvo_public: Some(
            match row.is_kuvo_deliver_status_on {
                Some(x) => x != 0,
                None => false,
            },
        ),
        file_size,
        analyze_path,
        release_date: copy_text(&row.release_date),
        analyze_date: None,
        date_added,
        cue_and_loops: None,
        artwork,
        artist,
        original_artist,
        remixer,
        composer,
        album,
        label,
        genre,
        color,
        key,
        beat_grid: None,
        waveform_hd: None,
    }
}

/// The columns of a `cue` row.
#[derive(Debug, Clone, PartialEq, Eq)]
pub struct CueRow {
    pub kind: Option<i64>,
    /// Microseconds.
    pub in_usec: Option<i64>,
    /// Microseconds; a positive value marks a loop.
    pub out_usec: Option<i64>,
    pub cue_comment: Option<String>,
    pub color_table_index: Option<i64>,
}

/// Integer division rounding toward zero.
pub open spec fn div_toward_zero(a: int, b: int) -> int {
    if a >= 0 {
        a / b
    } else {
        -((-a) / b)
    }
}

/// Microseconds as whole milliseconds, rounded toward zero and held in
/// `0..=u32::MAX`.
pub open spec fn usec_to_ms(usec: int) -> u32 {
    let ms = div_toward_zero(usec, 1000);
    if ms < 0 {
        0
    } else if ms > u32::MAX {
        u32::MAX
    } else {
        ms as u32
    }
}

/// What a cue row reads as: a loop where its out point is positive, with
/// the length from in to out; a hot cue or hot loop where its kind is a
/// button number 1..=8; its comment as label and its colour index, taken as
/// a byte, as colour.
pub open spec fn cue_of(row: CueRow) -> CueAndLoop {
    let in_usec: int = match row.in_usec {
        Some(v) => v as int,
        None => 0,
    };
    let offset = usec_to_ms(in_usec);
    let is_loop = row.out_usec matches Some(o) && o > 0;
    let length: i64 = if is_loop {
        div_toward_zero(row.out_usec->0 - in_usec, 1000) as i64
    } else {
        0
    };
    let kind: int = match row.kind {
        Some(k) => k as int,
        None => 0,
    };
    let button = if 1 <= kind <= 8 {
        button_of(kind as u8)
    } else {
        None
    };
    let label = row.cue_comment;
    let color = match row.color_table_index {
        Some(c) => Some(cue_color_of(c as u8)),
        None => None,
    };
    match button {
        Some(b) => if is_loop {
            CueAndLoop::HotLoop { offset, length, button: b, label, color }
        } else {
            CueAndLoop::HotCue { offset, button: b, label, color }
        },
        None => if is_loop {
            CueAndLoop::Loop { offset, length, label, color }
        } else {
            CueAndLoop::CuePoint { offset, label, color }
        },
    }
}

fn ms_of_usec(usec: i128) -> (r: i128)
    requires
        -0x1_0000_0000_0000_0000_0000 < usec < 0x1_0000_0000_0000_0000_0000,
    ensures
        r == div_toward_zero(usec as int, 1000),
{
    if usec >= 0 {
        usec / 1000
    } else {
        -((-usec) / 1000)
    }
}

/// Convert a cue row to a CueAndLoop entity.
pub fn cue_to_cue_and_loop(row: &CueRow) -> (r: CueAndLoop)
    ensures
        r == cue_of(*row),
{
    let in_usec: i64 = match row.in_usec {
        Some(v) => v,
        None => 0,
    };
    let ms = ms_of_usec(in_usec as i128);
    let offset: u32 = if ms < 0 {
        0
    } else if ms > 0xffff_ffff {
        0xffff_ffff
    } else {
        ms as u32
    };
    let is_loop = match row.out_usec {
        Some(o) => o > 0,
        None => false,
    };
    let length: i64 = if is_loop {
        let out: i64 = match row.out_usec {
            Some(o) => o,
            None => 0,
        };
        let l = ms_of_usec(out as i128 - in_usec as i128);
        assert(-0x8000_0000_0000_0000 <= l <= 0x7fff_ffff_ffff_ffff) by (nonlinear_arith)
            requires
                l == div_toward_zero(out - in_usec, 1000),
                -0x8000_0000_0000_0000 <= out <= 0x7fff_ffff_ffff_ffff,
                -0x8000_0000_0000_0000 <= in_usec <= 0x7fff_ffff_ffff_ffff,
        ;
        l as i64
    } else {
        0
    };
    let kind: i64 = match row.kind {
        Some(k) => k,
        None => 0,
    };
    let button = if 1 <= kind && kind <= 8 {
        HotcueButton::from_u8(kind as u8)
    } else {
        None
    };
    let label = match &row.cue_comment {
        Some(s) => Some(s.clone()),
        None => None,
    };
    let color = match row.color_table_index {
        Some(c) => Some(CueColor::from_u8(c as u8)),
        None => None,
    };
    match button {
        Some(b) => if is_loop {
            CueAndLoop::HotLoop { offset, length, button: b, label, color }
        } else {
            CueAndLoop::HotCue { offset, button: b, label, color }
        },
        None => if is_loop {
            CueAndLoop::Loop { offset, length, label, color }
        } else {
            CueAndLoop::CuePoint { offset, label, color }
        },
    }
}

/// The columns of a `playlist` row.
#[derive(Debug, Clone, PartialEq, Eq)]
pub struct PlaylistRow {
    pub playlist_id: Option<i64>,
    pub name: Option<String>,
    pub attribute: Option<i64>,
    pub playlist_id_parent: Option<i64>,
}

/// Convert a playlist row to a Playlist entity.
pub fn playlist_row_to_playlist(row: &PlaylistRow) -> (r: Playlist)
    ensures
        r.id == match col_u32_of(row.playlist_id) {
            Some(v) => v,
            None => 0,
        },
        r.name@ == text_of(row.name),
        r.is_folder == (row.attribute == Some(playlist_attribute::FOLDER)),
        r.parent_id == col_u32_of(row.playlist_id_parent),
{
    Playlist {
        id: match col_u32(row.playlist_id) {
            Some(v) => v,
            None => 0,
        },
        name: text_or_empty(&row.name),
        is_folder: match row.attribute {
            Some(a) => a == playlist_attribute::FOLDER,
            None => false,
        },
        parent_id: col_u32(row.playlist_id_parent),
    }
}

/// The columns of a `myTag` row.
#[derive(Debug, Clone, PartialEq, Eq)]
pub struct MyTagRow {
    pub my_tag_id: Option<i64>,
    pub name: Option<String>,
    pub attribute: Option<i64>,
    pub my_tag_id_parent: Option<i64>,
}

/// Convert a myTag row to a MyTag entity.
pub fn my_tag_row_to_my_tag(row: &MyTagRow) -> (r: MyTag)
    ensures
        r.id == match col_u32_of(row.my_tag_id) {
            Some(v) => v,
            None => 0,
        },
        r.name@ == text_of(row.name),
        r.is_folder == (row.attribute == Some(my_tag_attribute::FOLDER)),
        r.parent_id == col_u32_of(row.my_tag_id_parent),
{
    MyTag {
        id: match col_u32(row.my_tag_id) {
            Some(v) => v,
            None => 0,
        },
        name: text_or_empty(&row.name),
        is_folder: match row.attribute {
            Some(a) => a == my_tag_attribute::FOLDER,
            None => false,
        },
        parent_id: col_u32(row.my_tag_id_parent),
    }
}

/// The (playlist_id, content_id, sequenceNo) columns of a
/// `playlist_content` row, each 0 where NULL or out of range.
pub open spec fn entry_of(index: int, row: (Option<i64>, Option<i64>, Option<i64>)) -> PlaylistEntry {
    PlaylistEntry {
        id: index as u32,
        sort_index: match col_u32_of(row.2) {
            Some(v) => v,
            None => 0,
        },
        playlist_id: match col_u32_of(row.0) {
            Some(v) => v,
            None => 0,
        },
        track_id: match col_u32_of(row.1) {
            Some(v) => v,
            None => 0,
        },
    }
}

/// The folders and playlists of `rows`, each in the order of the rows.
pub open spec fn split_folders(rows: Seq<Playlist>, folders: bool) -> Seq<Playlist> {
    rows.filter(|p: Playlist| p.is_folder == folders)
}

/// The contents of a playlist from its child playlists (folders first,
/// then playlists, each in row order) and its entry rows in `sequenceNo`
/// order; the entries are numbered by their position, as the table has no
/// ids of its own.
pub fn playlist_contents(children: Vec<Playlist>, entries: &[(Option<i64>, Option<i64>, Option<i64>)]) -> (r: PlaylistQueryResult)
    requires
        entries@.len() <= u32::MAX,
    ensures
        r.folders@ == children@.filter(|p: Playlist| p.is_folder),
        r.playlists@ == children@.filter(|p: Playlist| !p.is_folder),
        r.track_entries@ == Seq::new(entries@.len(), |i: int| entry_of(i, entries@[i])),
{
    let mut folders: Vec<Playlist> = Vec::new();
    let mut playlists: Vec<Playlist> = Vec::new();
    let mut i: usize = 0;
    let ghost all = children@;
    let n: usize = children.len();
    let mut children = children;
    // Take the rows from the back so each can be moved out.
    let mut rest: Vec<Playlist> = Vec::new();
    while children.len() > 0
        invariant
            children@ + rest@.reverse() == all,
        decreases children@.len(),
    {
        let p = children.pop().unwrap();
        proof {
            assert(rest@.push(p).reverse() =~= seq![p] + rest@.reverse());
        }
        rest.push(p);
        assert(children@ + rest@.reverse() =~= all);
    }
    assert(rest@.reverse() =~= all);
    while rest.len() > 0
        invariant
            rest@.reverse() == all.skip(i as int),
            i + rest@.len() == all.len(),
            all.len() == n,
            folders@ == all.take(i as int).filter(|p: Playlist| p.is_folder),
            playlists@ == all.take(i as int).filter(|p: Playlist| !p.is_folder),
        decreases rest@.len(),
    {
        let p = rest.pop().unwrap();
        proof {
            let old_rest = rest@.push(p);
            assert(old_rest.reverse()[0] == p);
            assert(all.skip(i as int)[0] == p);
            assert(all[i as int] == p);
            assert(all.take(i + 1) =~= all.take(i as int).push(p));
            all.take(i as int).lemma_filter_push(p, |q: Playlist| q.is_folder);
            all.take(i as int).lemma_filter_push(p, |q: Playlist| !q.is_folder);
            assert(rest@.reverse() =~= all.skip(i + 1)) by {
                assert(all.skip(i as int).drop_first() =~= all.skip(i + 1));
            }
        }
        if p.is_folder {
            folders.push(p);
        } else {
            playlists.push(p);
        }
        i = i + 1;
    }
    assert(all.take(all.len() as int) =~= all);

    let mut track_entries: Vec<PlaylistEntry> = Vec::new();
    let mut k: usize = 0;
    while k < entries.len()
        invariant
            entries@.len() <= u32::MAX,
            k <= entries@.len(),
            track_entries@ == Seq::new(k as nat, |j: int| entry_of(j, entries@[j])),
        decreases entries@.len() - k,
    {
        let (playlist_id, content_id, sequence_no) = entries[k];
        // playlist_content doesn't have a unique ID, use index
        track_entries.push(
            PlaylistEntry {
                id: k as u32,
                sort_index: match col_u32(sequence_no) {
                    Some(v) => v,
                    None => 0,
                },
                playlist_id: match col_u32(playlist_id) {
                    Some(v) => v,
                    None => 0,
                },
                track_id: match col_u32(content_id) {
                    Some(v) => v,
                    None => 0,
                },
            },
        );
        assert(track_entries@ =~= Seq::new((k + 1) as nat, |j: int| entry_of(j, entries@[j])));
        k = k + 1;
    }
    PlaylistQueryResult { folders, playlists, track_entries }
}


/// The ids of an id column read row by row, in order: those that are
/// present and fit in a `u32`.
pub open spec fn ids_of(values: Seq<Option<i64>>) -> Seq<u32>
    decreases values.len(),
{
    if values.len() == 0 {
        Seq::empty()
    } else {
        let rest = ids_of(values.drop_last());
        match col_u32_of(values.last()) {
            Some(v) => rest.push(v),
            None => rest,
        }
    }
}

/// A `playlist_content` row read as a playlist entry: its track is the
/// row's content id, its playlist the row's playlist id and its place the
/// row's sequence number (each 0 where NULL or out of range); the entry's
/// own id is its index.
pub proof fn law_playlist_entry_columns(index: int, row: (Option<i64>, Option<i64>, Option<i64>))
    ensures
        entry_of(index, row).id == index as u32,
        entry_of(index, row).playlist_id == (match row.0 { Some(v) => if 0 <= v <= u32::MAX { v as u32 } else { 0 }, None => 0 }),
        entry_of(index, row).track_id == (match row.1 { Some(v) => if 0 <= v <= u32::MAX { v as u32 } else { 0 }, None => 0 }),
        entry_of(index, row).sort_index == (match row.2 { Some(v) => if 0 <= v <= u32::MAX { v as u32 } else { 0 }, None => 0 }),
{
}

/// Keeps the ids that are present and fit in a `u32`, in order.
pub fn valid_ids(values: &[Option<i64>]) -> (r: Vec<u32>)
    ensures
        r@ == ids_of(values@),
{
    let mut out: Vec<u32> = Vec::new();
    let mut i: usize = 0;
    while i < values.len()
        invariant
            i <= values@.len(),
            out@ == ids_of(values@.take(i as int)),
        decreases values@.len() - i,
    {
        proof {
            let t = values@.take(i + 1);
            assert(t.drop_last() =~= values@.take(i as int));
            assert(t.last() == values@[i as int]);
        }
        match col_u32(values[i]) {
            Some(v) => out.push(v),
            None => {},
        }
        i = i + 1;
    }
    assert(values@.take(values@.len() as int) =~= values@);
    out
}

/// MyTags split into folders and tags, each in the order of the rows.
pub fn split_my_tags(rows: Vec<MyTag>) -> (r: (Vec<MyTag>, Vec<MyTag>))
    ensures
        r.0@ == rows@.filter(|t: MyTag| t.is_folder),
        r.1@ == rows@.filter(|t: MyTag| !t.is_folder),
{
    let ghost all = rows@;
    let n: usize = rows.len();
    let mut rows = rows;
    let mut rest: Vec<MyTag> = Vec::new();
    while rows.len() > 0
        invariant
            rows@ + rest@.reverse() == all,
        decreases rows@.len(),
    {
        let t = rows.pop().unwrap();
        proof {
            assert(rest@.push(t).reverse() =~= seq![t] + rest@.reverse());
        }
        rest.push(t);
        assert(rows@ + rest@.reverse() =~= all);
    }
    assert(rest@.reverse() =~= all);
    let mut folders: Vec<MyTag> = Vec::new();
    let mut tags: Vec<MyTag> = Vec::new();
    let mut i: usize = 0;
    while rest.len() > 0
        invariant
            rest@.reverse() == all.skip(i as int),
            i + rest@.len() == all.len(),
            all.len() == n,
            folders@ == all.take(i as int).filter(|t: MyTag| t.is_folder),
            tags@ == all.take(i as int).filter(|t: MyTag| !t.is_folder),
        decreases rest@.len(),
    {
        let t = rest.pop().unwrap();
        proof {
            let old_rest = rest@.push(t);
            assert(old_rest.reverse()[0] == t);
            assert(all.skip(i as int)[0] == t);
            assert(all[i as int] == t);
            assert(all.take(i + 1) =~= all.take(i as int).push(t));
            all.take(i as int).lemma_filter_push(t, |q: MyTag| q.is_folder);
            all.take(i as int).lemma_filter_push(t, |q: MyTag| !q.is_folder);
            assert(rest@.reverse() =~= all.skip(i + 1)) by {
                assert(all.skip(i as int).drop_first() =~= all.skip(i + 1));
            }
        }
        if t.is_folder {
            folders.push(t);
        } else {
            tags.push(t);
        }
        i = i + 1;
    }
    assert(all.take(all.len() as int) =~= all);
    (folders, tags)
}

/// How a OneLibrary cue row reads, field by field, whatever its kind: the
/// colour is the colour its colour index names (as a byte) exactly when it
/// has one, the label is its comment, the offset its in point in whole
/// milliseconds; it is a loop exactly when its out point is positive, of
/// the length from in to out; it is a hot one exactly when its kind is 1 to
/// 8, on the button of that number.
pub proof fn law_cue_row_fields(row: CueRow)
    ensures
        cue_color_field(cue_of(row)) == (match row.color_table_index {
            Some(c) => Some(cue_color_of(c as u8)),
            None => None,
        }),
        cue_label_field(cue_of(row)) == row.cue_comment,
        cue_offset(cue_of(row)) == usec_to_ms(match row.in_usec {
            Some(v) => v as int,
            None => 0,
        }),
        cue_length_field(cue_of(row)) is Some <==> (row.out_usec matches Some(o) && o > 0),
        cue_length_field(cue_of(row)) matches Some(l) ==> l == div_toward_zero(
            row.out_usec->0 - match row.in_usec {
                Some(v) => v as int,
                None => 0,
            },
            1000,
        ),
        cue_button_field(cue_of(row)) is Some <==> (row.kind matches Some(k) && 1 <= k <= 8),
        cue_button_field(cue_of(row)) matches Some(b) ==> button_number(b) == row.kind->0,
{
    if row.kind is Some && 1 <= row.kind->0 <= 8 {
        let n = row.kind->0 as u8;
        assert(button_of(n) is Some && button_number(button_of(n)->0) == n);
    }
}

} // verus!
