//! The in-memory store the PDB hydrator fills.
//!
//! The rows are only ever looked up by id, so they are kept in maps keyed
//! by id; playlist entries, which have no id of their own, in a list.

use std::collections::HashMap;
use vstd::prelude::*;
use crate::entities::{
    Album, Artist, Artwork, Color, Duplicate, Genre, Key, Label, Playlist, PlaylistEntry, Track,
};
use crate::localdb::database_adapter::{DatabaseType, PlaylistQueryResult};

verus! {

broadcast use vstd::std_specs::hash::group_hash_axioms;

/// Table names available.
#[derive(Debug, Clone, Copy, PartialEq, Eq, Hash, Structural)]
pub enum Table {
    Artist,
    Album,
    Genre,
    Color,
    Label,
    Key,
    Artwork,
    Playlist,
    PlaylistEntry,
    Track,
}

/// The name of a table.
pub open spec fn table_name(t: Table) -> Seq<char> {
    match t {
        Table::Artist => "artist"@,
        Table::Album => "album"@,
        Table::Genre => "genre"@,
        Table::Color => "color"@,
        Table::Label => "label"@,
        Table::Key => "key"@,
        Table::Artwork => "artwork"@,
        Table::Playlist => "playlist"@,
        Table::PlaylistEntry => "playlist_entry"@,
        Table::Track => "track"@,
    }
}

impl Table {
    pub fn name(self) -> (r: &'static str)
        ensures
            r@ == table_name(self),
    {
        match self {
            Table::Artist => "artist",
            Table::Album => "album",
            Table::Genre => "genre",
            Table::Color => "color",
            Table::Label => "label",
            Table::Key => "key",
            Table::Artwork => "artwork",
            Table::Playlist => "playlist",
            Table::PlaylistEntry => "playlist_entry",
            Table::Track => "track",
        }
    }
}

/// A track row as hydrated from the pdb, with foreign keys rather than
/// resolved relations.
#[derive(Debug, Clone, PartialEq)]
pub struct TrackWithFks {
    pub track: Track,
    pub artwork_id: Option<u32>,
    pub artist_id: Option<u32>,
    pub original_artist_id: Option<u32>,
    pub remixer_id: Option<u32>,
    pub composer_id: Option<u32>,
    pub album_id: Option<u32>,
    pub label_id: Option<u32>,
    pub genre_id: Option<u32>,
    pub color_id: Option<u32>,
    pub key_id: Option<u32>,
}

/// The contents of the store: each table by id, and the playlist entries
/// in the order they were inserted.
pub struct OrmV {
    pub artists: Map<u32, Artist>,
    pub albums: Map<u32, Album>,
    pub genres: Map<u32, Genre>,
    pub colors: Map<u32, Color>,
    pub labels: Map<u32, Label>,
    pub keys: Map<u32, Key>,
    pub artwork: Map<u32, Artwork>,
    pub playlists: Map<u32, Playlist>,
    pub playlist_entries: Seq<PlaylistEntry>,
    pub tracks: Map<u32, TrackWithFks>,
}

/// The empty store.
pub open spec fn empty_orm() -> OrmV {
    OrmV {
        artists: Map::empty(),
        albums: Map::empty(),
        genres: Map::empty(),
        colors: Map::empty(),
        labels: Map::empty(),
        keys: Map::empty(),
        artwork: Map::empty(),
        playlists: Map::empty(),
        playlist_entries: Seq::empty(),
        tracks: Map::empty(),
    }
}

/// The row a foreign key points at, if any.
pub open spec fn resolve<V>(m: Map<u32, V>, k: Option<u32>) -> Option<V> {
    match k {
        Some(id) => if m.contains_key(id) { Some(m[id]) } else { None },
        None => None,
    }
}

/// A hydrated track with its relations resolved and no analysis data.
pub open spec fn resolved_track(o: OrmV, row: TrackWithFks) -> Track {
    Track {
        beat_grid: None,
        cue_and_loops: None,
        waveform_hd: None,
        artwork: resolve(o.artwork, row.artwork_id),
        artist: resolve(o.artists, row.artist_id),
        original_artist: resolve(o.artists, row.original_artist_id),
        remixer: resolve(o.artists, row.remixer_id),
        composer: resolve(o.artists, row.composer_id),
        album: resolve(o.albums, row.album_id),
        label: resolve(o.labels, row.label_id),
        genre: resolve(o.genres, row.genre_id),
        color: resolve(o.colors, row.color_id),
        key: resolve(o.keys, row.key_id),
        ..row.track
    }
}

/// Object relation mapper over the hydrated metadata. May be used to
/// populate a metadata database and query objects.
pub struct MetadataORM {
    artists: HashMap<u32, Artist>,
    albums: HashMap<u32, Album>,
    genres: HashMap<u32, Genre>,
    colors: HashMap<u32, Color>,
    labels: HashMap<u32, Label>,
    keys: HashMap<u32, Key>,
    artwork: HashMap<u32, Artwork>,
    playlists: HashMap<u32, Playlist>,
    /// The ids of the playlists, each once, in the order first inserted.
    playlist_ids: Vec<u32>,
    playlist_entries: Vec<PlaylistEntry>,
    tracks: HashMap<u32, TrackWithFks>,
}

impl View for MetadataORM {
    type V = OrmV;

    closed spec fn view(&self) -> OrmV {
        OrmV {
            artists: self.artists@,
            albums: self.albums@,
            genres: self.genres@,
            colors: self.colors@,
            labels: self.labels@,
            keys: self.keys@,
            artwork: self.artwork@,
            playlists: self.playlists@,
            playlist_entries: self.playlist_entries@,
            tracks: self.tracks@,
        }
    }
}

/// Looks up a foreign key and copies the row it points at.
fn lookup<V: Duplicate>(m: &HashMap<u32, V>, k: Option<u32>) -> (r: Option<V>)
    ensures
        r == resolve(m@, k),
{
    match k {
        Some(id) => match m.get(&id) {
            Some(v) => Some(v.duplicate()),
            None => None,
        },
        None => None,
    }
}

fn copy_string(s: &Option<String>) -> (r: Option<String>)
    ensures
        r == *s,
{
    match s {
        Some(v) => Some(v.clone()),
        None => None,
    }
}

/// Ids strictly ascending along the sequence.
pub open spec fn ids_ascending(s: Seq<Playlist>) -> bool {
    forall|i: int, j: int| 0 <= i < j < s.len() ==> #[trigger] s[i].id < #[trigger] s[j].id
}

/// `p` is a stored playlist whose parent is `parent` (`None`: the root).
pub open spec fn child_of(o: OrmV, p: Playlist, parent: Option<u32>) -> bool {
    &&& o.playlists.contains_key(p.id)
    &&& o.playlists[p.id] == p
    &&& p.parent_id == parent
}

/// Where a stable insertion puts an entry with sort index `k` into `s`:
/// after the last entry whose sort index is at most `k`.
pub open spec fn insert_pos(s: Seq<PlaylistEntry>, k: u32) -> int
    decreases s.len(),
{
    if s.len() == 0 {
        0
    } else if s.last().sort_index <= k {
        s.len() as int
    } else {
        insert_pos(s.drop_last(), k)
    }
}

/// The entries stably sorted by sort index: equal indices keep their order.
pub open spec fn sorted_by_index(s: Seq<PlaylistEntry>) -> Seq<PlaylistEntry>
    decreases s.len(),
{
    if s.len() == 0 {
        Seq::empty()
    } else {
        let t = sorted_by_index(s.drop_last());
        t.insert(insert_pos(t, s.last().sort_index), s.last())
    }
}

/// The entries of a playlist, in insertion order.
pub open spec fn entries_of(entries: Seq<PlaylistEntry>, playlist_id: u32) -> Seq<PlaylistEntry> {
    entries.filter(|e: PlaylistEntry| e.playlist_id == playlist_id)
}

proof fn lemma_insert_pos_bounds(s: Seq<PlaylistEntry>, k: u32)
    ensures
        0 <= insert_pos(s, k) <= s.len(),
    decreases s.len(),
{
    if s.len() > 0 {
        lemma_insert_pos_bounds(s.drop_last(), k);
    }
}

proof fn lemma_sorted_len(s: Seq<PlaylistEntry>)
    ensures
        sorted_by_index(s).len() == s.len(),
    decreases s.len(),
{
    if s.len() > 0 {
        lemma_sorted_len(s.drop_last());
        lemma_insert_pos_bounds(sorted_by_index(s.drop_last()), s.last().sort_index);
    }
}

/// Inserts `p` into `v` so that ids stay ascending.
fn insert_by_id(v: &mut Vec<Playlist>, p: Playlist)
    requires
        ids_ascending(old(v)@),
        forall|k: int| 0 <= k < old(v)@.len() ==> old(v)@[k].id != p.id,
    ensures
        ids_ascending(final(v)@),
        forall|q: Playlist| final(v)@.contains(q) <==> (old(v)@.contains(q) || q == p),
{
    let ghost before = v@;
    let mut j: usize = v.len();
    while j > 0 && v[j - 1].id > p.id
        invariant
            v@ == before,
            j <= v@.len(),
            forall|k: int| j <= k < v@.len() ==> v@[k].id > p.id,
        decreases j,
    {
        j = j - 1;
    }
    assert(forall|k: int| 0 <= k < j ==> v@[k].id < p.id) by {
        if j > 0 {
            assert(v@[j - 1].id <= p.id);
            assert(v@[j - 1].id != p.id);
        }
    }
    v.insert(j, p);
    let ghost after = v@;
    assert(after.len() == before.len() + 1);
    assert(forall|k: int| 0 <= k < j ==> after[k] == before[k]);
    assert(after[j as int] == p);
    assert(forall|k: int| j < k < after.len() ==> after[k] == before[k - 1]);
    assert forall|a: int, b: int| 0 <= a < b < after.len() implies #[trigger] after[a].id < #[trigger] after[b].id by {
        if b < j {
            assert(before[a].id < before[b].id);
        } else if b == j {
        } else if a < j {
            assert(before[a].id < p.id);
        } else if a == j {
        } else {
            assert(before[a - 1].id < before[b - 1].id);
        }
    }
    assert forall|q: Playlist| after.contains(q) <==> (before.contains(q) || q == p) by {
        if after.contains(q) {
            let k = choose|k: int| 0 <= k < after.len() && after[k] == q;
            if k < j {
                assert(before[k] == q);
            } else if k > j {
                assert(before[k - 1] == q);
            }
        }
        if before.contains(q) {
            let k = choose|k: int| 0 <= k < before.len() && before[k] == q;
            if k < j {
                assert(after[k] == q);
            } else {
                assert(after[k + 1] == q);
            }
        }
        if q == p {
            assert(after[j as int] == q);
        }
    }
}

/// The entries of one playlist, in insertion order.
fn entries_for(entries: &Vec<PlaylistEntry>, playlist_id: u32) -> (r: Vec<PlaylistEntry>)
    ensures
        r@ == entries_of(entries@, playlist_id),
{
    let mut out: Vec<PlaylistEntry> = Vec::new();
    let mut i: usize = 0;
    while i < entries.len()
        invariant
            i <= entries@.len(),
            out@ == entries_of(entries@.take(i as int), playlist_id),
        decreases entries@.len() - i,
    {
        let e = entries[i];
        proof {
            assert(entries@.take(i + 1) =~= entries@.take(i as int).push(e));
            entries@.take(i as int).lemma_filter_push(e, |x: PlaylistEntry| x.playlist_id == playlist_id);
        }
        if e.playlist_id == playlist_id {
            out.push(e);
        }
        i = i + 1;
    }
    assert(entries@.take(entries@.len() as int) =~= entries@);
    out
}

/// A stable sort by sort index.
fn sort_by_index(v: &Vec<PlaylistEntry>) -> (r: Vec<PlaylistEntry>)
    ensures
        r@ == sorted_by_index(v@),
{
    let mut out: Vec<PlaylistEntry> = Vec::new();
    let mut i: usize = 0;
    while i < v.len()
        invariant
            i <= v@.len(),
            out@ == sorted_by_index(v@.take(i as int)),
        decreases v@.len() - i,
    {
        let e = v[i];
        let k = e.sort_index;
        proof {
            lemma_sorted_len(v@.take(i as int));
        }
        let mut j: usize = out.len();
        assert(out@.take(j as int) =~= out@);
        while j > 0 && out[j - 1].sort_index > k
            invariant
                j <= out@.len(),
                insert_pos(out@, k) == insert_pos(out@.take(j as int), k),
            decreases j,
        {
            proof {
                let t = out@.take(j as int);
                assert(t.drop_last() =~= out@.take(j - 1));
            }
            j = j - 1;
        }
        proof {
            if j > 0 {
                let t = out@.take(j as int);
                assert(t.last() == out@[j - 1]);
            } else {
                assert(out@.take(0).len() == 0);
            }
            let s = v@.take(i + 1);
            assert(s.drop_last() =~= v@.take(i as int));
            assert(s.last() == e);
        }
        out.insert(j, e);
        i = i + 1;
    }
    assert(v@.take(v@.len() as int) =~= v@);
    out
}

proof fn lemma_insert_pos_split(t: Seq<PlaylistEntry>, k: u32)
    requires
        forall|i: int, j: int| 0 <= i < j < t.len() ==> #[trigger] t[i].sort_index <= #[trigger] t[j].sort_index,
    ensures
        0 <= insert_pos(t, k) <= t.len(),
        forall|i: int| 0 <= i < insert_pos(t, k) ==> #[trigger] t[i].sort_index <= k,
        forall|i: int| insert_pos(t, k) <= i < t.len() ==> #[trigger] t[i].sort_index > k,
    decreases t.len(),
{
    if t.len() > 0 {
        if t.last().sort_index <= k {
            assert forall|i: int| 0 <= i < t.len() implies #[trigger] t[i].sort_index <= k by {
                if i < t.len() - 1 {
                    assert(t[i].sort_index <= t[t.len() - 1].sort_index);
                }
            }
        } else {
            let u = t.drop_last();
            lemma_insert_pos_split(u, k);
            assert forall|i: int| 0 <= i < insert_pos(t, k) implies #[trigger] t[i].sort_index <= k by {
                assert(t[i] == u[i]);
            }
            assert forall|i: int| insert_pos(t, k) <= i < t.len() implies #[trigger] t[i].sort_index > k by {
                if i < t.len() - 1 {
                    assert(t[i] == u[i]);
                }
            }
        }
    }
}

/// The entries of a playlist come out in the order they are placed on the
/// playlist: by sort index, ascending. All of them, each as often as it
/// was stored.
pub proof fn law_entries_in_playlist_order(s: Seq<PlaylistEntry>)
    ensures
        sorted_by_index(s).len() == s.len(),
        sorted_by_index(s).to_multiset() == s.to_multiset(),
        forall|i: int, j: int|
            0 <= i < j < s.len() ==> #[trigger] sorted_by_index(s)[i].sort_index <= #[trigger] sorted_by_index(
                s,
            )[j].sort_index,
    decreases s.len(),
{
    broadcast use vstd::seq_lib::group_to_multiset_ensures;
    broadcast use vstd::multiset::group_multiset_axioms;

    if s.len() > 0 {
        let u = s.drop_last();
        law_entries_in_playlist_order(u);
        let t = sorted_by_index(u);
        let x = s.last();
        let k = x.sort_index;
        lemma_insert_pos_split(t, k);
        let p = insert_pos(t, k);
        let r = t.insert(p, x);
        t.insert_ensures(p, x);
        assert(r == sorted_by_index(s));
        assert forall|i: int, j: int| 0 <= i < j < r.len() implies #[trigger] r[i].sort_index <= #[trigger] r[j].sort_index by {
            if j < p {
                assert(r[i] == t[i] && r[j] == t[j]);
            } else if j == p {
                assert(r[i] == t[i]);
            } else if i < p {
                assert(r[i] == t[i] && r[j] == t[j - 1]);
            } else if i == p {
                assert(r[j] == t[j - 1]);
            } else {
                assert(r[i] == t[i - 1] && r[j] == t[j - 1]);
            }
        }
        assert(r =~= t.take(p) + seq![x] + t.skip(p));
        assert(t =~= t.take(p) + t.skip(p));
        vstd::seq_lib::lemma_multiset_commutative(t.take(p) + seq![x], t.skip(p));
        vstd::seq_lib::lemma_multiset_commutative(t.take(p), seq![x]);
        vstd::seq_lib::lemma_multiset_commutative(t.take(p), t.skip(p));
        assert(s =~= u.push(x));
        assert(seq![x].to_multiset() =~= vstd::multiset::Multiset::<PlaylistEntry>::empty().insert(x)) by {
            assert(seq![x] =~= Seq::<PlaylistEntry>::empty().push(x));
        }
        assert(r.to_multiset() =~= s.to_multiset());
    }
}

/// What a store gives back for a track: the row stored under its id, with
/// its relations resolved in the store as it is then.
pub proof fn law_track_found_after_insert(o: OrmV, e: TrackWithFks)
    ensures
        ({
            let o2 = OrmV { tracks: o.tracks.insert(e.track.id, e), ..o };
            &&& o2.tracks.contains_key(e.track.id)
            &&& resolved_track(o2, o2.tracks[e.track.id]) == resolved_track(o, e)
        }),
{
}

impl MetadataORM {
    /// The playlist ids are listed once each, exactly the keys of the
    /// playlist table, and each playlist is stored under its own id.
    pub closed spec fn wf(&self) -> bool {
        &&& self.playlist_ids@.no_duplicates()
        &&& forall|i: int| 0 <= i < self.playlist_ids@.len() ==> self.playlists@.contains_key(#[trigger] self.playlist_ids@[i])
        &&& forall|k: u32| #[trigger] self.playlists@.contains_key(k) ==> self.playlist_ids@.contains(k)
        &&& forall|k: u32| #[trigger] self.playlists@.contains_key(k) ==> self.playlists@[k].id == k
    }

    pub fn new() -> (r: MetadataORM)
        ensures
            r@ == empty_orm(),
            r.wf(),
    {
        MetadataORM {
            artists: HashMap::new(),
            albums: HashMap::new(),
            genres: HashMap::new(),
            colors: HashMap::new(),
            labels: HashMap::new(),
            keys: HashMap::new(),
            artwork: HashMap::new(),
            playlists: HashMap::new(),
            playlist_ids: Vec::new(),
            playlist_entries: Vec::new(),
            tracks: HashMap::new(),
        }
    }

    pub fn insert_artist(&mut self, e: Artist)
        ensures
            final(self)@ == (OrmV { artists: old(self)@.artists.insert(e.id, e), ..old(self)@ }),
            final(self).wf() == old(self).wf(),
    {
        self.artists.insert(e.id, e);
    }

    pub fn insert_album(&mut self, e: Album)
        ensures
            final(self)@ == (OrmV { albums: old(self)@.albums.insert(e.id, e), ..old(self)@ }),
            final(self).wf() == old(self).wf(),
    {
        self.albums.insert(e.id, e);
    }

    pub fn insert_genre(&mut self, e: Genre)
        ensures
            final(self)@ == (OrmV { genres: old(self)@.genres.insert(e.id, e), ..old(self)@ }),
            final(self).wf() == old(self).wf(),
    {
        self.genres.insert(e.id, e);
    }

    pub fn insert_color(&mut self, e: Color)
        ensures
            final(self)@ == (OrmV { colors: old(self)@.colors.insert(e.id, e), ..old(self)@ }),
            final(self).wf() == old(self).wf(),
    {
        self.colors.insert(e.id, e);
    }

    pub fn insert_label(&mut self, e: Label)
        ensures
            final(self)@ == (OrmV { labels: old(self)@.labels.insert(e.id, e), ..old(self)@ }),
            final(self).wf() == old(self).wf(),
    {
        self.labels.insert(e.id, e);
    }

    pub fn insert_key(&mut self, e: Key)
        ensures
            final(self)@ == (OrmV { keys: old(self)@.keys.insert(e.id, e), ..old(self)@ }),
            final(self).wf() == old(self).wf(),
    {
        self.keys.insert(e.id, e);
    }

    pub fn insert_artwork(&mut self, e: Artwork)
        ensures
            final(self)@ == (OrmV { artwork: old(self)@.artwork.insert(e.id, e), ..old(self)@ }),
            final(self).wf() == old(self).wf(),
    {
        self.artwork.insert(e.id, e);
    }

    pub fn insert_playlist(&mut self, e: Playlist)
        requires
            old(self).wf(),
        ensures
            final(self)@ == (OrmV { playlists: old(self)@.playlists.insert(e.id, e), ..old(self)@ }),
            final(self).wf(),
    {
        let id = e.id;
        if !self.playlists.contains_key(&id) {
            proof {
                assert(!self.playlist_ids@.contains(id));
            }
            self.playlist_ids.push(id);
        }
        self.playlists.insert(id, e);
        assert forall|k: u32| #[trigger] self.playlists@.contains_key(k) implies self.playlist_ids@.contains(k) by {
            if k != id {
                assert(old(self).playlists@.contains_key(k));
                let i = choose|i: int| 0 <= i < old(self).playlist_ids@.len() && old(self).playlist_ids@[i] == k;
                assert(self.playlist_ids@[i] == k);
            } else if old(self).playlists@.contains_key(id) {
                let i = choose|i: int| 0 <= i < old(self).playlist_ids@.len() && old(self).playlist_ids@[i] == k;
                assert(self.playlist_ids@[i] == k);
            } else {
                assert(self.playlist_ids@[self.playlist_ids@.len() - 1] == k);
            }
        }
    }

    pub fn insert_playlist_entry(&mut self, e: PlaylistEntry)
        ensures
            final(self)@ == (OrmV { playlist_entries: old(self)@.playlist_entries.push(e), ..old(self)@ }),
            final(self).wf() == old(self).wf(),
    {
        self.playlist_entries.push(e);
    }

    pub fn insert_track(&mut self, e: TrackWithFks)
        ensures
            final(self)@ == (OrmV { tracks: old(self)@.tracks.insert(e.track.id, e), ..old(self)@ }),
            final(self).wf() == old(self).wf(),
    {
        self.tracks.insert(e.track.id, e);
    }

    /// Number of tracks hydrated.
    pub fn track_count(&self) -> (r: usize)
        ensures
            r == self@.tracks.len(),
    {
        self.tracks.len()
    }

    /// Locate a track by ID, resolving its relations.
    pub fn find_track_by_id(&self, id: u32) -> (r: Option<Track>)
        ensures
            r == (if self@.tracks.contains_key(id) {
                Some(resolved_track(self@, self@.tracks[id]))
            } else {
                None
            }),
    {
        let row = match self.tracks.get(&id) {
            Some(row) => row,
            None => return None,
        };
        let t = &row.track;
        Some(Track {
            id: t.id,
            title: t.title.clone(),
            duration: t.duration,
            bitrate: t.bitrate,
            tempo: t.tempo,
            rating: t.rating,
            comment: t.comment.clone(),
            file_path: t.file_path.clone(),
            file_name: t.file_name.clone(),
            track_number: t.track_number,
            disc_number: t.disc_number,
            sample_rate: t.sample_rate,
            sample_depth: t.sample_depth,
            play_count: t.play_count,
            year: t.year,
            mix_name: copy_string(&t.mix_name),
            autoload_hotcues: t.autoload_hotcues,
            kuvo_public: t.kuvo_public,
            file_size: t.file_size,
            analyze_path: copy_string(&t.analyze_path),
            release_date: copy_string(&t.release_date),
            analyze_date: copy_string(&t.analyze_date),
            date_added: copy_string(&t.date_added),
            cue_and_loops: None,
            artwork: lookup(&self.artwork, row.artwork_id),
            artist: lookup(&self.artists, row.artist_id),
            original_artist: lookup(&self.artists, row.original_artist_id),
            remixer: lookup(&self.artists, row.remixer_id),
            composer: lookup(&self.artists, row.composer_id),
            album: lookup(&self.albums, row.album_id),
            label: lookup(&self.labels, row.label_id),
            genre: lookup(&self.genres, row.genre_id),
            color: lookup(&self.colors, row.color_id),
            key: lookup(&self.keys, row.key_id),
            beat_grid: None,
            waveform_hd: None,
        })
    }

    /// Query for a list of {folders, playlists, tracks} given a playlist ID.
    /// If no ID is provided the root list is queried.
    ///
    /// Note that when tracks are returned there will be no folders or
    /// playlists. But the API here is simpler to assume there could be.
    ///
    /// Tracks are returned in the order they are placed on the playlist.
    pub fn find_playlist_by_id(&self, playlist_id: Option<u32>) -> (r: PlaylistQueryResult)
        requires
            self.wf(),
        ensures
            ids_ascending(r.folders@),
            ids_ascending(r.playlists@),
            forall|p: Playlist| r.folders@.contains(p) <==> (child_of(self@, p, playlist_id) && p.is_folder),
            forall|p: Playlist| r.playlists@.contains(p) <==> (child_of(self@, p, playlist_id) && !p.is_folder),
            r.track_entries@ == match playlist_id {
                Some(id) => sorted_by_index(entries_of(self@.playlist_entries, id)),
                None => Seq::empty(),
            },
    {
        let mut folders: Vec<Playlist> = Vec::new();
        let mut playlists: Vec<Playlist> = Vec::new();
        let n = self.playlist_ids.len();
        let mut i: usize = 0;
        while i < n
            invariant
                self.wf(),
                n == self.playlist_ids@.len(),
                i <= n,
                ids_ascending(folders@),
                ids_ascending(playlists@),
                forall|q: Playlist|
                    folders@.contains(q) <==> (self.playlist_ids@.take(i as int).contains(q.id) && child_of(
                        self@,
                        q,
                        playlist_id,
                    ) && q.is_folder),
                forall|q: Playlist|
                    playlists@.contains(q) <==> (self.playlist_ids@.take(i as int).contains(q.id) && child_of(
                        self@,
                        q,
                        playlist_id,
                    ) && !q.is_folder),
            decreases n - i,
        {
            let id = self.playlist_ids[i];
            let ghost before = self.playlist_ids@.take(i as int);
            let ghost after = self.playlist_ids@.take(i + 1);
            proof {
                assert(after =~= before.push(id));
                assert forall|x: u32| after.contains(x) <==> (before.contains(x) || x == id) by {
                    if after.contains(x) {
                        let k = choose|k: int| 0 <= k < after.len() && after[k] == x;
                        if k < i {
                            assert(before[k] == x);
                        }
                    }
                    if before.contains(x) {
                        let k = choose|k: int| 0 <= k < before.len() && before[k] == x;
                        assert(after[k] == x);
                    }
                    if x == id {
                        assert(after[i as int] == x);
                    }
                }
                assert(!before.contains(id)) by {
                    if before.contains(id) {
                        let k = choose|k: int| 0 <= k < before.len() && before[k] == id;
                        assert(self.playlist_ids@[k] == self.playlist_ids@[i as int]);
                    }
                }
            }
            match self.playlists.get(&id) {
                Some(p) => {
                    let same_parent = match (p.parent_id, playlist_id) {
                        (Some(a), Some(b)) => a == b,
                        (None, None) => true,
                        _ => false,
                    };
                    if same_parent {
                        let q = p.duplicate();
                        assert(q.id == id);
                        if q.is_folder {
                            assert forall|k: int| 0 <= k < folders@.len() implies folders@[k].id != q.id by {
                                assert(folders@.contains(folders@[k]));
                            }
                            insert_by_id(&mut folders, q);
                        } else {
                            assert forall|k: int| 0 <= k < playlists@.len() implies playlists@[k].id != q.id by {
                                assert(playlists@.contains(playlists@[k]));
                            }
                            insert_by_id(&mut playlists, q);
                        }
                    }
                },
                None => {},
            }
            i = i + 1;
        }
        proof {
            assert(self.playlist_ids@.take(n as int) =~= self.playlist_ids@);
            assert forall|x: u32| self.playlist_ids@.contains(x) <==> self@.playlists.contains_key(x) by {
                if self.playlist_ids@.contains(x) {
                    let k = choose|k: int| 0 <= k < self.playlist_ids@.len() && self.playlist_ids@[k] == x;
                }
            }
        }
        let track_entries = match playlist_id {
            Some(id) => {
                let mine = entries_for(&self.playlist_entries, id);
                sort_by_index(&mine)
            },
            None => Vec::new(),
        };
        PlaylistQueryResult { folders, playlists, track_entries }
    }

    /// The type of database this store holds.
    pub fn database_type(&self) -> (r: DatabaseType)
        ensures
            r == DatabaseType::Pdb,
    {
        DatabaseType::Pdb
    }

    /// Empty every table.
    pub fn close(&mut self)
        ensures
            final(self)@ == empty_orm(),
            final(self).wf(),
    {
        *self = MetadataORM::new();
    }
}

} // verus!
