//! Translating rekordbox database (pdb) rows into the entities of the
//! in-memory store.

use vstd::prelude::*;
use crate::entities::{Album, Artist, Artwork, Color, Genre, Key, Label, Playlist, PlaylistEntry};
use crate::error::{Error, ParseError};
use crate::localdb::orm::{MetadataORM, OrmV, TrackWithFks};
use crate::localdb::rekordbox::entity_creators::{
    analyze_path_can_be_cut, analyze_path_cuttable, create_album, create_artist, create_artwork_entry,
    create_color, create_genre, create_key, create_label, create_playlist, create_playlist_entry, create_track,
    nonzero_id, track_created,
};
use crate::localdb::rekordbox::pdb::{
    chain_rows, header_ok, prepend, rows_model, tables_model, RekordboxPdb, Row, RowV,
};
use crate::localdb::rekordbox::table_mappings::{pdb_table, table_for};
use crate::bytes::le_u32;
use crate::localdb::rekordbox::types::HydrationProgress;
use crate::text::owned;

verus! {

/// The store after one row is inserted; `t` is the entity made of the row
/// when it is a track row.
pub open spec fn row_stored(o: OrmV, row: Row, t: TrackWithFks) -> OrmV {
    match row {
        Row::Track(_) => OrmV { tracks: o.tracks.insert(t.track.id, t), ..o },
        Row::Artist(r) => OrmV { artists: o.artists.insert(r.id, Artist { id: r.id, name: r.name }), ..o },
        Row::Genre(r) => OrmV { genres: o.genres.insert(r.id, Genre { id: r.id, name: r.name }), ..o },
        Row::Album(r) => OrmV { albums: o.albums.insert(r.id, Album { id: r.id, name: r.name }), ..o },
        Row::Label(r) => OrmV { labels: o.labels.insert(r.id, Label { id: r.id, name: r.name }), ..o },
        Row::Color(r) => OrmV { colors: o.colors.insert(r.id, Color { id: r.id, name: r.name }), ..o },
        Row::Key(r) => OrmV { keys: o.keys.insert(r.id, Key { id: r.id, name: r.name }), ..o },
        Row::Artwork(r) => OrmV { artwork: o.artwork.insert(r.id, Artwork { id: r.id, path: Some(r.path) }), ..o },
        Row::PlaylistTree(r) => OrmV {
            playlists: o.playlists.insert(
                r.id,
                Playlist { id: r.id, name: r.name, is_folder: r.raw_is_folder != 0, parent_id: nonzero_id(r.parent_id) },
            ),
            ..o
        },
        Row::PlaylistEntry(r) => OrmV {
            playlist_entries: o.playlist_entries.push(
                PlaylistEntry {
                    id: r.entry_index,
                    sort_index: r.entry_index,
                    playlist_id: r.playlist_id,
                    track_id: r.track_id,
                },
            ),
            ..o
        },
    }
}

/// The store after the rows are inserted in order; `ts[i]` is the entity
/// made of `rows[i]` when it is a track row.
pub open spec fn rows_stored(o: OrmV, rows: Seq<Row>, ts: Seq<TrackWithFks>) -> OrmV
    decreases rows.len(),
{
    if rows.len() == 0 {
        o
    } else {
        row_stored(rows_stored(o, rows.drop_last(), ts.drop_last()), rows.last(), ts.last())
    }
}

proof fn lemma_stored_artist(o: OrmV, rows: Seq<Row>, ts: Seq<TrackWithFks>, k: int, n: int)
    requires
        0 <= k < n <= rows.len(),
        rows.len() == ts.len(),
        rows[k] is Artist,
        forall|j: int| k < j < rows.len() && (#[trigger] rows[j]) is Artist ==> rows[j]->Artist_0.id != rows[k]->Artist_0.id,
    ensures
        rows_stored(o, rows.take(n), ts.take(n)).artists.contains_key(rows[k]->Artist_0.id),
        rows_stored(o, rows.take(n), ts.take(n)).artists[rows[k]->Artist_0.id] == (Artist {
            id: rows[k]->Artist_0.id,
            name: rows[k]->Artist_0.name,
        }),
    decreases n,
{
    assert(rows.take(n).drop_last() =~= rows.take(n - 1));
    assert(ts.take(n).drop_last() =~= ts.take(n - 1));
    assert(rows.take(n).last() == rows[n - 1]);
    if n - 1 > k {
        lemma_stored_artist(o, rows, ts, k, n - 1);
    }
}

proof fn lemma_stored_track(o: OrmV, rows: Seq<Row>, ts: Seq<TrackWithFks>, k: int, n: int)
    requires
        0 <= k < n <= rows.len(),
        rows.len() == ts.len(),
        rows[k] is Track,
        forall|j: int| k < j < rows.len() && (#[trigger] rows[j]) is Track ==> ts[j].track.id != ts[k].track.id,
    ensures
        rows_stored(o, rows.take(n), ts.take(n)).tracks.contains_key(ts[k].track.id),
        rows_stored(o, rows.take(n), ts.take(n)).tracks[ts[k].track.id] == ts[k],
    decreases n,
{
    assert(rows.take(n).drop_last() =~= rows.take(n - 1));
    assert(ts.take(n).drop_last() =~= ts.take(n - 1));
    assert(rows.take(n).last() == rows[n - 1]);
    assert(ts.take(n).last() == ts[n - 1]);
    if n - 1 > k {
        lemma_stored_track(o, rows, ts, k, n - 1);
    }
}

/// Hydrating rows into the store leaves each artist row in the artists,
/// found by its id with its name, and each track row's entity in the
/// tracks, found by its id, unless a later row of the same kind and id
/// replaces it.
pub proof fn law_hydrated_rows_are_found(o: OrmV, rows: Seq<Row>, ts: Seq<TrackWithFks>, k: int)
    requires
        0 <= k < rows.len(),
        rows.len() == ts.len(),
    ensures
        rows[k] is Artist && (forall|j: int|
            k < j < rows.len() && (#[trigger] rows[j]) is Artist ==> rows[j]->Artist_0.id != rows[k]->Artist_0.id)
            ==> rows_stored(o, rows, ts).artists[rows[k]->Artist_0.id] == (Artist {
            id: rows[k]->Artist_0.id,
            name: rows[k]->Artist_0.name,
        }) && rows_stored(o, rows, ts).artists.contains_key(rows[k]->Artist_0.id),
        rows[k] is Track && (forall|j: int| k < j < rows.len() && (#[trigger] rows[j]) is Track ==> ts[j].track.id != ts[k].track.id)
            ==> rows_stored(o, rows, ts).tracks[ts[k].track.id] == ts[k] && rows_stored(o, rows, ts).tracks.contains_key(
            ts[k].track.id,
        ),
{
    assert(rows.take(rows.len() as int) =~= rows);
    assert(ts.take(ts.len() as int) =~= ts);
    if rows[k] is Artist && (forall|j: int|
        k < j < rows.len() && (#[trigger] rows[j]) is Artist ==> rows[j]->Artist_0.id != rows[k]->Artist_0.id) {
        lemma_stored_artist(o, rows, ts, k, rows.len() as int);
    }
    if rows[k] is Track && (forall|j: int| k < j < rows.len() && (#[trigger] rows[j]) is Track ==> ts[j].track.id != ts[k].track.id) {
        lemma_stored_track(o, rows, ts, k, rows.len() as int);
    }
}

/// Each track row's entity is what `create_track` makes of it.
pub open spec fn tracks_created(rows: Seq<Row>, ts: Seq<TrackWithFks>) -> bool {
    &&& ts.len() == rows.len()
    &&& forall|i: int| 0 <= i < rows.len() ==> (#[trigger] rows[i] matches Row::Track(r) ==> track_created(*r, ts[i]))
}

/// True when every track row's analysis path can be cut.
pub open spec fn rows_cuttable(rows: Seq<Row>) -> bool {
    forall|i: int| 0 <= i < rows.len() ==> (#[trigger] rows[i] matches Row::Track(r) ==> analyze_path_cuttable(r.analyze_path@))
}

/// The number of progress reports for `total` rows: one every 100 rows and
/// one at the end.
pub open spec fn report_count(total: int) -> int {
    if total % 100 == 0 { total / 100 } else { total / 100 + 1 }
}

/// The number of rows saved at the `i`-th progress report.
pub open spec fn report_at(total: int, i: int) -> int {
    if (i + 1) * 100 <= total { (i + 1) * 100 } else { total }
}

/// True when `reports` are the progress reports of hydrating `total` rows
/// into the named table.
pub open spec fn reports_of(reports: Seq<HydrationProgress>, table: Seq<char>, total: int) -> bool {
    &&& reports.len() == report_count(total)
    &&& forall|i: int| 0 <= i < reports.len() ==> {
        &&& (#[trigger] reports[i]).complete == report_at(total, i)
        &&& reports[i].total == total
        &&& reports[i].table@ == table
    }
}

fn all_cuttable(rows: &[Row]) -> (r: bool)
    ensures
        r == rows_cuttable(rows@),
{
    let mut i: usize = 0;
    while i < rows.len()
        invariant
            i <= rows@.len(),
            forall|j: int| 0 <= j < i ==> (#[trigger] rows@[j] matches Row::Track(r) ==> analyze_path_cuttable(r.analyze_path@)),
        decreases rows@.len() - i,
    {
        match &rows[i] {
            Row::Track(r) => {
                if !analyze_path_can_be_cut(r) {
                    return false;
                }
            },
            _ => {},
        }
        i = i + 1;
    }
    true
}

/// Inserts the entity of each row into the store, in order, and returns the
/// progress reports: one every 100 rows and one after the last row. Fails,
/// leaving the store as it was, where a track's analysis path cannot be cut.
pub fn hydrate_rows(orm: &mut MetadataORM, table_name: &str, rows: &[Row]) -> (r: Result<Vec<HydrationProgress>, Error>)
    requires
        old(orm).wf(),
    ensures
        final(orm).wf(),
        r is Ok <==> rows_cuttable(rows@),
        r matches Ok(reports) ==> {
            &&& reports_of(reports@, table_name@, rows@.len() as int)
            &&& exists|ts: Seq<TrackWithFks>| #[trigger] tracks_created(rows@, ts)
                && final(orm)@ == rows_stored(old(orm)@, rows@, ts)
        },
        r is Err ==> final(orm)@ == old(orm)@,
        r matches Err(e) ==> e == Error::Parse(ParseError::CharBoundary),
{
    if !all_cuttable(rows) {
        return Err(Error::Parse(ParseError::CharBoundary));
    }
    let total = rows.len();
    let mut reports: Vec<HydrationProgress> = Vec::new();
    let ghost o0 = orm@;
    let ghost mut ts: Seq<TrackWithFks> = Seq::empty();
    let mut saved: usize = 0;
    assert(rows@.take(0) =~= Seq::<Row>::empty());
    while saved < total
        invariant
            total == rows@.len(),
            saved <= total,
            rows_cuttable(rows@),
            ts.len() == saved,
            forall|j: int| 0 <= j < saved ==> (#[trigger] rows@[j] matches Row::Track(r) ==> track_created(*r, ts[j])),
            orm@ == rows_stored(o0, rows@.take(saved as int), ts),
            orm.wf(),
            reports@.len() == saved / 100,
            forall|k: int| 0 <= k < reports@.len() ==> {
                &&& (#[trigger] reports@[k]).complete == report_at(total as int, k)
                &&& reports@[k].total == total
                &&& reports@[k].table@ == table_name@
            },
        decreases total - saved,
    {
        let ghost before = orm@;
        let ghost mut t: TrackWithFks = arbitrary();
        match &rows[saved] {
            Row::Track(r) => {
                assert(rows@[saved as int] matches Row::Track(r) ==> analyze_path_cuttable(r.analyze_path@));
                let e = create_track(r);
                proof {
                    t = e;
                }
                orm.insert_track(e);
            },
            Row::Artist(r) => orm.insert_artist(create_artist(r)),
            Row::Genre(r) => orm.insert_genre(create_genre(r)),
            Row::Album(r) => orm.insert_album(create_album(r)),
            Row::Label(r) => orm.insert_label(create_label(r)),
            Row::Color(r) => orm.insert_color(create_color(r)),
            Row::Key(r) => orm.insert_key(create_key(r)),
            Row::Artwork(r) => orm.insert_artwork(create_artwork_entry(r)),
            Row::PlaylistTree(r) => orm.insert_playlist(create_playlist(r)),
            Row::PlaylistEntry(r) => orm.insert_playlist_entry(create_playlist_entry(r)),
        }
        proof {
            let prefix = rows@.take(saved + 1);
            assert(prefix.drop_last() =~= rows@.take(saved as int));
            assert(ts.push(t).drop_last() =~= ts);
            assert(orm@ == row_stored(before, rows@[saved as int], t));
            ts = ts.push(t);
        }
        saved = saved + 1;

        // Report progress every 100 rows.
        if saved % 100 == 0 {
            reports.push(HydrationProgress { complete: saved, table: owned(table_name), total });
        }
    }
    // And once after the last row.
    if total % 100 != 0 {
        reports.push(HydrationProgress { complete: total, table: owned(table_name), total });
    }
    assert(rows@.take(total as int) =~= rows@);
    assert(tracks_created(rows@, ts));
    Ok(reports)
}

/// True when every track row's analysis path can be cut.
pub open spec fn rowv_cuttable(rs: Seq<RowV>) -> bool {
    forall|j: int| 0 <= j < rs.len() ==> (#[trigger] rs[j] matches RowV::Track(t) ==> analyze_path_cuttable(t.strings[14]))
}

/// The rows that hydration inserts from `tables[i..]`: those of each table
/// that maps to a store table, in table order; fails where a table cannot
/// be read or holds a track whose analysis path cannot be cut.
pub open spec fn hydrated_rows_from(
    d: Seq<u8>,
    lp: int,
    tables: Seq<crate::localdb::rekordbox::pdb::Table>,
    i: int,
) -> Option<Seq<RowV>>
    decreases tables.len() - i,
{
    if i >= tables.len() {
        Some(Seq::empty())
    } else if table_for(tables[i].page_type) is None {
        hydrated_rows_from(d, lp, tables, i + 1)
    } else {
        match chain_rows(d, lp, tables[i], tables[i].first_page as int, 0) {
            Some(rs) => if rowv_cuttable(rs) { prepend(rs, hydrated_rows_from(d, lp, tables, i + 1)) } else { None },
            None => None,
        }
    }
}

/// The rows that hydrating the pdb file `d` inserts.
pub open spec fn hydrated_rows(d: Seq<u8>) -> Option<Seq<RowV>> {
    hydrated_rows_from(d, le_u32(d, 4) as int, tables_model(d, le_u32(d, 8) as int), 0)
}

proof fn lemma_rows_stored_append(o: OrmV, a: Seq<Row>, ta: Seq<TrackWithFks>, b: Seq<Row>, tb: Seq<TrackWithFks>)
    requires
        ta.len() == a.len(),
        tb.len() == b.len(),
    ensures
        rows_stored(o, a + b, ta + tb) == rows_stored(rows_stored(o, a, ta), b, tb),
    decreases b.len(),
{
    if b.len() == 0 {
        assert(a + b =~= a);
        assert(ta + tb =~= ta);
    } else {
        lemma_rows_stored_append(o, a, ta, b.drop_last(), tb.drop_last());
        assert((a + b).drop_last() =~= a + b.drop_last());
        assert((ta + tb).drop_last() =~= ta + tb.drop_last());
    }
}

proof fn lemma_cuttable_model(rows: Seq<Row>)
    ensures
        rows_cuttable(rows) <==> rowv_cuttable(rows_model(rows)),
{
    assert forall|j: int| 0 <= j < rows.len() implies (#[trigger] rows[j] matches Row::Track(r) ==> analyze_path_cuttable(
        r.analyze_path@,
    )) <==> (rows_model(rows)[j] matches RowV::Track(t) ==> analyze_path_cuttable(t.strings[14])) by {
        assert(rows_model(rows)[j] == rows[j]@);
    }
    if rowv_cuttable(rows_model(rows)) {
        assert forall|j: int| 0 <= j < rows.len() implies (#[trigger] rows[j] matches Row::Track(r)
            ==> analyze_path_cuttable(r.analyze_path@)) by {
            assert(rows_model(rows)[j] == rows[j]@);
        }
    }
    if rows_cuttable(rows) {
        assert forall|j: int| 0 <= j < rows_model(rows).len() implies (#[trigger] rows_model(rows)[j] matches RowV::Track(t)
            ==> analyze_path_cuttable(t.strings[14])) by {
            assert(rows_model(rows)[j] == rows[j]@);
        }
    }
}

proof fn lemma_extend(o: OrmV, done: Seq<Row>, ts: Seq<TrackWithFks>, rows: Seq<Row>, ts2: Seq<TrackWithFks>)
    requires
        tracks_created(done, ts),
        tracks_created(rows, ts2),
    ensures
        tracks_created(done + rows, ts + ts2),
        rows_stored(o, done + rows, ts + ts2) == rows_stored(rows_stored(o, done, ts), rows, ts2),
        rows_model(done + rows) == rows_model(done) + rows_model(rows),
{
    lemma_rows_stored_append(o, done, ts, rows, ts2);
    assert(rows_model(done + rows) =~= rows_model(done) + rows_model(rows));
    assert forall|j: int| 0 <= j < (done + rows).len() implies (#[trigger] (done + rows)[j] matches Row::Track(r)
        ==> track_created(*r, (ts + ts2)[j])) by {
        if j >= done.len() {
            assert((done + rows)[j] == rows[j - done.len()]);
            assert(rows[j - done.len()] matches Row::Track(r) ==> track_created(*r, ts2[j - done.len()]));
        } else {
            assert((done + rows)[j] == done[j]);
            assert(done[j] matches Row::Track(r) ==> track_created(*r, ts[j]));
        }
    }
}

proof fn lemma_prepend_join(a: Seq<RowV>, b: Seq<RowV>, o: Option<Seq<RowV>>)
    ensures
        prepend(a, prepend(b, o)) == prepend(a + b, o),
{
    if let Some(s) = o {
        assert(a + (b + s) =~= (a + b) + s);
    }
}

/// Extract the rows of a rekordbox pdb file and hydrate the store with the
/// entities made of them, table by table. Returns the progress reports of
/// each table in turn.
pub fn hydrate_from_pdb(orm: &mut MetadataORM, pdb_data: &[u8]) -> (r: Result<Vec<HydrationProgress>, Error>)
    requires
        old(orm).wf(),
    ensures
        final(orm).wf(),
        r is Ok <==> header_ok(pdb_data@) && hydrated_rows(pdb_data@) is Some,
        r is Ok ==> exists|rows: Seq<Row>, ts: Seq<TrackWithFks>| {
            &&& Some(rows_model(rows)) == hydrated_rows(pdb_data@)
            &&& #[trigger] tracks_created(rows, ts)
            &&& final(orm)@ == rows_stored(old(orm)@, rows, ts)
        },
        r matches Err(e) ==> e is Parse,
{
    let db = RekordboxPdb::parse(pdb_data)?;
    let ghost d = pdb_data@;
    let ghost lp = db.len_page as int;
    let ghost whole = hydrated_rows_from(d, lp, db.tables@, 0);
    let ghost o0 = orm@;
    let ghost mut done: Seq<Row> = Seq::empty();
    let ghost mut ts: Seq<TrackWithFks> = Seq::empty();
    let mut reports: Vec<HydrationProgress> = Vec::new();
    proof {
        assert(rows_model(done) =~= Seq::<RowV>::empty());
        lemma_prepend_join(Seq::empty(), Seq::empty(), whole);
        assert(Seq::<RowV>::empty() + Seq::<RowV>::empty() =~= Seq::<RowV>::empty());
        if let Some(s) = whole {
            assert(Seq::<RowV>::empty() + s =~= s);
        }
    }
    assert(whole == hydrated_rows(pdb_data@));
    let mut i: usize = 0;
    while i < db.tables.len()
        invariant
            whole == hydrated_rows(pdb_data@),
            d == db.data@,
            lp == db.len_page,
            i <= db.tables@.len(),
            whole == hydrated_rows_from(d, lp, db.tables@, 0),
            whole == prepend(rows_model(done), hydrated_rows_from(d, lp, db.tables@, i as int)),
            tracks_created(done, ts),
            orm@ == rows_stored(o0, done, ts),
            orm.wf(),
        decreases db.tables@.len() - i,
    {
        let table = db.tables[i];
        let ghost rest = hydrated_rows_from(d, lp, db.tables@, i + 1);
        match pdb_table(table.page_type) {
            None => {},
            Some(orm_table) => {
                let rows = match db.table_rows(&table) {
                    Ok(rows) => rows,
                    Err(e) => {
                        assert(table == db.tables@[i as int]);
                        assert(hydrated_rows_from(d, lp, db.tables@, i as int) is None);
                        return Err(e);
                    },
                };
                let ghost mid = orm@;
                proof {
                    lemma_cuttable_model(rows@);
                }
                let mut found = match hydrate_rows(orm, orm_table.name(), rows.as_slice()) {
                    Ok(found) => found,
                    Err(e) => {
                        assert(table == db.tables@[i as int]);
                        assert(hydrated_rows_from(d, lp, db.tables@, i as int) is None);
                        return Err(e);
                    },
                };
                reports.append(&mut found);
                proof {
                    let ts2 = choose|ts2: Seq<TrackWithFks>| #[trigger] tracks_created(rows@, ts2)
                        && orm@ == rows_stored(mid, rows@, ts2);
                    lemma_extend(o0, done, ts, rows@, ts2);
                    lemma_prepend_join(rows_model(done), rows_model(rows@), rest);
                    done = done + rows@;
                    ts = ts + ts2;
                }
            },
        }
        i = i + 1;
    }
    proof {
        if let Some(s) = whole {
            assert(rows_model(done) + Seq::<RowV>::empty() =~= rows_model(done));
        }
    }
    Ok(reports)
}

} // verus!
