//! Playlist lookups.

use vstd::prelude::*;
use crate::localdb::database_adapter::PlaylistQueryResult;
use crate::entities::PlaylistEntry;
use crate::types::PlaylistContents;

verus! {

/// The track ids of playlist entries, in order.
pub open spec fn entry_track_ids(entries: Seq<PlaylistEntry>) -> Seq<u32> {
    entries.map_values(|e: PlaylistEntry| e.track_id)
}

/// The contents of a playlist as a local adapter reports it.
///
/// Playlist entries reference the track through `track_id`; `id` is the
/// entry's own row id (or its index, for OneLibrary), not a track.
pub fn local_contents(result: PlaylistQueryResult) -> (r: PlaylistContents)
    ensures
        r.folders == result.folders,
        r.playlists == result.playlists,
        r.track_ids@ == entry_track_ids(result.track_entries@),
        r.total_tracks == result.track_entries@.len(),
{
    let mut track_ids: Vec<u32> = Vec::new();
    let mut i: usize = 0;
    while i < result.track_entries.len()
        invariant
            i <= result.track_entries@.len(),
            track_ids@ == entry_track_ids(result.track_entries@).take(i as int),
        decreases result.track_entries@.len() - i,
    {
        track_ids.push(result.track_entries[i].track_id);
        assert(track_ids@ =~= entry_track_ids(result.track_entries@).take(i + 1));
        i = i + 1;
    }
    assert(track_ids@ =~= entry_track_ids(result.track_entries@));
    let total_tracks = track_ids.len();
    PlaylistContents { folders: result.folders, playlists: result.playlists, total_tracks, track_ids }
}

} // verus!
