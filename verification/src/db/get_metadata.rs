//! Track metadata lookups: what a local lookup answers, and what a remote
//! one asks the player for.

use vstd::prelude::*;
use crate::entities::Track;
use crate::localdb::database_adapter::DatabaseType;
use crate::types::{BeatGrid, TrackType};

verus! {

/// Why a local database lookup produced no track.
#[derive(Debug, Clone, Copy, PartialEq, Eq, Structural)]
pub enum LocalMiss {
    /// No rekordbox database is loaded for that device slot.
    NoDatabase,
    /// The database is loaded, but holds no track with that id.
    TrackAbsent,
}

/// The outcome of a local metadata lookup.
#[derive(Debug, Clone, PartialEq)]
pub struct LocalResult {
    pub track: Option<Track>,
    /// Why there is no track, where there is none.
    pub miss: Option<LocalMiss>,
    /// Set when answering meant switching the slot to its other database
    /// format: the type the slot is now served from.
    pub switched_to: Option<DatabaseType>,
}

/// The answer of a local lookup: a miss where the slot has no database or
/// its database no such track; else the track with the beat grid of its
/// analysis file (none where it has none) and no HD waveform.
pub open spec fn local_answer(
    has_database: bool,
    track: Option<Track>,
    beat_grid: Option<BeatGrid>,
    switched_to: Option<DatabaseType>,
) -> LocalResult {
    if !has_database {
        LocalResult { track: None, miss: Some(LocalMiss::NoDatabase), switched_to: None }
    } else {
        match track {
            None => LocalResult { track: None, miss: Some(LocalMiss::TrackAbsent), switched_to: None },
            Some(t) => LocalResult {
                track: Some(Track { beat_grid, waveform_hd: None, ..t }),
                miss: None,
                switched_to,
            },
        }
    }
}

/// What a local lookup answers, from whether the slot had a database, the
/// row it gave, the beat grid read from the row's analysis file, and the
/// format switched to while answering.
pub fn local_result(
    has_database: bool,
    track: Option<Track>,
    beat_grid: Option<BeatGrid>,
    switched_to: Option<DatabaseType>,
) -> (r: LocalResult)
    ensures
        r == local_answer(has_database, track, beat_grid, switched_to),
{
    if !has_database {
        return LocalResult { track: None, miss: Some(LocalMiss::NoDatabase), switched_to: None };
    }
    match track {
        None => LocalResult { track: None, miss: Some(LocalMiss::TrackAbsent), switched_to: None },
        Some(mut t) => {
            t.beat_grid = beat_grid;
            t.waveform_hd = None;
            LocalResult { track: Some(t), miss: None, switched_to }
        },
    }
}

/// What a remote lookup asks the player for.
#[derive(Debug, Clone, Copy, PartialEq, Eq, Structural)]
pub struct RemoteLookupPlan {
    /// Ask for the generic metadata (unanalysed and audio CD tracks) rather
    /// than the rekordbox metadata.
    pub generic_metadata: bool,
    /// The file path may be missing: such tracks have no file on the media.
    pub path_optional: bool,
    /// Ask for the beat grid.
    pub beat_grid: bool,
}

/// Unanalysed and audio CD tracks carry generic metadata only; they and
/// streamed tracks have no local file, so neither a file path nor a beat
/// grid is required of them.
pub open spec fn remote_plan(t: TrackType) -> RemoteLookupPlan {
    let unanalyzed = t == TrackType::Unanalyzed || t == TrackType::AudioCd;
    let skip = unanalyzed || t == TrackType::Streaming;
    RemoteLookupPlan { generic_metadata: unanalyzed, path_optional: skip, beat_grid: !skip }
}

pub fn remote_lookup_plan(track_type: TrackType) -> (r: RemoteLookupPlan)
    ensures
        r == remote_plan(track_type),
{
    let is_unanalyzed = match track_type {
        TrackType::Unanalyzed | TrackType::AudioCd => true,
        _ => false,
    };
    let is_streaming = match track_type {
        TrackType::Streaming => true,
        _ => false,
    };
    let skip_local_file_lookups = is_unanalyzed || is_streaming;
    RemoteLookupPlan {
        generic_metadata: is_unanalyzed,
        path_optional: skip_local_file_lookups,
        beat_grid: !skip_local_file_lookups,
    }
}


/// What follows a local lookup.
#[derive(Debug, Clone, PartialEq)]
pub enum LocalFollowUp {
    /// The lookup answered (with a track, or with none).
    Answer(Option<Track>),
    /// The local database missed: the player's own database is asked, and
    /// the miss is reported with its reason.
    AskRemote(LocalMiss),
}

/// A local miss is not the end of a lookup: the remote database gets a
/// chance to answer. Otherwise the local answer stands.
pub fn after_local(r: LocalResult) -> (f: LocalFollowUp)
    ensures
        f == match r.miss {
            Some(m) => LocalFollowUp::AskRemote(m),
            None => LocalFollowUp::Answer(r.track),
        },
{
    match r.miss {
        Some(m) => LocalFollowUp::AskRemote(m),
        None => LocalFollowUp::Answer(r.track),
    }
}

} // verus!
