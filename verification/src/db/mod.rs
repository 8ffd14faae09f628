//! The database service: what the lookups compute from what the local
//! databases and analysis files hand back.

pub mod get_artwork_from_file;
pub mod get_metadata;
pub mod get_playlist;
pub mod get_track_analysis;

use vstd::prelude::*;
use crate::error::Error;
use crate::text::owned;
use crate::types::{Device, DeviceType, MediaSlot, TrackType};

verus! {

/// Where a lookup can be answered from.
#[derive(Debug, Clone, Copy, PartialEq, Eq, Hash, Structural)]
pub enum LookupStrategy {
    Remote,
    Local,
    NoneAvailable,
}

/// Where a track of `track_type` on `device` is looked up: unanalysed,
/// audio CD and streaming tracks on a CDJ through the remote database (they
/// have no local one), rekordbox tracks on a CDJ locally, anything on
/// rekordbox itself remotely, and nothing else.
pub open spec fn track_strategy(device_type: DeviceType, track_type: TrackType) -> LookupStrategy {
    match device_type {
        DeviceType::Cdj => match track_type {
            TrackType::Rb => LookupStrategy::Local,
            _ => LookupStrategy::Remote,
        },
        DeviceType::Rekordbox => LookupStrategy::Remote,
        _ => LookupStrategy::NoneAvailable,
    }
}

/// Where the media in `slot` of `device` is browsed: rekordbox answers for
/// its own collection only, players from their local databases.
pub open spec fn media_strategy(device_type: DeviceType, slot: MediaSlot) -> LookupStrategy {
    match device_type {
        DeviceType::Rekordbox => if slot == MediaSlot::Rb {
            LookupStrategy::Remote
        } else {
            LookupStrategy::NoneAvailable
        },
        _ => LookupStrategy::Local,
    }
}

pub fn track_lookup_strategy(device: &Device, track_type: TrackType) -> (r: LookupStrategy)
    ensures
        r == track_strategy(device.device_type, track_type),
{
    let is_unanalyzed = match track_type {
        TrackType::AudioCd | TrackType::Unanalyzed => true,
        _ => false,
    };
    let is_streaming = match track_type {
        TrackType::Streaming => true,
        _ => false,
    };

    // Unanalyzed and streaming tracks on CDJs must use RemoteDB
    // (streaming services like Beatport have no local database)
    if device.device_type == DeviceType::Cdj && (is_unanalyzed || is_streaming) {
        return LookupStrategy::Remote;
    }

    match (device.device_type, track_type) {
        (DeviceType::Rekordbox, _) => LookupStrategy::Remote,
        (DeviceType::Cdj, TrackType::Rb) => LookupStrategy::Local,
        _ => LookupStrategy::NoneAvailable,
    }
}

pub fn media_lookup_strategy(device: &Device, slot: MediaSlot) -> (r: LookupStrategy)
    ensures
        r == media_strategy(device.device_type, slot),
{
    match (device.device_type, slot) {
        (DeviceType::Rekordbox, MediaSlot::Rb) => LookupStrategy::Remote,
        (DeviceType::Rekordbox, _) => LookupStrategy::NoneAvailable,
        _ => LookupStrategy::Local,
    }
}


/// The message of a local lookup on a slot that holds no database.
pub open spec fn not_a_database_slot_text() -> Seq<char> {
    "Expected USB or SD slot for local database query"@
}

/// A local database lookup needs a USB or SD slot.
pub fn require_database_slot(slot: MediaSlot) -> (r: Result<(), Error>)
    ensures
        r is Ok <==> (slot == MediaSlot::Usb || slot == MediaSlot::Sd),
        r matches Err(e) ==> (e matches Error::State(m) && m@ == not_a_database_slot_text()),
{
    if slot.is_database_slot() {
        Ok(())
    } else {
        let m = "Expected USB or SD slot for local database query";
        proof {
            reveal_strlit("Expected USB or SD slot for local database query");
        }
        Err(Error::State(owned(m)))
    }
}

} // verus!
