use alphatheta_connect::db::get_artwork_from_file::file_extraction_extension;
use alphatheta_connect::db::get_playlist::local_contents;
use alphatheta_connect::db::{media_lookup_strategy, require_database_slot, track_lookup_strategy, LookupStrategy};
use alphatheta_connect::entities::PlaylistEntry;
use alphatheta_connect::error::Error;
use alphatheta_connect::localdb::database_adapter::PlaylistQueryResult;
use alphatheta_connect::types::{Device, DeviceType, MediaSlot, TrackType};

#[test]
fn local_entries_resolve_through_their_track_id() {
    // Entry ids are numbered independently of the tracks they reference,
    // the shape both the pdb store and the OneLibrary adapter produce.
    let result = PlaylistQueryResult {
        folders: Vec::new(),
        playlists: Vec::new(),
        track_entries: vec![
            PlaylistEntry { id: 1, sort_index: 0, playlist_id: 5, track_id: 20 },
            PlaylistEntry { id: 2, sort_index: 1, playlist_id: 5, track_id: 10 },
        ],
    };

    let contents = local_contents(result);
    assert_eq!(contents.total_tracks, 2);
    assert_eq!(contents.track_ids, vec![20, 10]);
}

fn dev(t: DeviceType) -> Device {
    Device::new("x".to_string(), 1, t, [0; 6], [127, 0, 0, 1])
}

#[test]
fn strategies() {
    assert_eq!(track_lookup_strategy(&dev(DeviceType::Cdj), TrackType::Rb), LookupStrategy::Local);
    assert_eq!(track_lookup_strategy(&dev(DeviceType::Cdj), TrackType::Unanalyzed), LookupStrategy::Remote);
    assert_eq!(track_lookup_strategy(&dev(DeviceType::Cdj), TrackType::Streaming), LookupStrategy::Remote);
    assert_eq!(track_lookup_strategy(&dev(DeviceType::Rekordbox), TrackType::Rb), LookupStrategy::Remote);
    assert_eq!(track_lookup_strategy(&dev(DeviceType::Mixer), TrackType::Rb), LookupStrategy::NoneAvailable);
    assert_eq!(media_lookup_strategy(&dev(DeviceType::Rekordbox), MediaSlot::Rb), LookupStrategy::Remote);
    assert_eq!(media_lookup_strategy(&dev(DeviceType::Rekordbox), MediaSlot::Usb), LookupStrategy::NoneAvailable);
    assert_eq!(media_lookup_strategy(&dev(DeviceType::Cdj), MediaSlot::Usb), LookupStrategy::Local);
}

#[test]
fn audio_cd_tracks_on_a_cdj_go_remote() {
    assert_eq!(track_lookup_strategy(&dev(DeviceType::Cdj), TrackType::AudioCd), LookupStrategy::Remote);
    assert_eq!(track_lookup_strategy(&dev(DeviceType::Stagehand), TrackType::Streaming), LookupStrategy::NoneAvailable);
}

#[test]
fn local_lookups_need_a_usb_or_sd_slot() {
    assert!(require_database_slot(MediaSlot::Usb).is_ok());
    assert!(require_database_slot(MediaSlot::Sd).is_ok());
    match require_database_slot(MediaSlot::Cd) {
        Err(Error::State(m)) => assert_eq!(m, "Expected USB or SD slot for local database query"),
        other => panic!("{other:?}"),
    }
}

use alphatheta_connect::db::get_metadata::{after_local, local_result, remote_lookup_plan, LocalFollowUp, LocalMiss};
use alphatheta_connect::localdb::database_adapter::DatabaseType;
use alphatheta_connect::localdb::rekordbox::entity_creators::create_track;
use alphatheta_connect::localdb::rekordbox::pdb::TrackRow;
use alphatheta_connect::types::Beat;

#[test]
fn local_lookups_report_their_misses() {
    let none = local_result(false, None, None, None);
    assert_eq!(none.miss, Some(LocalMiss::NoDatabase));
    assert_eq!(after_local(none), LocalFollowUp::AskRemote(LocalMiss::NoDatabase));
    let absent = local_result(true, None, None, Some(DatabaseType::Pdb));
    assert_eq!(absent.miss, Some(LocalMiss::TrackAbsent));
    assert_eq!(absent.switched_to, None);

    let mut track = create_track(&TrackRow { id: 5, title: "T".into(), ..Default::default() }).track;
    track.waveform_hd = Some(vec![1, 2]);
    let grid = vec![Beat { offset: 0, tempo: 12800, count: 1 }];
    let found = local_result(true, Some(track), Some(grid.clone()), Some(DatabaseType::OneLibrary));
    let t = found.track.clone().unwrap();
    assert_eq!(t.beat_grid, Some(grid));
    assert_eq!(t.waveform_hd, None);
    assert_eq!(found.switched_to, Some(DatabaseType::OneLibrary));
    assert_eq!(after_local(found), LocalFollowUp::Answer(Some(t)));
}

#[test]
fn remote_lookups_by_track_type() {
    let rb = remote_lookup_plan(TrackType::Rb);
    assert!(!rb.generic_metadata && !rb.path_optional && rb.beat_grid);
    let cd = remote_lookup_plan(TrackType::AudioCd);
    assert!(cd.generic_metadata && cd.path_optional && !cd.beat_grid);
    let stream = remote_lookup_plan(TrackType::Streaming);
    assert!(!stream.generic_metadata && stream.path_optional && !stream.beat_grid);
}

#[test]
fn file_artwork_is_extracted_by_lowercased_extension() {
    assert_eq!(file_extraction_extension(true, "/Contents/Artist/Song.MP3"), Some("mp3".to_string()));
    assert_eq!(file_extraction_extension(true, "/a.b/track.flac"), Some("flac".to_string()));
    assert_eq!(file_extraction_extension(true, "/Contents/song.wav"), None);
    assert_eq!(file_extraction_extension(true, ""), None);
    assert_eq!(file_extraction_extension(false, "/Contents/song.mp3"), None);
    // A file name without a dot has no extension, whatever its directories hold.
    assert_eq!(file_extraction_extension(true, "aiff"), None);
    assert_eq!(file_extraction_extension(true, "/Music.mp3/track"), None);
}
