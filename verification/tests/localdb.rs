use alphatheta_connect::entities::{Artist, Genre, Playlist, PlaylistEntry};
use alphatheta_connect::localdb::database_adapter::DatabaseType;
use alphatheta_connect::localdb::onelibrary::encryption::get_encryption_key;
use alphatheta_connect::localdb::orm::MetadataORM;
use alphatheta_connect::localdb::rekordbox::entity_creators::create_track;
use alphatheta_connect::localdb::rekordbox::hydrator::hydrate_rows;
use alphatheta_connect::localdb::rekordbox::pdb::{IdNameRow, PlaylistEntryRow, PlaylistTreeRow, Row, TrackRow};
use alphatheta_connect::localdb::{get_media_id, ONE_LIBRARY_PATH, PDB_PATH};
use alphatheta_connect::types::{MediaColor, MediaSlot, MediaSlotInfo, TrackType};

fn slot_info() -> MediaSlotInfo {
    MediaSlotInfo {
        device_id: 2,
        slot: MediaSlot::Usb,
        name: "STICK".into(),
        color: MediaColor::Default,
        created_date: None,
        free_bytes: 1,
        total_bytes: 2,
        tracks_type: TrackType::Rb,
        track_count: 3,
        playlist_count: 0,
        has_settings: false,
    }
}

#[test]
fn media_id_is_stable_and_distinct() {
    let a = slot_info();
    let mut b = a.clone();
    b.track_count = 4;
    assert_eq!(get_media_id(&a), get_media_id(&a));
    assert_ne!(get_media_id(&a), get_media_id(&b));
    assert_eq!(get_media_id(&a).len(), 64);
}

#[test]
fn media_id_is_the_sha256_of_the_joined_fields() {
    // sha256("2.3.STICK.1.2.3.Invalid Date")
    let id = get_media_id(&slot_info());
    assert!(id.chars().all(|c| c.is_ascii_hexdigit() && !c.is_ascii_uppercase()));
    let mut dated = slot_info();
    dated.created_date = Some("2024-01-15T00:00:00+00:00".into());
    assert_ne!(get_media_id(&dated), id);
}

#[test]
fn database_paths() {
    assert_eq!(ONE_LIBRARY_PATH, "PIONEER/rekordbox/exportLibrary.db");
    assert_eq!(PDB_PATH, "PIONEER/rekordbox/export.pdb");
}

#[test]
fn derives_the_key() {
    let key = get_encryption_key().unwrap();
    assert!(key.starts_with("r8gd"));
    assert!(key.len() > 10);
}

fn playlist(id: u32, name: &str, is_folder: bool, parent_id: Option<u32>) -> Playlist {
    Playlist { id, name: name.into(), is_folder, parent_id }
}

#[test]
fn playlist_query_sorts_children_and_entries() {
    let mut orm = MetadataORM::new();
    orm.insert_playlist(playlist(9, "Sets", true, None));
    orm.insert_playlist(playlist(3, "House", false, Some(9)));
    orm.insert_playlist(playlist(1, "Techno", false, Some(9)));
    orm.insert_playlist(playlist(5, "Old", true, Some(9)));
    orm.insert_playlist(playlist(2, "Root list", false, None));
    orm.insert_playlist_entry(PlaylistEntry { id: 1, sort_index: 2, playlist_id: 3, track_id: 30 });
    orm.insert_playlist_entry(PlaylistEntry { id: 2, sort_index: 1, playlist_id: 3, track_id: 10 });
    orm.insert_playlist_entry(PlaylistEntry { id: 3, sort_index: 1, playlist_id: 4, track_id: 99 });
    orm.insert_playlist_entry(PlaylistEntry { id: 4, sort_index: 1, playlist_id: 3, track_id: 20 });

    let root = orm.find_playlist_by_id(None);
    assert_eq!(root.folders, vec![playlist(9, "Sets", true, None)]);
    assert_eq!(root.playlists, vec![playlist(2, "Root list", false, None)]);
    assert!(root.track_entries.is_empty());

    let sets = orm.find_playlist_by_id(Some(9));
    assert_eq!(sets.folders, vec![playlist(5, "Old", true, Some(9))]);
    assert_eq!(sets.playlists, vec![playlist(1, "Techno", false, Some(9)), playlist(3, "House", false, Some(9))]);

    let house = orm.find_playlist_by_id(Some(3));
    let ids: Vec<u32> = house.track_entries.iter().map(|e| e.track_id).collect();
    // by sort index, equal indices in the order they were stored
    assert_eq!(ids, vec![10, 20, 30]);
}

#[test]
fn replacing_a_playlist_keeps_one_entry() {
    let mut orm = MetadataORM::new();
    orm.insert_playlist(playlist(4, "A", false, None));
    orm.insert_playlist(playlist(4, "B", false, None));
    let root = orm.find_playlist_by_id(None);
    assert_eq!(root.playlists, vec![playlist(4, "B", false, None)]);
}

#[test]
fn stored_tracks_resolve_their_relations() {
    let mut orm = MetadataORM::new();
    assert_eq!(orm.database_type(), DatabaseType::Pdb);
    orm.insert_artist(Artist { id: 7, name: "Artist".into() });
    orm.insert_genre(Genre { id: 8, name: "Techno".into() });
    let row = TrackRow {
        id: 42,
        title: "Track".into(),
        artist_id: 7,
        genre_id: 8,
        album_id: 11,
        tempo: 12800,
        duration: 300,
        analyze_path: "/PIONEER/USBANLZ/P000/ANLZ0000.DAT".into(),
        ..Default::default()
    };
    orm.insert_track(create_track(&row));
    assert_eq!(orm.track_count(), 1);
    let t = orm.find_track_by_id(42).unwrap();
    assert_eq!(t.title, "Track");
    assert_eq!(t.artist, Some(Artist { id: 7, name: "Artist".into() }));
    assert_eq!(t.genre, Some(Genre { id: 8, name: "Techno".into() }));
    // album 11 was never stored
    assert_eq!(t.album, None);
    assert_eq!(t.analyze_path.as_deref(), Some("/PIONEER/USBANLZ/P000/ANLZ0000"));
    assert!(orm.find_track_by_id(43).is_none());
    orm.close();
    assert_eq!(orm.track_count(), 0);
}

#[test]
fn hydration_reports_every_hundred_rows() {
    let mut orm = MetadataORM::new();
    let rows: Vec<Row> = (1..=250u32).map(|i| Row::Genre(IdNameRow { id: i, name: format!("g{i}") })).collect();
    let reports = hydrate_rows(&mut orm, "genre", &rows).unwrap();
    let complete: Vec<usize> = reports.iter().map(|r| r.complete).collect();
    assert_eq!(complete, vec![100, 200, 250]);
    assert!(reports.iter().all(|r| r.total == 250 && r.table == "genre"));
}

#[test]
fn hydration_stores_playlist_rows() {
    let mut orm = MetadataORM::new();
    let rows = vec![
        Row::PlaylistTree(PlaylistTreeRow { parent_id: 0, sort_order: 0, id: 1, raw_is_folder: 1, name: "Folder".into() }),
        Row::PlaylistTree(PlaylistTreeRow { parent_id: 1, sort_order: 0, id: 2, raw_is_folder: 0, name: "List".into() }),
        Row::PlaylistEntry(PlaylistEntryRow { entry_index: 1, track_id: 5, playlist_id: 2 }),
    ];
    let reports = hydrate_rows(&mut orm, "playlist", &rows).unwrap();
    assert_eq!(reports.len(), 1);
    assert_eq!(reports[0].complete, 3);
    let root = orm.find_playlist_by_id(None);
    assert_eq!(root.folders.len(), 1);
    assert_eq!(root.folders[0].name, "Folder");
    let list = orm.find_playlist_by_id(Some(2));
    assert_eq!(list.track_entries.len(), 1);
    assert_eq!(list.track_entries[0].track_id, 5);
}
