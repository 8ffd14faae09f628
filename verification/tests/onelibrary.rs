use alphatheta_connect::entities::{Album, Artist, Artwork, CueAndLoop, CueColor, HotcueButton, Playlist};
use alphatheta_connect::localdb::onelibrary::adapter::{
    content_to_track, cue_to_cue_and_loop, my_tag_row_to_my_tag, playlist_contents, playlist_row_to_playlist, ContentRow,
    CueRow, MyTagRow, PlaylistRow,
};
use alphatheta_connect::localdb::onelibrary::schema::{menu_item_kind, playlist_attribute};

fn content() -> ContentRow {
    ContentRow {
        content_id: Some(12),
        title: Some("Title".into()),
        length: Some(301_000),
        bitrate: Some(320),
        bpmx100: Some(12_800),
        rating: Some(4),
        dj_comment: None,
        path: Some("/Contents/a.mp3".into()),
        file_name: Some("a.mp3".into()),
        track_no: Some(3),
        disc_no: None,
        sampling_rate: Some(44_100),
        bit_depth: Some(16),
        dj_play_count: Some(-1),
        release_year: Some(2020),
        subtitle: Some("Extended Mix".into()),
        is_hot_cue_auto_load_on: Some(1),
        is_kuvo_deliver_status_on: None,
        file_size: Some(9_000_000),
        analysis_data_file_path: Some("/PIONEER/USBANLZ/P01/ANLZ0000.DAT".into()),
        release_date: None,
        date_added: Some("2024-01-15".into()),
        image_id: Some(5),
        artwork_path: Some("/PIONEER/Artwork/a.jpg".into()),
        artist_id: Some(7),
        artist_name: Some("Artist".into()),
        original_artist_id: Some(0),
        original_artist_name: None,
        remixer_id: None,
        remixer_name: None,
        composer_id: Some(8),
        composer_name: None,
        album_id: Some(9),
        album_name: Some("Album".into()),
        genre_id: None,
        genre_name: None,
        key_id: None,
        key_name: None,
        color_id: None,
        color_name: None,
        label_id: None,
        label_name: None,
    }
}

#[test]
fn content_rows_become_tracks() {
    let t = content_to_track(&content());
    assert_eq!(t.id, 12);
    assert_eq!(t.title, "Title");
    assert_eq!(t.duration, 301_000);
    assert_eq!(t.tempo, 12_800);
    assert_eq!(t.rating, 4);
    assert_eq!(t.comment, "");
    assert_eq!(t.play_count, None);
    assert_eq!(t.mix_name.as_deref(), Some("Extended Mix"));
    assert_eq!(t.autoload_hotcues, Some(true));
    assert_eq!(t.kuvo_public, Some(false));
    assert_eq!(t.file_size, Some(9_000_000));
    assert_eq!(t.analyze_path.as_deref(), Some("/PIONEER/USBANLZ/P01/ANLZ0000"));
    assert_eq!(t.date_added.as_deref(), Some("2024-01-15"));
    assert_eq!(t.artwork, Some(Artwork { id: 5, path: Some("/PIONEER/Artwork/a.jpg".into()) }));
    assert_eq!(t.artist, Some(Artist { id: 7, name: "Artist".into() }));
    assert_eq!(t.original_artist, None);
    assert_eq!(t.composer, Some(Artist { id: 8, name: String::new() }));
    assert_eq!(t.album, Some(Album { id: 9, name: "Album".into() }));
    assert_eq!(t.genre, None);
    assert!(t.beat_grid.is_none() && t.cue_and_loops.is_none());
}

#[test]
fn empty_paths_and_dates_are_dropped() {
    let mut row = content();
    row.analysis_data_file_path = Some(String::new());
    row.date_added = Some(String::new());
    row.length = Some(0);
    let t = content_to_track(&row);
    assert_eq!(t.analyze_path, None);
    assert_eq!(t.date_added, None);
    assert_eq!(t.duration, 0);
}

fn cue(kind: i64, in_usec: i64, out_usec: Option<i64>, color: Option<i64>) -> CueRow {
    CueRow { kind: Some(kind), in_usec: Some(in_usec), out_usec, cue_comment: Some("c".into()), color_table_index: color }
}

#[test]
fn cue_rows_become_cues_and_loops() {
    assert_eq!(
        cue_to_cue_and_loop(&cue(0, 1_500_000, None, None)),
        CueAndLoop::CuePoint { offset: 1500, label: Some("c".into()), color: None }
    );
    assert_eq!(
        cue_to_cue_and_loop(&cue(2, 2_000_000, Some(6_000_000), Some(1))),
        CueAndLoop::HotLoop {
            offset: 2000,
            length: 4000,
            button: HotcueButton::B,
            label: Some("c".into()),
            color: Some(CueColor::from_u8(1)),
        }
    );
    assert_eq!(
        cue_to_cue_and_loop(&cue(9, 1_000, Some(2_999), None)),
        CueAndLoop::Loop { offset: 1, length: 1, label: Some("c".into()), color: None }
    );
    assert_eq!(
        cue_to_cue_and_loop(&cue(8, 0, Some(0), None)),
        CueAndLoop::HotCue { offset: 0, button: HotcueButton::H, label: Some("c".into()), color: None }
    );
}

#[test]
fn playlist_and_tag_rows() {
    let p = playlist_row_to_playlist(&PlaylistRow {
        playlist_id: Some(3),
        name: Some("Sets".into()),
        attribute: Some(playlist_attribute::FOLDER),
        playlist_id_parent: None,
    });
    assert_eq!(p, Playlist { id: 3, name: "Sets".into(), is_folder: true, parent_id: None });
    let t = my_tag_row_to_my_tag(&MyTagRow { my_tag_id: Some(4), name: None, attribute: Some(0), my_tag_id_parent: Some(1) });
    assert_eq!((t.id, t.name.as_str(), t.is_folder, t.parent_id), (4, "", false, Some(1)));
    assert_eq!(menu_item_kind::PLAYLIST, 132);
}

#[test]
fn playlist_contents_partition_and_number_entries() {
    let children = vec![
        Playlist { id: 1, name: "a".into(), is_folder: false, parent_id: Some(9) },
        Playlist { id: 2, name: "b".into(), is_folder: true, parent_id: Some(9) },
        Playlist { id: 3, name: "c".into(), is_folder: false, parent_id: Some(9) },
    ];
    let r = playlist_contents(children, &[(Some(9), Some(100), Some(1)), (Some(9), None, Some(2))]);
    assert_eq!(r.folders.iter().map(|p| p.id).collect::<Vec<_>>(), vec![2]);
    assert_eq!(r.playlists.iter().map(|p| p.id).collect::<Vec<_>>(), vec![1, 3]);
    assert_eq!(r.track_entries.len(), 2);
    assert_eq!((r.track_entries[0].id, r.track_entries[0].track_id, r.track_entries[0].sort_index), (0, 100, 1));
    assert_eq!((r.track_entries[1].id, r.track_entries[1].track_id), (1, 0));
}
