use alphatheta_connect::error::Error;
use alphatheta_connect::localdb::database_adapter::{DatabasePreference, DatabaseType};
use alphatheta_connect::localdb::slots::{
    alternate_format, is_local_database_device, load_plan, one_library_missing, Alternate, LoadPlan, SlotDatabases, SlotEntry,
};
use alphatheta_connect::types::{Device, DeviceType, MediaSlot};

fn entry(media_id: &str, device_id: u8, slot: MediaSlot, active: &'static str) -> SlotEntry<&'static str> {
    SlotEntry { media_id: media_id.into(), device_id, slot, active, alternate: Alternate::Untried }
}

#[test]
fn only_player_cdjs_get_local_databases() {
    let cdj = |id| Device::new("CDJ".into(), id, DeviceType::Cdj, [0; 6], [0; 4]);
    assert!(is_local_database_device(&cdj(1)));
    assert!(is_local_database_device(&cdj(6)));
    assert!(!is_local_database_device(&cdj(7)));
    assert!(!is_local_database_device(&Device::new("rb".into(), 3, DeviceType::Rekordbox, [0; 6], [0; 4])));
}

#[test]
fn formats_tried_under_each_preference() {
    assert_eq!(load_plan(DatabasePreference::Pdb), LoadPlan { first: DatabaseType::Pdb, fallback: None });
    assert_eq!(load_plan(DatabasePreference::OneLibrary), LoadPlan { first: DatabaseType::OneLibrary, fallback: None });
    assert_eq!(
        load_plan(DatabasePreference::Auto),
        LoadPlan { first: DatabaseType::OneLibrary, fallback: Some(DatabaseType::Pdb) }
    );
    assert_eq!(alternate_format(DatabasePreference::Auto, DatabaseType::Pdb), Some(DatabaseType::OneLibrary));
    assert_eq!(alternate_format(DatabasePreference::Pdb, DatabaseType::Pdb), None);
    match one_library_missing() {
        Error::Database(m) => assert_eq!(m, "OneLibrary database not found and preference is set to oneLibrary only"),
        other => panic!("{other:?}"),
    }
}

#[test]
fn registry_finds_switches_and_forgets() {
    let mut dbs = SlotDatabases::new();
    dbs.add(entry("m1", 1, MediaSlot::Usb, "pdb-1"));
    dbs.add(entry("m2", 2, MediaSlot::Sd, "pdb-2"));
    dbs.add(entry("m3", 1, MediaSlot::Sd, "one-3"));
    assert_eq!(dbs.find_media("m2"), Some(1));
    assert_eq!(dbs.find_media("nope"), None);
    assert_eq!(dbs.find_slot(1, MediaSlot::Sd), Some(2));
    assert_eq!(dbs.find_slot(2, MediaSlot::Usb), None);

    dbs.set_alternate(0, Alternate::Loaded("one-1"));
    dbs.switch_to_alternate(0);
    assert_eq!(dbs.entry(0).active, "one-1");
    assert!(matches!(dbs.entry(0).alternate, Alternate::Loaded("pdb-1")));
    dbs.switch_to_alternate(0);
    assert_eq!(dbs.entry(0).active, "pdb-1");

    dbs.set_alternate(1, Alternate::Missing);
    dbs.switch_to_alternate(1);
    assert_eq!(dbs.entry(1).active, "pdb-2");

    let gone = dbs.remove_device(1);
    assert_eq!(gone.iter().map(|e| e.active).collect::<Vec<_>>(), vec!["pdb-1", "one-3"]);
    assert_eq!(dbs.len(), 1);
    assert_eq!(dbs.entry(0).media_id, "m2");
}
