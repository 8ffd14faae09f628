use alphatheta_connect::localdb::orm::MetadataORM;
use alphatheta_connect::localdb::rekordbox::hydrator::hydrate_from_pdb;
use alphatheta_connect::localdb::rekordbox::pdb::{device_sql_string, IdNameRow, RekordboxPdb, Row};

#[test]
fn device_sql_strings_decode() {
    // short ascii "abc": mangled = ((3 + 1) * 2) + 1 = 9
    let mut d = vec![9u8];
    d.extend_from_slice(b"abc");
    assert_eq!(device_sql_string(&d, 0).unwrap(), "abc");

    // long ascii
    let mut d = vec![0x40, 3, 0];
    d.extend_from_slice(b"xyz");
    assert_eq!(device_sql_string(&d, 0).unwrap(), "xyz");

    // long utf16le: length includes the 4 header bytes
    let mut d = vec![0x90, 8, 0, 0];
    d.extend_from_slice(&[b'h', 0, b'i', 0]);
    assert_eq!(device_sql_string(&d, 0).unwrap(), "hi");

    // even mangled length is invalid -> empty
    assert_eq!(device_sql_string(&[4u8, b'a'], 0).unwrap(), "");
    // mangled 1 -> length -1 -> empty
    assert_eq!(device_sql_string(&[1u8], 0).unwrap(), "");
}

/// A two-page pdb holding one genre table with one row.
fn genre_pdb() -> Vec<u8> {
    let len_page = 256usize;
    let mut file = vec![0u8; len_page * 3];
    // header
    file[4..8].copy_from_slice(&(len_page as u32).to_le_bytes());
    file[8..12].copy_from_slice(&1u32.to_le_bytes()); // num_tables
    // table 0: genres, first page 1, last page 2
    file[28..32].copy_from_slice(&1u32.to_le_bytes());
    file[36..40].copy_from_slice(&1u32.to_le_bytes());
    file[40..44].copy_from_slice(&2u32.to_le_bytes());

    // page 1: a non-data page linking to page 2
    let p1 = len_page;
    file[p1 + 4..p1 + 8].copy_from_slice(&1u32.to_le_bytes());
    file[p1 + 8..p1 + 12].copy_from_slice(&1u32.to_le_bytes());
    file[p1 + 12..p1 + 16].copy_from_slice(&2u32.to_le_bytes());
    file[p1 + 27] = 0x40; // not a data page

    // page 2: one genre row at heap offset 0
    let p2 = len_page * 2;
    file[p2 + 4..p2 + 8].copy_from_slice(&2u32.to_le_bytes());
    file[p2 + 8..p2 + 12].copy_from_slice(&1u32.to_le_bytes());
    file[p2 + 12..p2 + 16].copy_from_slice(&3u32.to_le_bytes());
    file[p2 + 24] = 1; // num_rows_small
    file[p2 + 27] = 0x24;
    let row = p2 + 0x28;
    file[row..row + 4].copy_from_slice(&42u32.to_le_bytes());
    file[row + 4] = 11; // short ascii, length 4
    file[row + 5..row + 9].copy_from_slice(b"Tech");
    // row index: group 0 base = end of page
    let base = p2 + len_page;
    file[base - 4..base - 2].copy_from_slice(&1u16.to_le_bytes()); // present flags
    file[base - 6..base - 4].copy_from_slice(&0u16.to_le_bytes()); // ofs_row 0
    file
}

#[test]
fn walks_pages_and_row_groups() {
    let file = genre_pdb();
    let pdb = RekordboxPdb::parse(&file).unwrap();
    assert_eq!(pdb.tables.len(), 1);
    let rows = pdb.table_rows(&pdb.tables[0]).unwrap();
    assert_eq!(rows, vec![Row::Genre(IdNameRow { id: 42, name: "Tech".into() })]);
}

#[test]
fn hydrates_a_pdb_into_the_store() {
    let file = genre_pdb();
    let mut orm = MetadataORM::new();
    let reports = hydrate_from_pdb(&mut orm, &file).unwrap();
    assert_eq!(reports.len(), 1);
    assert_eq!((reports[0].complete, reports[0].total), (1, 1));
    assert_eq!(reports[0].table, "genre");
    assert!(hydrate_from_pdb(&mut orm, &[0u8; 8]).is_err());
}
