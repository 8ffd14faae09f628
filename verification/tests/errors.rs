use alphatheta_connect::error::{Error, ParseError};
use alphatheta_connect::localdb::orm::MetadataORM;
use alphatheta_connect::localdb::rekordbox::anlz::RekordboxAnlz;
use alphatheta_connect::localdb::rekordbox::hydrator::hydrate_rows;
use alphatheta_connect::localdb::rekordbox::pdb::{RekordboxPdb, Row, TrackRow};
use alphatheta_connect::metadata::parsers::id3::extract_from_mp3;
use alphatheta_connect::metadata::BufferReader;

#[test]
fn analysis_file_errors() {
    assert_eq!(RekordboxAnlz::parse(b"NOPE").unwrap_err(), Error::Parse(ParseError::MissingMagic));
    assert_eq!(RekordboxAnlz::parse(b"PMA").unwrap_err(), Error::Parse(ParseError::ReadPastEnd));
    assert_eq!(RekordboxAnlz::parse(b"PMAI\0\0\0\x0c").unwrap_err(), Error::Parse(ParseError::ReadPastEnd));
    // a section whose length is shorter than its header
    let mut f = b"PMAI".to_vec();
    f.extend_from_slice(&12u32.to_be_bytes());
    f.extend_from_slice(&24u32.to_be_bytes());
    f.extend_from_slice(b"PQTZ");
    f.extend_from_slice(&12u32.to_be_bytes());
    f.extend_from_slice(&4u32.to_be_bytes());
    assert_eq!(RekordboxAnlz::parse(&f).unwrap_err(), Error::Parse(ParseError::BadSectionLength));
}

#[test]
fn database_file_errors() {
    let zero_page = vec![0u8; 64];
    assert_eq!(RekordboxPdb::parse(&zero_page).err(), Some(Error::Parse(ParseError::ZeroPageSize)));
    assert_eq!(RekordboxPdb::parse(&[0u8; 8]).err(), Some(Error::Parse(ParseError::ReadPastEnd)));
}

#[test]
fn analysis_path_cut_inside_a_character_is_refused() {
    let mut orm = MetadataORM::new();
    let rows = vec![Row::Track(Box::new(TrackRow { id: 1, analyze_path: "aéDAT".into(), ..Default::default() }))];
    assert_eq!(hydrate_rows(&mut orm, "track", &rows).unwrap_err(), Error::Parse(ParseError::CharBoundary));
    assert_eq!(orm.track_count(), 0);
}

#[test]
fn truncated_extended_header_is_an_error() {
    // ID3v2.3 with the extended header flag, cut right after the header
    let tag = vec![b'I', b'D', b'3', 3, 0, 0x40, 0, 0, 0, 10, 0, 0];
    assert_eq!(extract_from_mp3(&BufferReader::new(tag, "mp3")).unwrap_err(), Error::Parse(ParseError::ReadPastEnd));
}
