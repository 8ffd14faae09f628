use alphatheta_connect::metadata::device_metadata_extension;
use alphatheta_connect::metadata::parsers::utils::{clean_text, decode_text, text_holds_tempo};
use alphatheta_connect::metadata::parsers::aiff::extract_from_aiff;
use alphatheta_connect::metadata::parsers::flac::block_type;
use alphatheta_connect::metadata::parsers::flac::extract_from_flac;
use alphatheta_connect::metadata::parsers::id3::{extract_from_mp3, parse_genre, parse_text_frame};
use alphatheta_connect::metadata::parsers::mp4::atom_types;
use alphatheta_connect::metadata::parsers::mp4::extract_from_mp4;
use alphatheta_connect::metadata::parsers::utils::{
    detect_image_type, normalize_mime_type, parse_year, read_null_terminated_string, TextEncoding,
};
use alphatheta_connect::metadata::types::BpmTag;
use alphatheta_connect::metadata::{
    extract_full_metadata, get_parser_for_extension, get_supported_extensions, is_extension_supported,
    is_metadata_extraction_supported, ArtworkMimeType, BufferReader, MetadataParser,
};
use alphatheta_connect::text::{path_extension, trim};

const JPEG: &[u8] = &[0xff, 0xd8, 0xff, 0xe0, 0x00, 0x10, b'J', b'F', b'I', b'F'];
const PNG: &[u8] = &[0x89, b'P', b'N', b'G', 0x0d, 0x0a, 0x1a, 0x0a];

fn frame(id: &str, body: &[u8]) -> Vec<u8> {
    let mut f = Vec::new();
    f.extend_from_slice(id.as_bytes());
    f.extend_from_slice(&(body.len() as u32).to_be_bytes());
    f.extend_from_slice(&[0, 0]);
    f.extend_from_slice(body);
    f
}

fn text_frame(id: &str, text: &str) -> Vec<u8> {
    let mut body = vec![0u8];
    body.extend_from_slice(text.as_bytes());
    frame(id, &body)
}

fn apic(mime: &str, picture_type: u8, image: &[u8]) -> Vec<u8> {
    let mut body = vec![0u8];
    body.extend_from_slice(mime.as_bytes());
    body.push(0);
    body.push(picture_type);
    body.push(0);
    body.extend_from_slice(image);
    frame("APIC", &body)
}

fn tag(frames: &[Vec<u8>]) -> Vec<u8> {
    let body: Vec<u8> = frames.concat();
    let size = body.len() as u32;
    let mut t = Vec::new();
    t.extend_from_slice(b"ID3");
    t.push(3);
    t.push(0);
    t.push(0);
    t.push(((size >> 21) & 0x7f) as u8);
    t.push(((size >> 14) & 0x7f) as u8);
    t.push(((size >> 7) & 0x7f) as u8);
    t.push((size & 0x7f) as u8);
    t.extend_from_slice(&body);
    t.extend_from_slice(&[0xff, 0xfb, 0x90, 0x00]);
    t
}

fn aiff_file(id3: &[u8]) -> Vec<u8> {
    let mut comm = b"COMM".to_vec();
    comm.extend_from_slice(&18u32.to_be_bytes());
    comm.extend_from_slice(&[0u8; 18]);
    let mut id3_chunk = b"ID3 ".to_vec();
    id3_chunk.extend_from_slice(&(id3.len() as u32).to_be_bytes());
    id3_chunk.extend_from_slice(id3);
    if id3.len() % 2 == 1 {
        id3_chunk.push(0);
    }
    let body = [b"AIFF".to_vec(), comm, id3_chunk].concat();
    let mut f = b"FORM".to_vec();
    f.extend_from_slice(&(body.len() as u32).to_be_bytes());
    f.extend_from_slice(&body);
    f
}

fn block(block_type: u8, is_last: bool, body: &[u8]) -> Vec<u8> {
    let mut b = vec![block_type | if is_last { 0x80 } else { 0 }];
    let len = body.len() as u32;
    b.push(((len >> 16) & 0xff) as u8);
    b.push(((len >> 8) & 0xff) as u8);
    b.push((len & 0xff) as u8);
    b.extend_from_slice(body);
    b
}

fn vorbis_comments(fields: &[(&str, &str)]) -> Vec<u8> {
    let mut b = Vec::new();
    let vendor = b"test";
    b.extend_from_slice(&(vendor.len() as u32).to_le_bytes());
    b.extend_from_slice(vendor);
    b.extend_from_slice(&(fields.len() as u32).to_le_bytes());
    for (k, v) in fields {
        let c = format!("{k}={v}");
        b.extend_from_slice(&(c.len() as u32).to_le_bytes());
        b.extend_from_slice(c.as_bytes());
    }
    b
}

fn picture(picture_type: u32, mime: &str, image: &[u8]) -> Vec<u8> {
    let mut b = Vec::new();
    b.extend_from_slice(&picture_type.to_be_bytes());
    b.extend_from_slice(&(mime.len() as u32).to_be_bytes());
    b.extend_from_slice(mime.as_bytes());
    b.extend_from_slice(&0u32.to_be_bytes());
    b.extend_from_slice(&500u32.to_be_bytes());
    b.extend_from_slice(&500u32.to_be_bytes());
    b.extend_from_slice(&24u32.to_be_bytes());
    b.extend_from_slice(&0u32.to_be_bytes());
    b.extend_from_slice(&(image.len() as u32).to_be_bytes());
    b.extend_from_slice(image);
    b
}

fn flac_file(blocks: &[Vec<u8>]) -> Vec<u8> {
    let mut f = b"fLaC".to_vec();
    for b in blocks {
        f.extend_from_slice(b);
    }
    f.extend_from_slice(&[0xff, 0xf8, 0, 0]);
    f
}

fn atom(atom_type: &[u8; 4], body: &[u8]) -> Vec<u8> {
    let mut a = Vec::new();
    a.extend_from_slice(&((8 + body.len()) as u32).to_be_bytes());
    a.extend_from_slice(atom_type);
    a.extend_from_slice(body);
    a
}

fn data_atom(type_flag: u32, payload: &[u8]) -> Vec<u8> {
    let mut body = Vec::new();
    body.extend_from_slice(&type_flag.to_be_bytes());
    body.extend_from_slice(&0u32.to_be_bytes());
    body.extend_from_slice(payload);
    atom(b"data", &body)
}

fn text_item(atom_type: &[u8; 4], text: &str) -> Vec<u8> {
    atom(atom_type, &data_atom(1, text.as_bytes()))
}

fn number_item(atom_type: &[u8; 4], value: u16) -> Vec<u8> {
    atom(atom_type, &data_atom(21, &value.to_be_bytes()))
}

fn freeform_item(name: &str, text: &str) -> Vec<u8> {
    let mut mean = 0u32.to_be_bytes().to_vec();
    mean.extend_from_slice(b"com.apple.iTunes");
    let mut nm = 0u32.to_be_bytes().to_vec();
    nm.extend_from_slice(name.as_bytes());
    let body = [atom(b"mean", &mean), atom(b"name", &nm), data_atom(1, text.as_bytes())].concat();
    atom(b"----", &body)
}

fn mp4_file(items: &[Vec<u8>]) -> Vec<u8> {
    let ilst = atom(b"ilst", &items.concat());
    let mut meta_body = 0u32.to_be_bytes().to_vec();
    meta_body.extend_from_slice(&ilst);
    let meta = atom(b"meta", &meta_body);
    let udta = atom(b"udta", &meta);
    let moov = atom(b"moov", &udta);
    let ftyp = atom(b"ftyp", b"M4A \0\0\0\0");
    [ftyp, moov, atom(b"mdat", &[0u8; 16])].concat()
}

#[test]
fn extension_dispatch() {
    assert_eq!(get_parser_for_extension("MP3"), Some(MetadataParser::Mp3));
    assert_eq!(get_parser_for_extension(".m4a"), Some(MetadataParser::Mp4));
    assert_eq!(get_parser_for_extension("aifc"), Some(MetadataParser::Aiff));
    assert!(!is_extension_supported("wav"));
    assert!(get_supported_extensions().contains(&"flac"));
}

#[test]
fn metadata_extension_checks() {
    assert!(is_metadata_extraction_supported(".FLAC"));
    assert!(!is_metadata_extraction_supported("ogg"));
    assert_eq!(path_extension("/Contents/Artist/Track.Name.MP3"), "mp3");
    assert_eq!(path_extension("noext"), "");
    assert_eq!(path_extension("Music.dir/noext"), "");
    assert_eq!(path_extension("a.b/c.FLAC"), "flac");
    assert_eq!(path_extension("dir.d/file."), "");
}

#[test]
fn extracts_text_frames_and_front_cover() {
    let file = tag(&[
        text_frame("TIT2", "Title"),
        text_frame("TPE1", "Artist"),
        text_frame("TALB", "Album"),
        text_frame("TCON", "(17)"),
        text_frame("TPUB", "Label"),
        text_frame("TYER", "2021"),
        text_frame("TBPM", "128"),
        text_frame("TKEY", "Am"),
        apic("image/jpeg", 0, PNG),
        apic("image/jpeg", 3, JPEG),
    ]);
    let reader = BufferReader::new(file, "mp3");
    let m = extract_from_mp3(&reader).unwrap().unwrap();
    assert_eq!(m.title.as_deref(), Some("Title"));
    assert_eq!(m.artist.as_deref(), Some("Artist"));
    assert_eq!(m.album.as_deref(), Some("Album"));
    assert_eq!(m.genre.as_deref(), Some("Rock"));
    assert_eq!(m.label.as_deref(), Some("Label"));
    assert_eq!(m.year, Some(2021));
    assert_eq!(m.bpm_tags, vec![BpmTag::Text("128".into())]);
    assert_eq!(m.key.as_deref(), Some("Am"));
    assert_eq!(m.artwork.as_deref(), Some(JPEG));
    assert_eq!(m.artwork_mime_type, Some(ArtworkMimeType::Jpeg));
}

#[test]
fn no_tag_is_none() {
    let reader = BufferReader::new(vec![0xff, 0xfb, 0, 0, 0, 0, 0, 0, 0, 0, 0, 0], "mp3");
    assert!(extract_from_mp3(&reader).unwrap().is_none());
}

#[test]
fn utf16_text_frames() {
    let mut body = vec![1u8, 0xff, 0xfe];
    for u in "Héllo".encode_utf16() {
        body.extend_from_slice(&u.to_le_bytes());
    }
    assert_eq!(parse_text_frame(&body).as_deref(), Some("Héllo"));
    assert_eq!(parse_genre(Some("(3)Dance Pop".into())).as_deref(), Some("Dance Pop"));
    assert_eq!(parse_genre(Some("House".into())).as_deref(), Some("House"));
}

#[test]
fn delegates_to_id3() {
    let f = aiff_file(&tag(&[text_frame("TIT2", "Aiff Title")]));
    let reader = BufferReader::new(f, "aiff");
    let m = extract_from_aiff(&reader).unwrap().unwrap();
    assert_eq!(m.title.as_deref(), Some("Aiff Title"));
    let reader = BufferReader::new(b"FORM\0\0\0\x04WAVE".to_vec(), "aiff");
    assert!(extract_from_aiff(&reader).unwrap().is_none());
}

#[test]
fn extracts_vorbis_comments_and_picture() {
    let f = flac_file(&[
        block(block_type::STREAMINFO, false, &[0u8; 34]),
        block(
            block_type::VORBIS_COMMENT,
            false,
            &vorbis_comments(&[
                ("TITLE", "T"),
                ("artist", "A"),
                ("DATE", "2020-05-01"),
                ("BPM", "124.5"),
                ("INITIALKEY", "8A"),
                ("PUBLISHER", "L"),
            ]),
        ),
        block(block_type::PICTURE, true, &picture(3, "image/jpeg", JPEG)),
    ]);
    let reader = BufferReader::new(f, "flac");
    let m = extract_from_flac(&reader).unwrap().unwrap();
    assert_eq!(m.title.as_deref(), Some("T"));
    assert_eq!(m.artist.as_deref(), Some("A"));
    assert_eq!(m.year, Some(2020));
    assert_eq!(m.bpm_tags, vec![BpmTag::Text("124.5".into())]);
    assert_eq!(m.key.as_deref(), Some("8A"));
    assert_eq!(m.label.as_deref(), Some("L"));
    assert_eq!(m.artwork_mime_type, Some(ArtworkMimeType::Jpeg));
    assert_eq!(m.artwork.as_deref(), Some(JPEG));
}

#[test]
fn not_flac_is_none() {
    let reader = BufferReader::new(b"RIFF....".to_vec(), "flac");
    assert!(extract_from_flac(&reader).unwrap().is_none());
}

#[test]
fn extracts_itunes_atoms() {
    let f = mp4_file(&[
        text_item(&atom_types::TITLE, "Title"),
        text_item(&atom_types::ARTIST, "Artist"),
        text_item(&atom_types::ALBUM, "Album"),
        number_item(&atom_types::GENRE_ID, 18),
        text_item(&atom_types::YEAR, "2019-03-04"),
        number_item(&atom_types::BPM, 126),
        freeform_item("LABEL", "Label"),
        atom(&atom_types::COVER, &data_atom(14, PNG)),
    ]);
    let reader = BufferReader::new(f, "m4a");
    let m = extract_from_mp4(&reader).unwrap().unwrap();
    assert_eq!(m.title.as_deref(), Some("Title"));
    assert_eq!(m.artist.as_deref(), Some("Artist"));
    assert_eq!(m.album.as_deref(), Some("Album"));
    assert_eq!(m.genre.as_deref(), Some("Rock"));
    assert_eq!(m.year, Some(2019));
    assert_eq!(m.bpm_tags, vec![BpmTag::Whole(126)]);
    assert_eq!(m.label.as_deref(), Some("Label"));
    assert_eq!(m.artwork_mime_type, Some(ArtworkMimeType::Png));
    assert_eq!(m.artwork.as_deref(), Some(PNG));
}

#[test]
fn not_mp4_is_none() {
    let reader = BufferReader::new(b"ID3\x03\0\0\0\0\0\0".to_vec(), "m4a");
    assert!(extract_from_mp4(&reader).unwrap().is_none());
}

#[test]
fn full_extraction_dispatches_on_the_extension() {
    let file = tag(&[text_frame("TIT2", "Dispatched")]);
    let m = extract_full_metadata(&BufferReader::new(file, "MP3")).unwrap();
    assert_eq!(m.title.as_deref(), Some("Dispatched"));
    assert!(extract_full_metadata(&BufferReader::new(vec![1, 2, 3], "wav")).is_none());
}

#[test]
fn year_parsing() {
    assert_eq!(parse_year("2024"), Some(2024));
    assert_eq!(parse_year("2024-01-15"), Some(2024));
    assert_eq!(parse_year("x"), None);
    assert_eq!(parse_year("1800"), None);
}

#[test]
fn null_terminated_strings() {
    let r = read_null_terminated_string(b"abc\0def", 0, TextEncoding::Latin1);
    assert_eq!(r.value, "abc");
    assert_eq!(r.bytes_consumed, 4);
    let r = read_null_terminated_string(&[b'h', 0, b'i', 0, 0, 0, 1], 0, TextEncoding::Utf16Le);
    assert_eq!(r.value, "hi");
    assert_eq!(r.bytes_consumed, 6);
}

#[test]
fn image_detection() {
    assert_eq!(detect_image_type(&[0xff, 0xd8, 0xff, 0xe0]), Some(ArtworkMimeType::Jpeg));
    assert_eq!(detect_image_type(b"\x89PNG"), Some(ArtworkMimeType::Png));
    assert_eq!(detect_image_type(b"GIF89a"), Some(ArtworkMimeType::Gif));
    assert_eq!(detect_image_type(b"abcd"), None);
    assert_eq!(normalize_mime_type("image/PNG"), ArtworkMimeType::Png);
    assert_eq!(normalize_mime_type("image/jpg"), ArtworkMimeType::Jpeg);
}

#[test]
fn device_metadata_is_read_by_lowercased_extension() {
    assert_eq!(device_metadata_extension("/Contents/Artist/Track.M4A", 1000), Some("m4a".to_string()));
    assert_eq!(device_metadata_extension("/Contents/x.y/Track.aifc", 1), Some("aifc".to_string()));
    assert_eq!(device_metadata_extension("/Contents/Track.wav", 1000), None);
    assert_eq!(device_metadata_extension("/Contents/Track.mp3", 0), None);
}

#[test]
fn clean_text_strips_nul_and_unicode_white_space_and_is_idempotent() {
    let once = clean_text(Some("\0 \u{3000}Caf\u{e9}\0 Mix\u{a0}\n".to_string()));
    assert_eq!(once, Some("Caf\u{e9} Mix".to_string()));
    assert_eq!(clean_text(once.clone()), once);
    assert_eq!(clean_text(Some(" \0\t".to_string())), None);
    assert_eq!(clean_text(None), None);
}

#[test]
fn utf16_text_decodes_pairs_and_replaces_lone_surrogates() {
    // 'A', U+1F600 as a pair, a lone trail surrogate, 'b' (little endian).
    let le = [0x41, 0x00, 0x3D, 0xD8, 0x00, 0xDE, 0x00, 0xDC, 0x62, 0x00];
    assert_eq!(decode_text(&le, TextEncoding::Utf16Le), "A\u{1F600}\u{FFFD}b");
    // A lead surrogate followed by a plain unit: the unit is kept.
    let be = [0xD8, 0x3D, 0x00, 0x63];
    assert_eq!(decode_text(&be, TextEncoding::Utf16Be), "\u{FFFD}c");
}

#[test]
fn tempo_text_is_kept_only_when_it_holds_a_tempo() {
    assert!(text_holds_tempo("128"));
    assert!(text_holds_tempo("128.5 BPM"));
    assert!(text_holds_tempo("bpm: 500"));
    assert!(text_holds_tempo(".5"));
    assert!(!text_holds_tempo("x"));
    assert!(!text_holds_tempo("0"));
    assert!(!text_holds_tempo("500.1"));
    assert!(!text_holds_tempo("1.2.3"));
    assert!(!text_holds_tempo("."));
}

#[test]
fn a_tempo_frame_without_a_number_is_no_metadata() {
    let reader = BufferReader::new(tag(&[text_frame("TBPM", "x")]), "mp3");
    assert!(extract_from_mp3(&reader).unwrap().is_none());

    let reader = BufferReader::new(tag(&[text_frame("TBPM", "fast"), text_frame("TBPM", "122")]), "mp3");
    let m = extract_from_mp3(&reader).unwrap().unwrap();
    assert_eq!(m.bpm_tags, vec![BpmTag::Text("122".into())]);

    let f = flac_file(&[
        block(block_type::STREAMINFO, false, &[0u8; 34]),
        block(block_type::VORBIS_COMMENT, true, &vorbis_comments(&[("BPM", "none")])),
    ]);
    let reader = BufferReader::new(f, "flac");
    assert!(extract_from_flac(&reader).unwrap().is_none());
}

#[test]
fn every_listed_extension_is_supported_in_any_case() {
    for e in get_supported_extensions() {
        assert!(is_extension_supported(e));
        assert!(is_extension_supported(&e.to_uppercase()));
        assert!(is_extension_supported(&format!(".{e}")));
        assert!(is_metadata_extraction_supported(e));
    }
    assert!(!is_extension_supported("..mp3"));
    assert!(!is_extension_supported("wav"));
}

#[test]
fn trim_removes_unicode_white_space_at_both_ends() {
    assert_eq!(trim("\u{3000}\t a b \u{2028}\n"), "a b");
    assert_eq!(trim(" \u{a0} "), "");
    assert_eq!(trim("x"), "x");
}
