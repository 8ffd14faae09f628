use alphatheta_connect::artwork::{extract_artwork, is_artwork_extraction_supported, ArtworkMimeType, BufferReader, PictureType};

const JPEG: &[u8] = &[0xff, 0xd8, 0xff, 0xe0, 0x00, 0x10, b'J', b'F', b'I', b'F'];
const PNG: &[u8] = &[0x89, b'P', b'N', b'G', 0x0d, 0x0a, 0x1a, 0x0a];

fn frame(id: &str, body: &[u8]) -> Vec<u8> {
    let mut f = Vec::new();
    f.extend_from_slice(id.as_bytes());
    f.extend_from_slice(&(body.len() as u32).to_be_bytes());
    f.extend_from_slice(&[0, 0]);
    f.extend_from_slice(body);
    f
}

fn text_frame(id: &str, text: &str) -> Vec<u8> {
    let mut body = vec![0u8];
    body.extend_from_slice(text.as_bytes());
    frame(id, &body)
}

fn apic(mime: &str, picture_type: u8, image: &[u8]) -> Vec<u8> {
    let mut body = vec![0u8];
    body.extend_from_slice(mime.as_bytes());
    body.push(0);
    body.push(picture_type);
    body.push(0);
    body.extend_from_slice(image);
    frame("APIC", &body)
}

fn tag(frames: &[Vec<u8>]) -> Vec<u8> {
    let body: Vec<u8> = frames.concat();
    let size = body.len() as u32;
    let mut t = Vec::new();
    t.extend_from_slice(b"ID3");
    t.push(3);
    t.push(0);
    t.push(0);
    t.push(((size >> 21) & 0x7f) as u8);
    t.push(((size >> 14) & 0x7f) as u8);
    t.push(((size >> 7) & 0x7f) as u8);
    t.push((size & 0x7f) as u8);
    t.extend_from_slice(&body);
    t.extend_from_slice(&[0xff, 0xfb, 0x90, 0x00]);
    t
}

#[test]
fn prefers_front_cover() {
    let file = tag(&[text_frame("TIT2", "x"), apic("image/png", 0, PNG), apic("image/jpeg", 3, JPEG)]);
    let art = extract_artwork(&BufferReader::new(file, "mp3")).unwrap().unwrap();
    assert_eq!(art.data, JPEG);
    assert_eq!(art.picture_type, Some(PictureType::FrontCover));
}

#[test]
fn falls_back_to_any_artwork_and_sniffs_unknown_extensions() {
    let file = tag(&[apic("image/png", 4, PNG)]);
    let art = extract_artwork(&BufferReader::new(file.clone(), "mp3")).unwrap().unwrap();
    assert_eq!(art.mime_type, ArtworkMimeType::Png);
    let sniffed = extract_artwork(&BufferReader::new(file, "bin")).unwrap().unwrap();
    assert_eq!(sniffed.mime_type, ArtworkMimeType::Png);
    assert!(extract_artwork(&BufferReader::new(vec![0; 32], "wav")).unwrap().is_none());
}

#[test]
fn supported_extensions() {
    assert!(is_artwork_extraction_supported("MP3"));
    assert!(is_artwork_extraction_supported("aif"));
    assert!(!is_artwork_extraction_supported("wav"));
}

#[test]
fn artwork_extension_check_ignores_case() {
    assert!(is_artwork_extraction_supported("FLAC"));
    assert!(is_artwork_extraction_supported("m4a"));
    assert!(!is_artwork_extraction_supported(""));
}
