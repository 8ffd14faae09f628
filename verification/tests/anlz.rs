use alphatheta_connect::localdb::rekordbox::anlz::{
    song_structure_mask, BeatGridBeat, RekordboxAnlz, SectionBody, SectionTag, SongStructureEntry,
};
use alphatheta_connect::localdb::rekordbox::parse_anlz;
use alphatheta_connect::localdb::rekordbox::types::AnlzKind;
use alphatheta_connect::types::Mood;

fn section(fourcc: u32, body: &[u8]) -> Vec<u8> {
    let mut s = Vec::with_capacity(12 + body.len());
    s.extend_from_slice(&fourcc.to_be_bytes());
    s.extend_from_slice(&12u32.to_be_bytes());
    s.extend_from_slice(&((12 + body.len()) as u32).to_be_bytes());
    s.extend_from_slice(body);
    s
}

fn file(sections: &[Vec<u8>]) -> Vec<u8> {
    let total: usize = 12 + sections.iter().map(Vec::len).sum::<usize>();
    let mut f = Vec::with_capacity(total);
    f.extend_from_slice(b"PMAI");
    f.extend_from_slice(&12u32.to_be_bytes());
    f.extend_from_slice(&(total as u32).to_be_bytes());
    for s in sections {
        f.extend_from_slice(s);
    }
    f
}

fn pwv6(num_entries: u32) -> Vec<u8> {
    let mut body = Vec::new();
    body.extend_from_slice(&3u32.to_be_bytes());
    body.extend_from_slice(&num_entries.to_be_bytes());
    for i in 0..num_entries * 3 {
        body.push((i % 256) as u8);
    }
    section(SectionTag::WAVE_COLOR_3BAND_PREVIEW, &body)
}

fn pwv7(num_entries: u32) -> Vec<u8> {
    let mut body = Vec::new();
    body.extend_from_slice(&3u32.to_be_bytes());
    body.extend_from_slice(&num_entries.to_be_bytes());
    body.extend_from_slice(&0x0096_0000u32.to_be_bytes());
    for i in 0..num_entries * 3 {
        body.push((i % 256) as u8);
    }
    section(SectionTag::WAVE_COLOR_3BAND_DETAIL, &body)
}

fn pwvc(low: u16, mid: u16, high: u16) -> Vec<u8> {
    let mut body = Vec::new();
    body.extend_from_slice(&0u16.to_be_bytes());
    body.extend_from_slice(&low.to_be_bytes());
    body.extend_from_slice(&mid.to_be_bytes());
    body.extend_from_slice(&high.to_be_bytes());
    section(SectionTag::VOCAL_CONFIG, &body)
}

fn pwv5(num_entries: u32) -> Vec<u8> {
    let mut body = Vec::new();
    body.extend_from_slice(&2u32.to_be_bytes());
    body.extend_from_slice(&num_entries.to_be_bytes());
    body.extend_from_slice(&0x0096_0000u32.to_be_bytes());
    for i in 0..num_entries {
        let word: u16 = (0b111 << 13) | (0b111 << 7) | (((i % 32) as u16) << 2);
        body.extend_from_slice(&word.to_be_bytes());
    }
    section(SectionTag::WAVE_COLOR_SCROLL, &body)
}

fn pqtz(beats: &[(u16, u16, u32)]) -> Vec<u8> {
    let mut body = Vec::new();
    body.extend_from_slice(&0u32.to_be_bytes());
    body.extend_from_slice(&0x0008_0000u32.to_be_bytes());
    body.extend_from_slice(&(beats.len() as u32).to_be_bytes());
    for (n, tempo, time) in beats {
        body.extend_from_slice(&n.to_be_bytes());
        body.extend_from_slice(&tempo.to_be_bytes());
        body.extend_from_slice(&time.to_be_bytes());
    }
    section(SectionTag::BEAT_GRID, &body)
}

fn pcob(cues: &[(u32, u8, u32, u32)]) -> Vec<u8> {
    let mut body = Vec::new();
    body.extend_from_slice(&0u32.to_be_bytes());
    body.extend_from_slice(&[0, 0]);
    body.extend_from_slice(&(cues.len() as u16).to_be_bytes());
    body.extend_from_slice(&0u32.to_be_bytes());
    for (hot_cue, cue_type, time, loop_time) in cues {
        let mut e = Vec::new();
        e.extend_from_slice(b"PCPT");
        e.extend_from_slice(&0x1cu32.to_be_bytes());
        e.extend_from_slice(&56u32.to_be_bytes());
        e.extend_from_slice(&hot_cue.to_be_bytes());
        e.extend_from_slice(&1u32.to_be_bytes());
        e.extend_from_slice(&0x0001_0000u32.to_be_bytes());
        e.extend_from_slice(&0xffffu16.to_be_bytes());
        e.extend_from_slice(&0xffffu16.to_be_bytes());
        e.push(*cue_type);
        e.extend_from_slice(&[0, 0x03, 0xe8]);
        e.extend_from_slice(&time.to_be_bytes());
        e.extend_from_slice(&loop_time.to_be_bytes());
        e.extend_from_slice(&[0u8; 16]);
        body.extend_from_slice(&e);
    }
    section(SectionTag::CUES, &body)
}

fn pco2_with_comment(hot_cue: u32, cue_type: u8, time: u32, loop_time: u32, color_id: u8, comment: &str, rgb: (u8, u8, u8, u8)) -> Vec<u8> {
    let mut comment_bytes = Vec::new();
    for u in comment.encode_utf16() {
        comment_bytes.extend_from_slice(&u.to_be_bytes());
    }
    comment_bytes.extend_from_slice(&[0, 0]);
    let len_comment = comment_bytes.len() as u32;
    let len_entry = 48 + len_comment;

    let mut e = Vec::new();
    e.extend_from_slice(b"PCP2");
    e.extend_from_slice(&0x2cu32.to_be_bytes());
    e.extend_from_slice(&len_entry.to_be_bytes());
    e.extend_from_slice(&hot_cue.to_be_bytes());
    e.push(cue_type);
    e.extend_from_slice(&[0, 0x03, 0xe8]);
    e.extend_from_slice(&time.to_be_bytes());
    e.extend_from_slice(&loop_time.to_be_bytes());
    e.push(color_id);
    e.extend_from_slice(&[0u8; 7]);
    e.extend_from_slice(&4u16.to_be_bytes());
    e.extend_from_slice(&1u16.to_be_bytes());
    e.extend_from_slice(&len_comment.to_be_bytes());
    e.extend_from_slice(&comment_bytes);
    e.extend_from_slice(&[rgb.0, rgb.1, rgb.2, rgb.3]);
    assert_eq!(e.len(), len_entry as usize);

    let mut body = Vec::new();
    body.extend_from_slice(&1u32.to_be_bytes());
    body.extend_from_slice(&1u16.to_be_bytes());
    body.extend_from_slice(&[0, 0]);
    body.extend_from_slice(&e);
    section(SectionTag::CUES_2, &body)
}

fn pssi(mood: u16, bank: u8, end_beat: u16, phrases: &[(u16, u16, u16, u8, u16)]) -> Vec<u8> {
    let len_entry_bytes = 24u32;
    let mut plain = Vec::new();
    plain.extend_from_slice(&mood.to_be_bytes());
    plain.extend_from_slice(&[0u8; 6]);
    plain.extend_from_slice(&end_beat.to_be_bytes());
    plain.extend_from_slice(&[0u8; 2]);
    plain.push(bank);
    plain.push(0);
    for (n, beat, kind, fill, fill_beat) in phrases {
        plain.extend_from_slice(&n.to_be_bytes());
        plain.extend_from_slice(&beat.to_be_bytes());
        plain.extend_from_slice(&kind.to_be_bytes());
        plain.extend_from_slice(&[0u8; 15]);
        plain.push(*fill);
        plain.extend_from_slice(&fill_beat.to_be_bytes());
    }
    let mask = song_structure_mask(phrases.len() as u16);
    for (i, b) in plain.iter_mut().enumerate() {
        *b ^= mask[i % mask.len()];
    }
    let mut body = Vec::new();
    body.extend_from_slice(&len_entry_bytes.to_be_bytes());
    body.extend_from_slice(&(phrases.len() as u16).to_be_bytes());
    body.extend_from_slice(&plain);
    section(SectionTag::SONG_STRUCTURE, &body)
}

#[test]
fn header_and_empty_file() {
    let f = file(&[]);
    assert_eq!(f.len(), 12);
    let anlz = RekordboxAnlz::parse(&f).unwrap();
    assert!(anlz.sections.is_empty());
    assert_eq!(anlz.len_file, 12);
    assert!(RekordboxAnlz::parse(b"NOPE").is_err());
}

#[test]
fn parses_2ex_sections() {
    let f = file(&[pwv6(10), pwv7(20), pwvc(90, 100, 110)]);
    let anlz = RekordboxAnlz::parse(&f).unwrap();
    assert_eq!(anlz.sections.len(), 3);
    match &anlz.sections[0].body {
        SectionBody::WaveColor3BandPreview { len_entry_bytes, len_entries, entries } => {
            assert_eq!((*len_entry_bytes, *len_entries, entries.len()), (3, 10, 30));
        }
        other => panic!("{other:?}"),
    }
    match &anlz.sections[1].body {
        SectionBody::WaveColor3BandDetail { len_entries, entries, .. } => {
            assert_eq!((*len_entries, entries.len()), (20, 60));
        }
        other => panic!("{other:?}"),
    }
    assert_eq!(anlz.sections[2].body, SectionBody::VocalConfig { threshold_low: 90, threshold_mid: 100, threshold_high: 110 });
}

#[test]
fn parses_beat_grid_and_cues() {
    let f = file(&[pqtz(&[(1, 12800, 0), (2, 12800, 468)]), pcob(&[(0, 1, 1000, 0), (2, 2, 2000, 3000)])]);
    let anlz = RekordboxAnlz::parse(&f).unwrap();
    match &anlz.sections[0].body {
        SectionBody::BeatGrid { beats } => {
            assert_eq!(beats.len(), 2);
            assert_eq!(beats[1], BeatGridBeat { beat_number: 2, tempo: 12800, time: 468 });
        }
        other => panic!("{other:?}"),
    }
    match &anlz.sections[1].body {
        SectionBody::Cues { cues, .. } => {
            assert_eq!(cues.len(), 2);
            assert_eq!(cues[1].hot_cue, 2);
            assert_eq!(cues[1].cue_type, 2);
            assert_eq!(cues[1].loop_time, 3000);
        }
        other => panic!("{other:?}"),
    }
}

#[test]
fn parses_extended_cues_with_comment_and_color() {
    let f = file(&[pco2_with_comment(1, 2, 5000, 7000, 3, "Drop", (0x2a, 255, 0, 0))]);
    let anlz = RekordboxAnlz::parse(&f).unwrap();
    match &anlz.sections[0].body {
        SectionBody::Cues2 { cues, .. } => {
            let c = &cues[0];
            assert_eq!(c.hot_cue, 1);
            assert_eq!(c.cue_type, 2);
            assert_eq!(c.time, 5000);
            assert_eq!(c.loop_time, 7000);
            assert_eq!(c.color_id, 3);
            assert_eq!(c.comment.as_deref(), Some("Drop"));
            assert_eq!(c.color_code, Some(0x2a));
            assert_eq!((c.color_red, c.color_green, c.color_blue), (Some(255), Some(0), Some(0)));
            assert_eq!(c.loop_numerator, Some(4));
            assert_eq!(c.loop_denominator, Some(1));
        }
        other => panic!("{other:?}"),
    }
}

#[test]
fn unmasks_song_structure() {
    let f = file(&[pssi(2, 3, 128, &[(1, 1, 1, 0, 0), (2, 33, 9, 1, 60)])]);
    let anlz = RekordboxAnlz::parse(&f).unwrap();
    match &anlz.sections[0].body {
        SectionBody::SongStructure { mood, end_beat, bank, entries, .. } => {
            assert_eq!((*mood, *end_beat, *bank), (2, 128, 3));
            assert_eq!(entries.len(), 2);
            assert_eq!(
                entries[1],
                SongStructureEntry { phrase_number: 2, beat_number: 33, kind: 9, fill_in: 1, fill_in_beat_number: 60 }
            );
        }
        other => panic!("{other:?}"),
    }
}

#[test]
fn unknown_sections_are_kept_as_unknown() {
    let f = file(&[section(0x5858_5858, &[1, 2, 3])]);
    let anlz = RekordboxAnlz::parse(&f).unwrap();
    assert_eq!(anlz.sections[0].tag, SectionTag::Other(0x5858_5858));
    assert_eq!(anlz.sections[0].body, SectionBody::Unknown);
}

#[test]
fn load_anlz_parses_each_kind() {
    let two_ex = file(&[pwv6(4), pwv7(6), pwvc(80, 90, 100)]);
    let ext = file(&[pwv5(3), pssi(1, 0, 64, &[(1, 1, 1, 0, 0)])]);
    let dat = file(&[pqtz(&[(1, 12800, 0)]), pcob(&[(0, 1, 100, 0)])]);

    assert_eq!(AnlzKind::TwoEx.extension(), "2EX");
    let r = parse_anlz(&two_ex).unwrap();
    assert_eq!(r.two_ex.waveform_3band_preview.as_ref().unwrap().num_entries, 4);
    assert_eq!(r.two_ex.waveform_3band_detail.as_ref().unwrap().data.len(), 18);
    assert_eq!(r.two_ex.vocal_config.unwrap().threshold_high, 100);
    assert!(r.dat.beat_grid.is_none());

    let r = parse_anlz(&ext).unwrap();
    // three entries of two bytes each
    assert_eq!(r.ext.waveform_hd.as_ref().unwrap().len(), 6);
    assert_eq!(r.ext.song_structure.as_ref().unwrap().mood, Mood::High);

    let r = parse_anlz(&dat).unwrap();
    assert_eq!(r.dat.beat_grid.as_ref().unwrap().len(), 1);
    assert_eq!(r.dat.cue_and_loops.as_ref().unwrap().len(), 1);
}

#[test]
fn mask_is_undone_by_applying_it_again() {
    let mask = song_structure_mask(7);
    let plain: Vec<u8> = (0u8..40).collect();
    let masked: Vec<u8> = plain.iter().enumerate().map(|(i, b)| b ^ mask[i % mask.len()]).collect();
    let back: Vec<u8> = masked.iter().enumerate().map(|(i, b)| b ^ mask[i % mask.len()]).collect();
    assert_eq!(back, plain);
}
