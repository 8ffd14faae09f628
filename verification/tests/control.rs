use alphatheta_connect::control::make_playstate_packet;
use alphatheta_connect::control::stagehand::{
    make_stagehand_pref_write_packet, make_stagehand_transport_packet, OnAirPref, StagehandPreferences,
};
use alphatheta_connect::error::Error;
use alphatheta_connect::types::{Device, DeviceType, PlayState};

fn device(name: &str, id: u8, t: DeviceType, ip: [u8; 4]) -> Device {
    Device::new(name.to_string(), id, t, [0; 6], ip)
}

#[test]
fn playstate_packet() {
    let host = device("ProLink-Connect", 5, DeviceType::Cdj, [10, 0, 0, 1]);
    let target = device("CDJ", 2, DeviceType::Cdj, [10, 0, 0, 2]);
    let p = make_playstate_packet(&host, &target, PlayState::Cued).unwrap();
    assert_eq!(p.len(), 40);
    assert_eq!(p[0x0a], 0x02);
    assert_eq!(p[33], 5);
    assert_eq!(&p[36..40], &[0, 0, 1, 0]);
    let play = make_playstate_packet(&host, &target, PlayState::Playing).unwrap();
    assert_eq!(&play[36..40], &[0, 0, 0, 0]);
    assert!(make_playstate_packet(&host, &target, PlayState::Paused).is_err());
}

#[test]
fn playstate_packet_names_the_refused_state() {
    let host = device("ProLink-Connect", 5, DeviceType::Cdj, [10, 0, 0, 1]);
    let target = device("CDJ", 2, DeviceType::Cdj, [10, 0, 0, 2]);
    match make_playstate_packet(&host, &target, PlayState::Paused) {
        Err(Error::State(m)) => assert!(m.contains("Paused"), "{m}"),
        other => panic!("{other:?}"),
    }
}

fn host() -> Device {
    device("Stagehand", 154, DeviceType::Stagehand, [10, 0, 0, 9])
}

#[test]
fn transport_packet_layout() {
    let p = make_stagehand_transport_packet(&host(), 0x0f, true, 0xab);
    assert_eq!(p.len(), 56);
    assert_eq!(p[10], 0x07);
    assert_eq!(&p[11..20], b"Stagehand");
    assert_eq!(p[31], 0x01);
    assert_eq!(p[32], 0x03);
    assert_eq!(p[33], 0xab);
    assert_eq!(&p[34..36], &[0x00, 0x30]);
    assert_eq!(p[40], 0x3a);
    assert_eq!(p[44], 0x0f);
    assert_eq!(p[46], 0x01);
    assert_eq!(make_stagehand_transport_packet(&host(), 0x14, false, 1)[46], 0x00);
}

#[test]
fn pref_write_packet_layout() {
    let p = make_stagehand_pref_write_packet(&host(), StagehandPreferences { on_air: Some(OnAirPref::On), quantize: Some(2) });
    assert_eq!(p.len(), 124);
    assert_eq!(p[10], 0x6b);
    assert_eq!(p[30], 0x03);
    assert_eq!(&p[31..37], &[0x01, 0x03, 0x3a, 0x00, 0x50, 0x01]);
    assert_eq!(p[44], 0x81);
    assert_eq!(p[60], 0x82);
    let off = make_stagehand_pref_write_packet(&host(), StagehandPreferences { on_air: Some(OnAirPref::Off), quantize: None });
    assert_eq!(off[44], 0x80);
    assert_eq!(off[60], 0x00);
    let none = make_stagehand_pref_write_packet(&host(), StagehandPreferences::default());
    assert_eq!(none[44], 0x00);
}
