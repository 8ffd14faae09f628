use alphatheta_connect::constants::PROLINK_HEADER;
use alphatheta_connect::devices::utils::device_from_packet;
use alphatheta_connect::devices::{AnnounceEvent, DeviceManagerConfig, DeviceTable};
use alphatheta_connect::error::Error;
use alphatheta_connect::types::DeviceType;

/// A keep-alive announcement of a CDJ: name, number, MAC, IPv4 and type at
/// their offsets.
fn announce(name: &str, id: u8, mac: [u8; 6], ip: [u8; 4], device_type: u8) -> Vec<u8> {
    let mut p = vec![0u8; 0x36];
    p[..10].copy_from_slice(&PROLINK_HEADER);
    p[0x0a] = 0x06;
    p[0x0c..0x0c + name.len()].copy_from_slice(name.as_bytes());
    p[0x24] = id;
    p[0x26..0x2c].copy_from_slice(&mac);
    p[0x2c..0x30].copy_from_slice(&ip);
    p[0x34] = device_type;
    p
}

#[test]
fn fails_for_non_prolink_packet() {
    assert!(device_from_packet(&[]).is_err());
}

#[test]
fn only_handles_announce_packets() {
    let mut packet = PROLINK_HEADER.to_vec();
    packet.push(0x05);
    assert!(device_from_packet(&packet).unwrap().is_none());
}

#[test]
fn handles_an_announce_packet() {
    let packet = announce("CDJ-2000nexus", 2, [116, 94, 28, 87, 130, 216], [10, 0, 0, 207], 1);
    let device = device_from_packet(&packet).unwrap().unwrap();
    assert_eq!(device.id, 2);
    assert_eq!(device.device_type, DeviceType::Cdj);
    assert_eq!(device.name, "CDJ-2000nexus");
    assert_eq!(device.ip, [10, 0, 0, 207]);
    assert_eq!(device.mac_addr, [116, 94, 28, 87, 130, 216]);
}

#[test]
fn short_announcement_reports_its_length() {
    let mut packet = PROLINK_HEADER.to_vec();
    packet.extend_from_slice(&[0x06, 0, 0]);
    match device_from_packet(&packet) {
        Err(Error::Protocol(m)) => assert_eq!(m, "Announce packet too short: 13 bytes"),
        other => panic!("{other:?}"),
    }
    match device_from_packet(b"not a prolink packet") {
        Err(Error::Protocol(m)) => assert_eq!(m, "Announce packet does not start with expected header"),
        other => panic!("{other:?}"),
    }
}

#[test]
fn device_types_by_byte() {
    let mixer = announce("DJM-900", 33, [0; 6], [10, 0, 0, 3], 2);
    assert_eq!(device_from_packet(&mixer).unwrap().unwrap().device_type, DeviceType::Mixer);
    let rb = announce("rekordbox", 17, [0; 6], [10, 0, 0, 4], 3);
    assert_eq!(device_from_packet(&rb).unwrap().unwrap().device_type, DeviceType::Rekordbox);
    let odd = announce("thing", 40, [0; 6], [10, 0, 0, 5], 9);
    assert_eq!(device_from_packet(&odd).unwrap().unwrap().device_type, DeviceType::Unknown(9));
}

#[test]
fn tracks_devices_and_removes_them() {
    let mut table = DeviceTable::new();
    let p = announce("CDJ-3000", 2, [1; 6], [10, 0, 0, 2], 1);
    match table.handle_announce(&p, "ProLink-Connect") {
        AnnounceEvent::Connected(d) => assert_eq!(d.id, 2),
        other => panic!("{other:?}"),
    }
    assert_eq!(table.len(), 1);
    match table.handle_announce(&p, "ProLink-Connect") {
        AnnounceEvent::Announced(d) => assert_eq!(d.name, "CDJ-3000"),
        other => panic!("{other:?}"),
    }
    assert_eq!(table.len(), 1);
    assert_eq!(table.device(2).unwrap().ip, [10, 0, 0, 2]);
    assert_eq!(table.remove(2).unwrap().id, 2);
    assert!(table.device(2).is_none());
    assert!(table.remove(2).is_none());
}

#[test]
fn ignores_our_own_name() {
    let mut table = DeviceTable::new();
    let own = DeviceManagerConfig::default().vcdj_name;
    assert_eq!(own, "ProLink-Connect");
    let p = announce("ProLink-Connect", 7, [2; 6], [10, 0, 0, 7], 1);
    assert_eq!(table.handle_announce(&p, &own), AnnounceEvent::Ignored);
    assert_eq!(table.len(), 0);
    assert_eq!(table.handle_announce(b"garbage", &own), AnnounceEvent::Ignored);
}

#[test]
fn device_manager_defaults() {
    let c = DeviceManagerConfig::default();
    assert_eq!(c.device_timeout_ms, 10_000);
}
