use alphatheta_connect::entities::{CueAndLoop, CueColor, HotcueButton};
use alphatheta_connect::types::{Device, DeviceType};
use alphatheta_connect::utils::{build_name, string_from_nul_padded};

#[test]
fn hotcue_buttons_round_trip() {
    for v in 1u8..=8 {
        assert_eq!(HotcueButton::from_u8(v).unwrap().as_u8(), v);
    }
    assert_eq!(HotcueButton::from_u8(3), Some(HotcueButton::C));
    assert_eq!(HotcueButton::from_u8(0), None);
    assert_eq!(HotcueButton::from_u8(9), None);
}

#[test]
fn cue_colors_round_trip() {
    for v in 0u8..=255 {
        assert_eq!(CueColor::from_u8(v).as_u8(), v);
    }
    assert_eq!(CueColor::from_u8(0), CueColor::NoColor);
}

#[test]
fn cue_accessors() {
    let c = CueAndLoop::HotLoop { offset: 10, length: 20, button: HotcueButton::B, label: Some("x".into()), color: None };
    assert_eq!(c.offset(), 10);
    assert_eq!(c.length(), Some(20));
    assert_eq!(c.button(), Some(HotcueButton::B));
    assert_eq!(c.label(), Some("x"));
    let p = CueAndLoop::CuePoint { offset: 5, label: None, color: Some(CueColor::Red) };
    assert_eq!(p.length(), None);
    assert_eq!(p.color(), Some(CueColor::Red));
}

#[test]
fn device_name_field_is_padded_and_cut() {
    let d = Device::new("CDJ".into(), 1, DeviceType::Cdj, [0; 6], [0; 4]);
    let f = build_name(&d);
    assert_eq!(f.len(), 20);
    assert_eq!(&f[..3], b"CDJ");
    assert!(f[3..].iter().all(|b| *b == 0));
    let long = Device::new("ABCDEFGHIJKLMNOPQRSTUVWXYZ".into(), 1, DeviceType::Cdj, [0; 6], [0; 4]);
    assert_eq!(&build_name(&long)[..], b"ABCDEFGHIJKLMNOPQRST");
    assert_eq!(string_from_nul_padded(b"CDJ\0\0junk"), "CDJ");
    assert_eq!(string_from_nul_padded(b"full"), "full");
}
