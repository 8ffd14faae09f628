//! Stagehand remote-control packets.

use vstd::prelude::*;
use crate::constants::{prolink_header, prolink_header_bytes};
use crate::types::Device;
use crate::utils::{build_name, name_field, zeros};

verus! {

/// The Stagehand transport control packet (0x07, 56 bytes): header,
/// opcode 0x07, the host's name, 0x01 0x03, the correlation byte, the
/// remaining length 0x0030, the Stagehand sub-id 0x3a at 40, the command at
/// 44 and the press flag at 46; zeros elsewhere.
pub open spec fn transport_packet(host: Device, op: u8, press: bool, correlation: u8) -> Seq<u8> {
    Seq::new(
        56,
        |i: int|
            if i < 10 {
                prolink_header()[i]
            } else if i == 10 {
                0x07u8
            } else if i < 31 {
                name_field(host.name@)[i - 11]
            } else if i == 31 {
                0x01u8
            } else if i == 32 {
                0x03u8
            } else if i == 33 {
                correlation
            } else if i == 35 {
                0x30u8
            } else if i == 40 {
                0x3au8
            } else if i == 44 {
                op
            } else if i == 46 {
                if press { 1u8 } else { 0u8 }
            } else {
                0u8
            },
    )
}

/// Generates a Stagehand transport control packet (0x07, 56 bytes).
///
/// - `host_device`: the Stagehand device posing as sender
/// - `op`: the command opcode (e.g. 0x0f, 0x14, 0x18, 0x1a, 0x1b)
/// - `press`: whether the action is press (true) or release (false)
/// - `correlation_byte`: the randomized per-session correlation byte
pub fn make_stagehand_transport_packet(host_device: &Device, op: u8, press: bool, correlation_byte: u8) -> (r: Vec<u8>)
    ensures
        r@ == transport_packet(*host_device, op, press, correlation_byte),
{
    let mut packet = zeros(56);
    let header = prolink_header_bytes();
    let name = build_name(host_device);
    let mut i: usize = 0;
    while i < 10
        invariant
            packet@.len() == 56,
            header@ == prolink_header(),
            i <= 10,
            forall|k: int| 0 <= k < i ==> packet@[k] == prolink_header()[k],
            forall|k: int| i <= k < 56 ==> packet@[k] == 0,
        decreases 10 - i,
    {
        packet.set(i, header[i]);
        i = i + 1;
    }
    // 10: opcode 0x07
    packet.set(10, 0x07);
    // 11-30: device name
    let mut j: usize = 0;
    while j < 20
        invariant
            packet@.len() == 56,
            name@ == name_field(host_device.name@),
            j <= 20,
            forall|k: int| 0 <= k < 10 ==> packet@[k] == prolink_header()[k],
            packet@[10] == 0x07,
            forall|k: int| 11 <= k < 11 + j ==> packet@[k] == name_field(host_device.name@)[k - 11],
            forall|k: int| 11 + j <= k < 56 ==> packet@[k] == 0,
        decreases 20 - j,
    {
        packet.set(11 + j, name[j]);
        j = j + 1;
    }
    packet.set(31, 0x01);
    packet.set(32, 0x03);
    // 33: per-session correlation byte
    packet.set(33, correlation_byte);
    // 34-35: remaining length 0x0030 (48 bytes)
    packet.set(35, 0x30);
    // 40: Stagehand sub-id 0x3a
    packet.set(40, 0x3a);
    // 44: command opcode
    packet.set(44, op);
    // 46: press/release flag
    packet.set(46, if press { 1 } else { 0 });
    assert(packet@ =~= transport_packet(*host_device, op, press, correlation_byte));
    packet
}

/// On-air preference value for [`make_stagehand_pref_write_packet`].
#[derive(Debug, Clone, Copy, PartialEq, Eq, Structural)]
pub enum OnAirPref {
    On,
    Off,
}

/// Preferences a Stagehand write packet can carry.
#[derive(Debug, Clone, Copy, PartialEq, Eq, Structural)]
pub struct StagehandPreferences {
    pub on_air: Option<OnAirPref>,
    pub quantize: Option<u8>,
}

impl Default for StagehandPreferences {
    fn default() -> (r: StagehandPreferences)
        ensures
            r.on_air is None,
            r.quantize is None,
    {
        StagehandPreferences { on_air: None, quantize: None }
    }
}

/// The Stagehand preference write packet (0x6b, 124 bytes): header,
/// opcode 0x6b, the host's name with its last byte set to 0x03, 0x01 0x03
/// 0x3a, the body length 0x0050, the write flag 0x01, the on-air slot at
/// 44 (0x81 on, 0x80 off, 0 untouched) and the quantize slot at 60
/// (0x80 | value); zeros elsewhere.
pub open spec fn pref_write_packet(host: Device, options: StagehandPreferences) -> Seq<u8> {
    Seq::new(
        124,
        |i: int|
            if i < 10 {
                prolink_header()[i]
            } else if i == 10 {
                0x6bu8
            } else if i < 30 {
                name_field(host.name@)[i - 11]
            } else if i == 30 {
                0x03u8
            } else if i == 31 {
                0x01u8
            } else if i == 32 {
                0x03u8
            } else if i == 33 {
                0x3au8
            } else if i == 35 {
                0x50u8
            } else if i == 36 {
                0x01u8
            } else if i == 44 {
                match options.on_air {
                    Some(OnAirPref::On) => 0x81u8,
                    Some(OnAirPref::Off) => 0x80u8,
                    None => 0u8,
                }
            } else if i == 60 {
                match options.quantize {
                    Some(q) => 0x80u8 | q,
                    None => 0u8,
                }
            } else {
                0u8
            },
    )
}

/// Generates a Stagehand preference write packet (0x6b, 124 bytes).
pub fn make_stagehand_pref_write_packet(host_device: &Device, options: StagehandPreferences) -> (r: Vec<u8>)
    ensures
        r@ == pref_write_packet(*host_device, options),
{
    let mut packet = zeros(124);
    let header = prolink_header_bytes();
    let name = build_name(host_device);
    let mut i: usize = 0;
    while i < 10
        invariant
            packet@.len() == 124,
            header@ == prolink_header(),
            i <= 10,
            forall|k: int| 0 <= k < i ==> packet@[k] == prolink_header()[k],
            forall|k: int| i <= k < 124 ==> packet@[k] == 0,
        decreases 10 - i,
    {
        packet.set(i, header[i]);
        i = i + 1;
    }
    // 10: opcode 0x6b
    packet.set(10, 0x6b);
    // 11-30: device name; its trailing byte (30) is set to 0x03
    let mut j: usize = 0;
    while j < 19
        invariant
            packet@.len() == 124,
            name@ == name_field(host_device.name@),
            j <= 19,
            forall|k: int| 0 <= k < 10 ==> packet@[k] == prolink_header()[k],
            packet@[10] == 0x6b,
            forall|k: int| 11 <= k < 11 + j ==> packet@[k] == name_field(host_device.name@)[k - 11],
            forall|k: int| 11 + j <= k < 124 ==> packet@[k] == 0,
        decreases 19 - j,
    {
        packet.set(11 + j, name[j]);
        j = j + 1;
    }
    packet.set(30, 0x03);
    // 31: 0x01 (subscription-id-a constant)
    packet.set(31, 0x01);
    // 32: 0x03 (constant)
    packet.set(32, 0x03);
    // 33: Stagehand sub-id constant 0x3a
    packet.set(33, 0x3a);
    // 34-35: body length 0x0050 (80 bytes)
    packet.set(35, 0x50);
    // 36: transaction flag (0x01 = write)
    packet.set(36, 0x01);
    // 44: on_air slot (0x80 = OFF, 0x81 = ON, 0x00 = untouched)
    match options.on_air {
        Some(OnAirPref::On) => packet.set(44, 0x81),
        Some(OnAirPref::Off) => packet.set(44, 0x80),
        None => {},
    }
    // 60: quantize slot (0x80 | enum_index, e.g. 0x81, 0x82 etc.)
    match options.quantize {
        Some(q) => packet.set(60, 0x80 | q),
        None => {},
    }
    assert(packet@ =~= pref_write_packet(*host_device, options));
    packet
}

} // verus!
