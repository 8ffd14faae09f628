//! Announce packet parsing.

use vstd::prelude::*;
use crate::bytes::has_at;
use crate::constants::{has_prolink_header, prolink_header};
use crate::error::Error;
use crate::text::{decimal, push_decimal, string_from_chars};
use crate::types::{device_type_of, Device, DeviceType};
use crate::utils::{nul_padded_text, string_from_nul_padded};

verus! {

broadcast use vstd::slice::group_slice_axioms;

/// The packet kind byte of a keep-alive announcement.
pub open spec fn keep_alive_kind() -> u8 {
    0x06
}

/// The length a keep-alive announcement must have to carry a device.
pub open spec fn announce_len() -> int {
    0x35
}

/// The message of a packet without the magic header.
pub open spec fn bad_header_text() -> Seq<char> {
    "Announce packet does not start with expected header"@
}

/// The message of an announcement cut short: its length in decimal.
pub open spec fn too_short_text(len: nat) -> Seq<char> {
    "Announce packet too short: "@ + decimal(len) + " bytes"@
}

/// The device an announcement of length at least 0x35 describes: its
/// name from the 20-byte field at 0x0c, its number at 0x24, its MAC
/// address at 0x26, its IPv4 address at 0x2c and its type at 0x34.
pub open spec fn announced_device(p: Seq<u8>, d: Device) -> bool {
    &&& d.name@ == nul_padded_text(p.subrange(0x0c, 0x20))
    &&& d.id == p[0x24]
    &&& d.mac_addr@ == p.subrange(0x26, 0x2c)
    &&& d.ip@ == p.subrange(0x2c, 0x30)
    &&& d.device_type == device_type_of(p[0x34])
}

/// The device of an announcement has its number from byte 0x24, its MAC
/// address from the six bytes at 0x26 and its IPv4 address from the four
/// bytes at 0x2c.
pub proof fn law_announced_device_fields(p: Seq<u8>, d: Device)
    requires
        p.len() >= 0x35,
        announced_device(p, d),
    ensures
        d.id == p[36],
        d.mac_addr@ == seq![p[38], p[39], p[40], p[41], p[42], p[43]],
        d.ip@ == seq![p[44], p[45], p[46], p[47]],
{
    assert(p.subrange(0x26, 0x2c) =~= seq![p[38], p[39], p[40], p[41], p[42], p[43]]);
    assert(p.subrange(0x2c, 0x30) =~= seq![p[44], p[45], p[46], p[47]]);
}

fn text(s: &str) -> (r: Vec<char>)
    ensures
        r@ == s@,
{
    crate::text::chars_of(s)
}

/// Converts an announce packet to a device object.
///
/// Returns `Ok(None)` for prolink packets that are not keep-alive (0x06)
/// announcements, and an error when the packet does not carry the prolink
/// header at all.
pub fn device_from_packet(packet: &[u8]) -> (r: Result<Option<Device>, Error>)
    ensures
        !has_at(packet@, 0, prolink_header()) <==> (r matches Err(Error::Protocol(m)) && m@ == bad_header_text()),
        has_at(packet@, 0, prolink_header()) ==> {
            &&& (packet@.len() <= 0x0a || packet@[0x0a] != keep_alive_kind()) <==> r == Ok::<
                Option<Device>,
                Error,
            >(None)
            &&& (packet@.len() > 0x0a && packet@[0x0a] == keep_alive_kind() && packet@.len() < announce_len())
                <==> (r matches Err(Error::Protocol(m)) && m@ == too_short_text(packet@.len()))
            &&& (packet@.len() >= announce_len() && packet@[0x0a] == keep_alive_kind()) <==> (r matches Ok(Some(d))
                && announced_device(packet@, d))
        },
{
    if !has_prolink_header(packet) {
        let m = "Announce packet does not start with expected header";
        proof {
            reveal_strlit("Announce packet does not start with expected header");
        }
        return Err(Error::Protocol(crate::text::owned(m)));
    }
    assert(packet@.len() >= 10);
    if packet.len() <= 0x0a || packet[0x0a] != 0x06 {
        return Ok(None);
    }

    if packet.len() < 0x35 {
        let mut cs = text("Announce packet too short: ");
        push_decimal(&mut cs, packet.len() as u64);
        let mut tail = text(" bytes");
        cs.append(&mut tail);
        proof {
            reveal_strlit("Announce packet too short: ");
            reveal_strlit(" bytes");
            reveal_strlit("Announce packet does not start with expected header");
            assert(cs@[16] == 't');
            assert(bad_header_text()[16] == 'd');
        }
        return Err(Error::Protocol(string_from_chars(cs.as_slice())));
    }

    let name = string_from_nul_padded(&packet[0x0c..0x0c + 20]);
    let mac_addr: [u8; 6] = [packet[0x26], packet[0x27], packet[0x28], packet[0x29], packet[0x2a], packet[0x2b]];
    let ip: [u8; 4] = [packet[0x2c], packet[0x2d], packet[0x2e], packet[0x2f]];
    assert(mac_addr@ =~= packet@.subrange(0x26, 0x2c));
    assert(ip@ =~= packet@.subrange(0x2c, 0x30));
    Ok(Some(Device { name, id: packet[0x24], device_type: DeviceType::from_u8(packet[0x34]), mac_addr, ip }))
}

} // verus!
