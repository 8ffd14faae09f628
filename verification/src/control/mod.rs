//! Remote control of CDJs on the network: the packets that start and stop
//! players.

pub mod stagehand;

use vstd::prelude::*;
use crate::constants::{prolink_header, prolink_header_bytes};
use crate::control::stagehand::{
    make_stagehand_pref_write_packet, make_stagehand_transport_packet, pref_write_packet, transport_packet,
    StagehandPreferences,
};
use crate::error::Error;
use crate::text::owned;
use crate::types::{Device, DeviceType, PlayState};
use crate::utils::{append_bytes, build_name, name_field};
use vstd::string::StringExecFns;
use rand::RngExt;

verus! {

/// The byte that asks a player for a play state: 0x01 to cue, 0x00 to play.
pub open spec fn state_byte_of(p: PlayState) -> Option<u8> {
    match p {
        PlayState::Cued => Some(0x01),
        PlayState::Playing => Some(0x00),
        _ => None,
    }
}

/// The play state packet (40 bytes): header, type 0x02, the host's name,
/// 0x01 0x00, the host's id, 0x00 0x04, then one byte per player 0-3.
pub open spec fn playstate_packet(host: Device, target_id: u8, state_byte: u8) -> Seq<u8> {
    prolink_header() + seq![0x02u8] + name_field(host.name@) + seq![0x01u8, 0x00, host.id, 0x00, 0x04] + Seq::new(
        4,
        |i: int| if i == target_id { state_byte } else { 0u8 },
    )
}

/// The layout of a play state packet: 40 bytes, the magic header, the type
/// byte 0x02 at 10, the host's id at 33, and from 36 one byte per player 0-3:
/// the state byte for the target player and 0 for the others.
pub proof fn law_playstate_packet_layout(host: Device, target_id: u8, state_byte: u8)
    ensures
        playstate_packet(host, target_id, state_byte).len() == 40,
        playstate_packet(host, target_id, state_byte).subrange(0, 10) == seq![
            0x51u8, 0x73, 0x70, 0x74, 0x31, 0x57, 0x6d, 0x4a, 0x4f, 0x4c,
        ],
        playstate_packet(host, target_id, state_byte)[10] == 0x02,
        playstate_packet(host, target_id, state_byte)[33] == host.id,
        forall|i: int| 36 <= i < 40 ==> #[trigger] playstate_packet(host, target_id, state_byte)[i] == if i - 36 == target_id {
            state_byte
        } else {
            0u8
        },
{
    let p = playstate_packet(host, target_id, state_byte);
    assert(p.subrange(0, 10) =~= prolink_header());
}

/// A play state is asked for by its byte only for cueing (0x01) and
/// playing (0x00).
pub proof fn law_play_state_bytes(p: PlayState)
    ensures
        state_byte_of(p) is Some <==> (p == PlayState::Cued || p == PlayState::Playing),
        p == PlayState::Cued ==> state_byte_of(p) == Some(1u8),
        p == PlayState::Playing ==> state_byte_of(p) == Some(0u8),
{
}

/// The name of a play state, as it is written.
pub open spec fn play_state_text(p: PlayState) -> Seq<char> {
    match p {
        PlayState::Empty => "Empty"@,
        PlayState::Loading => "Loading"@,
        PlayState::Playing => "Playing"@,
        PlayState::Looping => "Looping"@,
        PlayState::Paused => "Paused"@,
        PlayState::Cued => "Cued"@,
        PlayState::Cuing => "Cuing"@,
        PlayState::PlatterHeld => "PlatterHeld"@,
        PlayState::Searching => "Searching"@,
        PlayState::SpunDown => "SpunDown"@,
        PlayState::Ended => "Ended"@,
    }
}

fn play_state_name(p: PlayState) -> (r: &'static str)
    ensures
        r@ == play_state_text(p),
{
    match p {
        PlayState::Empty => "Empty",
        PlayState::Loading => "Loading",
        PlayState::Playing => "Playing",
        PlayState::Looping => "Looping",
        PlayState::Paused => "Paused",
        PlayState::Cued => "Cued",
        PlayState::Cuing => "Cuing",
        PlayState::PlatterHeld => "PlatterHeld",
        PlayState::Searching => "Searching",
        PlayState::SpunDown => "SpunDown",
        PlayState::Ended => "Ended",
    }
}

/// Generates the packet used to control the playstate of CDJs in active
/// connection mode. `play_state` must be [`PlayState::Cued`] or
/// [`PlayState::Playing`].
pub fn make_playstate_packet(host_device: &Device, device: &Device, play_state: PlayState) -> (r: Result<Vec<u8>, Error>)
    ensures
        r is Ok <==> state_byte_of(play_state) is Some,
        r matches Ok(p) ==> p@ == playstate_packet(*host_device, device.id, state_byte_of(play_state)->0),
        r matches Err(e) ==> e matches Error::State(m)
            && m@ == "cannot set play state "@ + play_state_text(play_state) + "; only Cued and Playing are supported"@,
{
    let state_byte: u8 = match play_state {
        PlayState::Cued => 0x01,
        PlayState::Playing => 0x00,
        other => {
            let mut msg = owned("cannot set play state ");
            msg.append(play_state_name(other));
            msg.append("; only Cued and Playing are supported");
            return Err(Error::State(msg));
        },
    };

    let mut p: Vec<u8> = Vec::new();
    let header = prolink_header_bytes();
    append_bytes(&mut p, &header);
    p.push(0x02);
    let name = build_name(host_device);
    append_bytes(&mut p, name.as_slice());
    p.push(0x01);
    p.push(0x00);
    p.push(host_device.id);
    p.push(0x00);
    p.push(0x04);
    let ghost before = p@;
    // One byte per player slot 0-3, indexed by the device id.
    let mut i: u8 = 0;
    while i < 4
        invariant
            i <= 4,
            p@ == before + Seq::new(i as nat, |k: int| if k == device.id { state_byte } else { 0u8 }),
        decreases 4 - i,
    {
        p.push(if i == device.id { state_byte } else { 0 });
        assert(p@ =~= before + Seq::new((i + 1) as nat, |k: int| if k == device.id { state_byte } else { 0u8 }));
        i = i + 1;
    }
    assert(p@ =~= playstate_packet(*host_device, device.id, state_byte));
    Ok(p)
}

/// What to send to a player: the packets, in order, and the port.
pub struct Outgoing {
    pub packets: Vec<Vec<u8>>,
    pub port: u16,
}

/// The control service can be used to control the play state of CDJs on
/// the network. It decides the packets; sending them is the caller's.
pub struct Control {
    host_device: Device,
    /// Randomized correlation byte per session for Stagehand commands.
    correlation_byte: u8,
}

/// A random byte from the thread's random number generator
/// (`rand::rng().random()`); nothing is known of its value.
#[verifier::external_body]
fn random_byte() -> (r: u8) {
    rand::rng().random()
}

impl Control {
    pub fn new(host_device: Device) -> (r: Control)
        ensures
            r.host() == host_device,
    {
        Control { host_device, correlation_byte: random_byte() }
    }

    /// The device the packets are sent as.
    pub closed spec fn host(&self) -> Device {
        self.host_device
    }

    /// The correlation byte of this session.
    pub closed spec fn correlation(&self) -> u8 {
        self.correlation_byte
    }

    fn transport(&self, op: u8, press: bool) -> (r: Vec<u8>)
        ensures
            r@ == transport_packet(self.host(), op, press, self.correlation()),
    {
        make_stagehand_transport_packet(&self.host_device, op, press, self.correlation_byte)
    }

    /// Start or stop a CDJ on the network: the packets to send to its beat
    /// port. A Stagehand host uses its own transport commands.
    pub fn set_play_state(&self, device: &Device, play_state: PlayState) -> (r: Result<Vec<Vec<u8>>, Error>)
        ensures
            self.host().device_type == DeviceType::Stagehand ==> (r matches Ok(ps) && if play_state == PlayState::Playing {
                ps@.map_values(|p: Vec<u8>| p@) == seq![
                    transport_packet(self.host(), 0x0f, true, self.correlation()),
                    transport_packet(self.host(), 0x14, true, self.correlation()),
                ]
            } else {
                ps@.map_values(|p: Vec<u8>| p@) == seq![transport_packet(self.host(), 0x14, false, self.correlation())]
            }),
            self.host().device_type != DeviceType::Stagehand ==> {
                &&& r is Ok <==> state_byte_of(play_state) is Some
                &&& r matches Ok(ps) ==> ps@.map_values(|p: Vec<u8>| p@) == seq![
                    playstate_packet(self.host(), device.id, state_byte_of(play_state)->0),
                ]
            },
    {
        if self.host_device.device_type == DeviceType::Stagehand {
            return Ok(if play_state == PlayState::Playing { self.play() } else { self.pause() });
        }
        let packet = make_playstate_packet(&self.host_device, device, play_state)?;
        let r = vec![packet];
        assert(r@.map_values(|p: Vec<u8>| p@) =~= seq![r@[0]@]);
        Ok(r)
    }

    /// Stagehand PLAY command (paired 0x0f and 0x14 packets).
    pub fn play(&self) -> (r: Vec<Vec<u8>>)
        ensures
            r@.map_values(|p: Vec<u8>| p@) == seq![
                transport_packet(self.host(), 0x0f, true, self.correlation()),
                transport_packet(self.host(), 0x14, true, self.correlation()),
            ],
    {
        let r = vec![self.transport(0x0f, true), self.transport(0x14, true)];
        assert(r@.map_values(|p: Vec<u8>| p@) =~= seq![r@[0]@, r@[1]@]);
        r
    }

    /// Stagehand PAUSE command (a 0x14 packet).
    pub fn pause(&self) -> (r: Vec<Vec<u8>>)
        ensures
            r@.map_values(|p: Vec<u8>| p@) == seq![transport_packet(self.host(), 0x14, false, self.correlation())],
    {
        let r = vec![self.transport(0x14, false)];
        assert(r@.map_values(|p: Vec<u8>| p@) =~= seq![r@[0]@]);
        r
    }

    /// Stagehand SEEK forward command. `press`: true to start seek, false
    /// to release.
    pub fn seek_forward(&self, press: bool) -> (r: Vec<u8>)
        ensures
            r@ == transport_packet(self.host(), 0x1a, press, self.correlation()),
    {
        self.transport(0x1a, press)
    }

    /// Stagehand SEEK backward command.
    pub fn seek_backward(&self, press: bool) -> (r: Vec<u8>)
        ensures
            r@ == transport_packet(self.host(), 0x1b, press, self.correlation()),
    {
        self.transport(0x1b, press)
    }

    /// Stagehand SKIP track command.
    pub fn skip(&self, press: bool) -> (r: Vec<u8>)
        ensures
            r@ == transport_packet(self.host(), 0x18, press, self.correlation()),
    {
        self.transport(0x18, press)
    }

    /// Stagehand preference write command (0x6b packet), for the status port.
    pub fn set_preference(&self, options: StagehandPreferences) -> (r: Vec<u8>)
        ensures
            r@ == pref_write_packet(self.host(), options),
    {
        make_stagehand_pref_write_packet(&self.host_device, options)
    }
}

} // verus!
