//! Devices on the network: what their announcements say, and the table of
//! devices currently announcing themselves. The caller owns the sockets and
//! the timers: it hands each announce packet to [`DeviceTable::handle_announce`],
//! reports the outcome to its listeners, and removes a device with
//! [`DeviceTable::remove`] when it has not announced itself for the timeout.

pub mod utils;

use std::collections::HashMap;
use vstd::prelude::*;
use crate::constants::{prolink_header, VIRTUAL_CDJ_NAME};
use crate::bytes::has_at;
use crate::devices::utils::{announce_len, announced_device, device_from_packet, keep_alive_kind};
use crate::text::{owned, str_eq};
use crate::types::Device;
use crate::utils::nul_padded_text;

verus! {

broadcast use vstd::std_specs::hash::group_hash_axioms;

/// Configuration of the device table.
#[derive(Debug, Clone, PartialEq, Eq)]
pub struct DeviceManagerConfig {
    /// Milliseconds after which a device is considered to have disconnected
    /// if it has not broadcast an announcement. Default: 10 seconds.
    pub device_timeout_ms: u64,
    /// The name of the virtual CDJ to filter out from device announcements,
    /// so that our own device does not appear in the device list.
    /// Default: [`VIRTUAL_CDJ_NAME`].
    pub vcdj_name: String,
}

impl Default for DeviceManagerConfig {
    fn default() -> (r: DeviceManagerConfig)
        ensures
            r.device_timeout_ms == 10_000,
            r.vcdj_name@ == VIRTUAL_CDJ_NAME@,
    {
        DeviceManagerConfig { device_timeout_ms: 10_000, vcdj_name: owned(VIRTUAL_CDJ_NAME) }
    }
}

impl DeviceManagerConfig {
    /// Change the configuration. Only the fields given change.
    pub fn reconfigure(&mut self, device_timeout_ms: Option<u64>, vcdj_name: Option<String>)
        ensures
            final(self).device_timeout_ms == match device_timeout_ms {
                Some(t) => t,
                None => old(self).device_timeout_ms,
            },
            final(self).vcdj_name == match vcdj_name {
                Some(n) => n,
                None => old(self).vcdj_name,
            },
    {
        if let Some(t) = device_timeout_ms {
            self.device_timeout_ms = t;
        }
        if let Some(n) = vcdj_name {
            self.vcdj_name = n;
        }
    }
}

/// The upper bound, in milliseconds, to wait for a device to be on the
/// network when asking for it to be there.
pub const ENSURED_TIMEOUT_MS: u64 = 2000;

/// What an announce packet does to the table.
#[derive(Debug, Clone, PartialEq, Eq)]
pub enum AnnounceEvent {
    /// Not a device announcement, or our own.
    Ignored,
    /// A device that was not on the network: it is listed now.
    Connected(Device),
    /// A device already listed announced itself again.
    Announced(Device),
}

/// A packet that announces a device: the magic header, the keep-alive kind
/// and the full length.
pub open spec fn is_device_announcement(p: Seq<u8>) -> bool {
    &&& has_at(p, 0, prolink_header())
    &&& p.len() >= announce_len()
    &&& p[0x0a] == keep_alive_kind()
}

/// The name an announcement carries.
pub open spec fn announced_name_of(p: Seq<u8>) -> Seq<char> {
    nul_padded_text(p.subrange(0x0c, 0x20))
}

/// One announce packet handled: ignored (the table unchanged) where it is
/// no device announcement or carries our own name; else the device it
/// describes, listed where it was not yet.
pub open spec fn announce_step(
    before: Map<u8, Device>,
    p: Seq<u8>,
    own: Seq<char>,
    r: AnnounceEvent,
    after: Map<u8, Device>,
) -> bool {
    &&& r is Ignored <==> (!is_device_announcement(p) || announced_name_of(p) == own)
    &&& r is Ignored ==> after == before
    &&& r matches AnnounceEvent::Connected(d) ==> {
        &&& announced_device(p, d)
        &&& !before.contains_key(d.id)
        &&& after == before.insert(d.id, d)
    }
    &&& r matches AnnounceEvent::Announced(d) ==> {
        &&& announced_device(p, d)
        &&& before.contains_key(d.id)
        &&& after == before
    }
}

/// A keep-alive announcement (type byte 0x06 at 10, at least 0x35 bytes)
/// from a device not named as we are lists that device under the number at
/// byte 0x24: it is reported connected exactly when that number was not
/// listed before, and the devices already listed stay.
pub proof fn law_announced_devices_are_listed(
    before: Map<u8, Device>,
    p: Seq<u8>,
    own: Seq<char>,
    r: AnnounceEvent,
    after: Map<u8, Device>,
)
    requires
        announce_step(before, p, own, r, after),
        has_at(p, 0, prolink_header()),
        p.len() >= 0x35,
        p[10] == 0x06,
        nul_padded_text(p.subrange(0x0c, 0x20)) != own,
    ensures
        after.contains_key(p[36]),
        r is Connected <==> !before.contains_key(p[36]),
        forall|k: u8| #[trigger] before.contains_key(k) ==> after.contains_key(k) && after[k] == before[k],
{
}

/// No listed device goes by the name `own`.
pub open spec fn none_named(m: Map<u8, Device>, own: Seq<char>) -> bool {
    forall|k: u8| #[trigger] m.contains_key(k) ==> m[k].name@ != own
}

/// Our own device never appears in the device list: announcements under
/// our own name leave the table as it was.
pub proof fn law_own_device_never_listed(
    before: Map<u8, Device>,
    p: Seq<u8>,
    own: Seq<char>,
    r: AnnounceEvent,
    after: Map<u8, Device>,
)
    requires
        announce_step(before, p, own, r, after),
        none_named(before, own),
    ensures
        none_named(after, own),
{
    if let AnnounceEvent::Connected(d) = r {
        assert(d.name@ == announced_name_of(p));
        assert forall|k: u8| #[trigger] after.contains_key(k) implies after[k].name@ != own by {
            if k != d.id {
                assert(before.contains_key(k));
            }
        }
    }
}

fn copy_device(d: &Device) -> (r: Device)
    ensures
        r == *d,
{
    Device { name: d.name.clone(), id: d.id, device_type: d.device_type, mac_addr: d.mac_addr, ip: d.ip }
}

/// The devices currently on the network, by device number.
pub struct DeviceTable {
    devices: HashMap<u8, Device>,
}

impl View for DeviceTable {
    type V = Map<u8, Device>;

    closed spec fn view(&self) -> Map<u8, Device> {
        self.devices@
    }
}

impl DeviceTable {
    pub fn new() -> (r: DeviceTable)
        ensures
            r@ == Map::<u8, Device>::empty(),
    {
        DeviceTable { devices: HashMap::new() }
    }

    /// Handles an announce packet. A device that announces itself under our
    /// own name is ignored. A device not yet listed is listed; one already
    /// listed keeps the entry it was first listed with.
    pub fn handle_announce(&mut self, packet: &[u8], own_name: &str) -> (r: AnnounceEvent)
        ensures
            announce_step(old(self)@, packet@, own_name@, r, final(self)@),
    {
        let device = match device_from_packet(packet) {
            Ok(Some(device)) => device,
            Ok(None) => return AnnounceEvent::Ignored,
            Err(_) => return AnnounceEvent::Ignored,
        };
        if str_eq(device.name.as_str(), own_name) {
            return AnnounceEvent::Ignored;
        }
        if self.devices.contains_key(&device.id) {
            AnnounceEvent::Announced(device)
        } else {
            self.devices.insert(device.id, copy_device(&device));
            AnnounceEvent::Connected(device)
        }
    }

    /// Removes a device that stopped announcing itself, handing back its
    /// entry where it was listed.
    pub fn remove(&mut self, id: u8) -> (r: Option<Device>)
        ensures
            r == (if old(self)@.contains_key(id) {
                Some(old(self)@[id])
            } else {
                None
            }),
            final(self)@ == old(self)@.remove(id),
    {
        self.devices.remove(&id)
    }

    /// The device with the given id, if it is currently on the network.
    pub fn device(&self, id: u8) -> (r: Option<Device>)
        ensures
            r == (if self@.contains_key(id) {
                Some(self@[id])
            } else {
                None
            }),
    {
        match self.devices.get(&id) {
            Some(d) => Some(copy_device(d)),
            None => None,
        }
    }

    /// The number of devices on the network.
    pub fn len(&self) -> (r: usize)
        ensures
            r == self@.len(),
    {
        self.devices.len()
    }
}

} // verus!
