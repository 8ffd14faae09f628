//! Network configuration, and the choices made when connecting: which
//! device number and name to announce. Sockets, announcers and the other
//! services are started by the caller with what these functions decide.

use vstd::prelude::*;
use crate::constants::{DEFAULT_VCDJ_ID, MAX_CDJ_DEVICE_ID};
use crate::error::Error;
use crate::localdb::database_adapter::DatabasePreference;
use crate::text::owned;
use rand::RngExt;

verus! {

/// The message given when connecting before a network interface is known.
pub const CONNECT_ERROR_HELP: &'static str = "Network must be configured. Try using `autoconfig_from_peers` or `configure`";

/// How to join the network.
#[derive(Debug, Clone, Copy, PartialEq, Eq, Hash, Structural)]
pub enum ConnectMethod {
    /// Actively join as a Virtual CDJ player.
    Active,
    /// Actively join posing as a Pioneer Stagehand iOS app device.
    Stagehand,
}

impl Default for ConnectMethod {
    fn default() -> (r: ConnectMethod)
        ensures
            r == ConnectMethod::Active,
    {
        ConnectMethod::Active
    }
}

/// The network interface to listen for devices on.
#[derive(Debug, Clone, PartialEq, Eq)]
pub struct InterfaceInfo {
    /// The interface's name.
    pub name: String,
    /// Its IPv4 address, most significant byte first.
    pub address: [u8; 4],
    /// Its IPv4 netmask, most significant byte first.
    pub netmask: [u8; 4],
}

/// Configuration for the network.
#[derive(Debug, Clone, PartialEq, Eq)]
pub struct NetworkConfig {
    /// The network interface to listen for devices on the network over.
    pub iface: Option<InterfaceInfo>,
    /// The ID of the virtual CDJ or Stagehand device to pose as. Choose one
    /// above 6: a CDJ can not share its number with us.
    pub vcdj_id: Option<u8>,
    /// The name to announce the virtual CDJ or Stagehand device as.
    /// Default: 'ProLink-Connect' (or 'Stagehand' when the connect method is
    /// Stagehand).
    pub vcdj_name: Option<String>,
    /// Go through the complete startup sequence before regular keep-alive
    /// announcements.
    pub full_startup: bool,
    /// Send announcer packets to Pioneer Stagehand devices (diagnostics
    /// only: Stagehand has been observed to crash on them).
    pub announce_to_stagehand: bool,
    /// Database format preference for loading rekordbox databases.
    pub database_preference: DatabasePreference,
    /// Connection method to use.
    pub connect_method: ConnectMethod,
}

impl Default for NetworkConfig {
    fn default() -> (r: NetworkConfig)
        ensures
            r.iface is None,
            r.vcdj_id is None,
            r.vcdj_name is None,
            !r.full_startup,
            !r.announce_to_stagehand,
            r.database_preference == DatabasePreference::Auto,
            r.connect_method == ConnectMethod::Active,
    {
        NetworkConfig {
            iface: None,
            vcdj_id: None,
            vcdj_name: None,
            full_startup: false,
            announce_to_stagehand: false,
            database_preference: DatabasePreference::Auto,
            connect_method: ConnectMethod::Active,
        }
    }
}

/// A partial configuration: only the fields given change.
#[derive(Debug, Clone, PartialEq, Eq)]
pub struct NetworkConfigUpdate {
    pub iface: Option<InterfaceInfo>,
    pub vcdj_id: Option<u8>,
    pub vcdj_name: Option<String>,
    pub full_startup: Option<bool>,
    pub announce_to_stagehand: Option<bool>,
    pub database_preference: Option<DatabasePreference>,
    pub connect_method: Option<ConnectMethod>,
}

/// A field after an update: the new value where one is given.
pub open spec fn updated<T>(old: T, new: Option<T>) -> T {
    match new {
        Some(v) => v,
        None => old,
    }
}

/// An optional field after an update: set where a value is given.
pub open spec fn updated_opt<T>(old: Option<T>, new: Option<T>) -> Option<T> {
    match new {
        Some(v) => Some(v),
        None => old,
    }
}

/// The configuration after an update.
pub open spec fn configured(c: NetworkConfig, u: NetworkConfigUpdate) -> NetworkConfig {
    NetworkConfig {
        iface: updated_opt(c.iface, u.iface),
        vcdj_id: updated_opt(c.vcdj_id, u.vcdj_id),
        vcdj_name: updated_opt(c.vcdj_name, u.vcdj_name),
        full_startup: updated(c.full_startup, u.full_startup),
        announce_to_stagehand: updated(c.announce_to_stagehand, u.announce_to_stagehand),
        database_preference: updated(c.database_preference, u.database_preference),
        connect_method: updated(c.connect_method, u.connect_method),
    }
}

impl NetworkConfig {
    /// Configure / reconfigure: only the fields given change.
    pub fn configure(&mut self, update: NetworkConfigUpdate)
        ensures
            *final(self) == configured(*old(self), update),
    {
        if let Some(v) = update.iface {
            self.iface = Some(v);
        }
        if let Some(v) = update.vcdj_id {
            self.vcdj_id = Some(v);
        }
        if let Some(v) = update.vcdj_name {
            self.vcdj_name = Some(v);
        }
        if let Some(v) = update.full_startup {
            self.full_startup = v;
        }
        if let Some(v) = update.announce_to_stagehand {
            self.announce_to_stagehand = v;
        }
        if let Some(v) = update.database_preference {
            self.database_preference = v;
        }
        if let Some(v) = update.connect_method {
            self.connect_method = v;
        }
    }
}

/// The device number given when configuring from a peer: the default
/// virtual CDJ number, or in Stagehand mode the number drawn for it.
pub open spec fn default_id(m: ConnectMethod, stagehand_id: u8) -> u8 {
    if m == ConnectMethod::Stagehand {
        stagehand_id
    } else {
        DEFAULT_VCDJ_ID
    }
}

impl NetworkConfig {
    /// Configures the network from the first peer seen: listen on the
    /// interface it was seen on, and pose under the default device number
    /// of the connect method.
    pub fn autoconfigure(&mut self, iface: InterfaceInfo, stagehand_id: u8)
        ensures
            *final(self) == (NetworkConfig {
                iface: Some(iface),
                vcdj_id: Some(default_id(old(self).connect_method, stagehand_id)),
                ..*old(self)
            }),
    {
        let id = match self.connect_method {
            ConnectMethod::Stagehand => stagehand_id,
            ConnectMethod::Active => DEFAULT_VCDJ_ID,
        };
        self.vcdj_id = Some(id);
        self.iface = Some(iface);
    }
}

/// The device number to announce: the configured one, else the default
/// virtual CDJ number, or in Stagehand mode the number drawn for it.
pub open spec fn announced_id(c: NetworkConfig, stagehand_id: u8) -> u8 {
    match c.vcdj_id {
        Some(id) => id,
        None => if c.connect_method == ConnectMethod::Stagehand {
            stagehand_id
        } else {
            DEFAULT_VCDJ_ID
        },
    }
}

/// The name to announce: the configured one, else 'Stagehand' in Stagehand
/// mode, else none (the announcer then uses its own default).
pub open spec fn announced_name(c: NetworkConfig) -> Option<Seq<char>> {
    match c.vcdj_name {
        Some(n) => Some(n@),
        None => if c.connect_method == ConnectMethod::Stagehand {
            Some("Stagehand"@)
        } else {
            None
        },
    }
}

/// Joining as a virtual CDJ without a configured number announces a number
/// outside the player range, so it can never knock a real CDJ off the
/// network.
pub proof fn law_default_id_outside_player_range(c: NetworkConfig, stagehand_id: u8)
    requires
        c.vcdj_id is None,
        c.connect_method == ConnectMethod::Active,
    ensures
        announced_id(c, stagehand_id) > MAX_CDJ_DEVICE_ID,
{
}

/// A disconnect/connect cycle presents the identity first announced: once
/// connected, connecting again announces the same device number and name,
/// whatever number would be drawn for Stagehand mode then.
pub proof fn law_identity_survives_a_reconnect(c: NetworkConfig, first_draw: u8, second_draw: u8)
    ensures
        announced_id(connected_config(c, first_draw), second_draw) == announced_id(c, first_draw),
        announced_name(connected_config(c, first_draw)) == announced_name(c),
{
}

/// What connecting announces us as.
#[derive(Debug, Clone, PartialEq, Eq)]
pub struct ConnectPlan {
    pub iface: InterfaceInfo,
    pub vcdj_id: u8,
    pub vcdj_name: Option<String>,
    pub connect_method: ConnectMethod,
}

/// The configuration after connecting: the device number announced is kept,
/// so that a later connect presents the same identity.
pub open spec fn connected_config(c: NetworkConfig, stagehand_id: u8) -> NetworkConfig {
    NetworkConfig { vcdj_id: Some(announced_id(c, stagehand_id)), ..c }
}

/// The choices made when connecting with configuration `c`: fails with a
/// state error until an interface is configured. `stagehand_id` is the
/// device number drawn for Stagehand mode, used only when none is
/// configured. The number chosen is kept in the configuration.
pub fn plan_connect(c: &mut NetworkConfig, stagehand_id: u8) -> (r: Result<ConnectPlan, Error>)
    ensures
        r is Err <==> old(c).iface is None,
        r is Err ==> *final(c) == *old(c),
        r matches Err(e) ==> e matches Error::State(m) && m@ == CONNECT_ERROR_HELP@,
        r matches Ok(p) ==> {
            &&& Some(p.iface) == old(c).iface
            &&& p.vcdj_id == announced_id(*old(c), stagehand_id)
            &&& match p.vcdj_name {
                Some(n) => announced_name(*old(c)) == Some(n@),
                None => announced_name(*old(c)) is None,
            }
            &&& p.connect_method == old(c).connect_method
            &&& *final(c) == connected_config(*old(c), stagehand_id)
        },
{
    let iface = match &c.iface {
        Some(i) => InterfaceInfo { name: i.name.clone(), address: i.address, netmask: i.netmask },
        None => return Err(Error::State(owned(CONNECT_ERROR_HELP))),
    };
    let stagehand = match c.connect_method {
        ConnectMethod::Stagehand => true,
        ConnectMethod::Active => false,
    };
    let vcdj_id = match c.vcdj_id {
        Some(id) => id,
        None => if stagehand {
            stagehand_id
        } else {
            DEFAULT_VCDJ_ID
        },
    };
    let vcdj_name = match &c.vcdj_name {
        Some(n) => Some(n.clone()),
        None => if stagehand {
            let s = "Stagehand";
            proof {
                reveal_strlit("Stagehand");
            }
            Some(owned(s))
        } else {
            None
        },
    };
    c.vcdj_id = Some(vcdj_id);
    Ok(ConnectPlan { iface, vcdj_id, vcdj_name, connect_method: c.connect_method })
}

/// The first device number drawn for Stagehand mode.
pub const FIRST_STAGEHAND_DEVICE_ID: u8 = 141;

/// The last device number drawn for Stagehand mode.
pub const LAST_STAGEHAND_DEVICE_ID: u8 = 211;

/// A number drawn uniformly from `lo..=hi` by the thread's random number
/// generator (`rand::rng().random_range(lo..=hi)`), which rand documents to
/// lie in that range; which one comes is not known. An empty range panics,
/// so `lo <= hi` is required.
#[verifier::external_body]
fn random_in(lo: u8, hi: u8) -> (r: u8)
    requires
        lo <= hi,
    ensures
        lo <= r <= hi,
{
    rand::rng().random_range(lo..=hi)
}

/// Draws the device number a Stagehand session announces, from the
/// Stagehand range.
pub fn generate_stagehand_device_id() -> (r: u8)
    ensures
        FIRST_STAGEHAND_DEVICE_ID <= r <= LAST_STAGEHAND_DEVICE_ID,
{
    random_in(FIRST_STAGEHAND_DEVICE_ID, LAST_STAGEHAND_DEVICE_ID)
}

/// Connecting in Stagehand mode without a configured number announces a
/// number of the Stagehand range, above the player range.
pub proof fn law_stagehand_id_in_range(c: NetworkConfig, draw: u8)
    requires
        c.vcdj_id is None,
        c.connect_method == ConnectMethod::Stagehand,
        FIRST_STAGEHAND_DEVICE_ID <= draw <= LAST_STAGEHAND_DEVICE_ID,
    ensures
        FIRST_STAGEHAND_DEVICE_ID <= announced_id(c, draw) <= LAST_STAGEHAND_DEVICE_ID,
        announced_id(c, draw) > MAX_CDJ_DEVICE_ID,
{
}

/// The choices made when connecting with configuration `c`, drawing the
/// Stagehand device number from the Stagehand range: as [`plan_connect`]
/// with some number of that range.
pub fn connect_plan(c: &mut NetworkConfig) -> (r: Result<ConnectPlan, Error>)
    ensures
        r is Err <==> old(c).iface is None,
        r is Err ==> *final(c) == *old(c),
        r matches Err(e) ==> e matches Error::State(m) && m@ == CONNECT_ERROR_HELP@,
        r matches Ok(p) ==> {
            &&& Some(p.iface) == old(c).iface
            &&& match p.vcdj_name {
                Some(n) => announced_name(*old(c)) == Some(n@),
                None => announced_name(*old(c)) is None,
            }
            &&& p.connect_method == old(c).connect_method
            &&& exists|d: u8|
                FIRST_STAGEHAND_DEVICE_ID <= d <= LAST_STAGEHAND_DEVICE_ID && p.vcdj_id == announced_id(*old(c), d)
                    && *final(c) == connected_config(*old(c), d)
        },
{
    let draw = generate_stagehand_device_id();
    plan_connect(c, draw)
}

impl NetworkConfig {
    /// Takes the interface a peer was seen on, as [`NetworkConfig::autoconfigure`]
    /// does, drawing the Stagehand device number from the Stagehand range.
    pub fn autoconfig(&mut self, iface: InterfaceInfo)
        ensures
            exists|d: u8|
                FIRST_STAGEHAND_DEVICE_ID <= d <= LAST_STAGEHAND_DEVICE_ID && *final(self) == (NetworkConfig {
                    iface: Some(iface),
                    vcdj_id: Some(#[trigger] default_id(old(self).connect_method, d)),
                    ..*old(self)
                }),
    {
        let draw = generate_stagehand_device_id();
        self.autoconfigure(iface, draw);
    }
}

} // verus!
