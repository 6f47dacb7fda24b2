//! The records the backend stores and hands to its clients, and how a
//! record is made from a request and the row id the database assigned.
use vstd::prelude::*;

verus! {

/// An access point and its wireless interfaces.
#[derive(Debug, Clone)]
pub struct AccessPoint {
    pub id: i32,
    pub name: String,
    pub host: String,
    pub port: i32,
    pub interfaces: Vec<Interface>,
}

/// A wireless interface of an access point, optionally filtered to the
/// devices of one group.
#[derive(Debug, Clone)]
pub struct Interface {
    pub id: i32,
    pub ap_id: i32,
    pub iface_name: String,
    pub group_id: Option<i32>,
    pub last_synced_at: Option<i32>,
    pub needs_sync: bool,
}

/// What a sync of an interface's MAC filter came to.
#[derive(Debug, Clone)]
pub struct SyncResult {
    pub interface_id: i32,
    pub success: bool,
    pub message: String,
    pub mac_count: i32,
}

/// A network device known by its MAC address.
#[derive(Debug, Clone)]
pub struct Device {
    pub id: i32,
    pub name: String,
    pub description: String,
    pub network: String,
    pub mac_address: String,
    pub ip_address: Option<String>,
}

/// The fields of a device to be created.
#[derive(Debug, Clone)]
pub struct CreateDevice {
    pub name: String,
    pub description: String,
    pub network: String,
    pub mac_address: String,
    pub ip_address: Option<String>,
}

/// The new fields of an existing device.
#[derive(Debug, Clone)]
pub struct UpdateDevice {
    pub id: i32,
    pub name: String,
    pub description: String,
    pub network: String,
    pub mac_address: String,
    pub ip_address: Option<String>,
}

/// A group of devices.
#[derive(Debug, Clone)]
pub struct Group {
    pub id: i32,
    pub name: String,
    pub description: String,
    pub devices: Vec<Device>,
}

/// A device's membership in a group.
#[derive(Debug, Clone)]
pub struct GroupDeviceInput {
    pub group_id: i32,
    pub device_id: i32,
}

/// The value stored in `needs_sync` for a newly added interface: 1 when
/// a group is assigned, so that its filter is pushed, and 0 otherwise.
pub fn initial_needs_sync(group_id: Option<i32>) -> (flag: i32)
    ensures
        flag == (if group_id is Some { 1i32 } else { 0i32 }),
{
    if group_id.is_some() {
        1
    } else {
        0
    }
}

impl Interface {
    /// An interface read back from its stored row; any nonzero
    /// `needs_sync` value means that the filter must be pushed.
    pub fn from_row(
        id: i32,
        ap_id: i32,
        iface_name: String,
        group_id: Option<i32>,
        last_synced_at: Option<i32>,
        needs_sync: i32,
    ) -> (iface: Interface)
        ensures
            iface.id == id,
            iface.ap_id == ap_id,
            iface.iface_name == iface_name,
            iface.group_id == group_id,
            iface.last_synced_at == last_synced_at,
            iface.needs_sync == (needs_sync != 0),
    {
        Interface { id, ap_id, iface_name, group_id, last_synced_at, needs_sync: needs_sync != 0 }
    }

    /// The interface as added under the row id `rowid`: its own `id` in the
    /// request is ignored, it has never been synced, and it needs a sync
    /// exactly when a group is assigned.
    pub fn added(self, rowid: i64) -> (iface: Interface)
        ensures
            iface.id == rowid as i32,
            iface.ap_id == self.ap_id,
            iface.iface_name == self.iface_name,
            iface.group_id == self.group_id,
            iface.last_synced_at is None,
            iface.needs_sync == self.group_id is Some,
    {
        let flag = initial_needs_sync(self.group_id);
        Interface {
            id: rowid as i32,
            ap_id: self.ap_id,
            iface_name: self.iface_name,
            group_id: self.group_id,
            last_synced_at: None,
            needs_sync: flag != 0,
        }
    }
}

impl AccessPoint {
    /// The access point as created under the row id `rowid`; the `id` and
    /// `interfaces` of the request are ignored.
    pub fn created(self, rowid: i64) -> (ap: AccessPoint)
        ensures
            ap.id == rowid as i32,
            ap.name == self.name,
            ap.host == self.host,
            ap.port == self.port,
            ap.interfaces@.len() == 0,
    {
        AccessPoint {
            id: rowid as i32,
            name: self.name,
            host: self.host,
            port: self.port,
            interfaces: Vec::new(),
        }
    }

    /// The access point as updated; the `interfaces` of the request are ignored.
    pub fn updated(self) -> (ap: AccessPoint)
        ensures
            ap.id == self.id,
            ap.name == self.name,
            ap.host == self.host,
            ap.port == self.port,
            ap.interfaces@.len() == 0,
    {
        AccessPoint {
            id: self.id,
            name: self.name,
            host: self.host,
            port: self.port,
            interfaces: Vec::new(),
        }
    }
}

impl CreateDevice {
    /// The device as created under the row id `rowid`.
    pub fn into_device(self, rowid: i64) -> (device: Device)
        ensures
            device.id == rowid as i32,
            device.name == self.name,
            device.description == self.description,
            device.network == self.network,
            device.mac_address == self.mac_address,
            device.ip_address == self.ip_address,
    {
        Device {
            id: rowid as i32,
            name: self.name,
            description: self.description,
            network: self.network,
            mac_address: self.mac_address,
            ip_address: self.ip_address,
        }
    }
}

impl UpdateDevice {
    /// The device as updated.
    pub fn into_device(self) -> (device: Device)
        ensures
            device.id == self.id,
            device.name == self.name,
            device.description == self.description,
            device.network == self.network,
            device.mac_address == self.mac_address,
            device.ip_address == self.ip_address,
    {
        Device {
            id: self.id,
            name: self.name,
            description: self.description,
            network: self.network,
            mac_address: self.mac_address,
            ip_address: self.ip_address,
        }
    }
}

impl Group {
    /// The group as created under the row id `rowid`, with no devices yet;
    /// the `id` and `devices` of the request are ignored.
    pub fn created(self, rowid: i64) -> (group: Group)
        ensures
            group.id == rowid as i32,
            group.name == self.name,
            group.description == self.description,
            group.devices@.len() == 0,
    {
        Group { id: rowid as i32, name: self.name, description: self.description, devices: Vec::new() }
    }

    /// The group as updated; the `devices` of the request are ignored.
    pub fn updated(self) -> (group: Group)
        ensures
            group.id == self.id,
            group.name == self.name,
            group.description == self.description,
            group.devices@.len() == 0,
    {
        Group { id: self.id, name: self.name, description: self.description, devices: Vec::new() }
    }
}

} // verus!
