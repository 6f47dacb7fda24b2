use backend::models::{
    initial_needs_sync, AccessPoint, CreateDevice, Group, Interface, UpdateDevice,
};

#[test]
fn created_device_takes_row_id() {
    let args = CreateDevice {
        name: "printer".to_string(),
        description: "2nd floor".to_string(),
        network: "office".to_string(),
        mac_address: "AA:BB:CC:DD:EE:FF".to_string(),
        ip_address: Some("10.0.0.9".to_string()),
    };
    let d = args.into_device(12);
    assert_eq!(d.id, 12);
    assert_eq!(d.name, "printer");
    assert_eq!(d.description, "2nd floor");
    assert_eq!(d.network, "office");
    assert_eq!(d.mac_address, "AA:BB:CC:DD:EE:FF");
    assert_eq!(d.ip_address.as_deref(), Some("10.0.0.9"));
}

#[test]
fn row_id_wraps_to_i32() {
    let args = CreateDevice {
        name: String::new(),
        description: String::new(),
        network: String::new(),
        mac_address: String::new(),
        ip_address: None,
    };
    assert_eq!(args.into_device((1i64 << 32) + 5).id, 5);
}

#[test]
fn updated_device_keeps_fields() {
    let args = UpdateDevice {
        id: 3,
        name: "tv".to_string(),
        description: String::new(),
        network: "home".to_string(),
        mac_address: "11:22:33:44:55:66".to_string(),
        ip_address: None,
    };
    let d = args.into_device();
    assert_eq!(d.id, 3);
    assert_eq!(d.name, "tv");
    assert_eq!(d.network, "home");
    assert!(d.ip_address.is_none());
}

fn iface(group_id: Option<i32>) -> Interface {
    Interface {
        id: 99,
        ap_id: 2,
        iface_name: "wlan0".to_string(),
        group_id,
        last_synced_at: Some(5),
        needs_sync: false,
    }
}

#[test]
fn added_interface_needs_sync_iff_grouped() {
    assert_eq!(initial_needs_sync(Some(4)), 1);
    assert_eq!(initial_needs_sync(None), 0);
    let a = iface(Some(4)).added(17);
    assert_eq!(a.id, 17);
    assert_eq!(a.ap_id, 2);
    assert_eq!(a.iface_name, "wlan0");
    assert_eq!(a.group_id, Some(4));
    assert_eq!(a.last_synced_at, None);
    assert!(a.needs_sync);
    let b = iface(None).added(18);
    assert!(!b.needs_sync);
    assert_eq!(b.last_synced_at, None);
}

#[test]
fn interface_from_row_reads_flag() {
    let i = Interface::from_row(1, 2, "wlan1".to_string(), None, Some(10), 0);
    assert!(!i.needs_sync);
    assert_eq!(i.last_synced_at, Some(10));
    let j = Interface::from_row(1, 2, "wlan1".to_string(), Some(3), None, 2);
    assert!(j.needs_sync);
    assert_eq!(j.group_id, Some(3));
}

#[test]
fn access_point_created_and_updated_drop_interfaces() {
    let ap = AccessPoint {
        id: 0,
        name: "hall".to_string(),
        host: "10.0.0.2".to_string(),
        port: 8765,
        interfaces: vec![iface(None)],
    };
    let c = ap.clone().created(8);
    assert_eq!(c.id, 8);
    assert_eq!(c.name, "hall");
    assert_eq!(c.host, "10.0.0.2");
    assert_eq!(c.port, 8765);
    assert!(c.interfaces.is_empty());
    let u = ap.updated();
    assert_eq!(u.id, 0);
    assert!(u.interfaces.is_empty());
}

#[test]
fn group_created_and_updated_have_no_devices() {
    let g = Group { id: 0, name: "staff".to_string(), description: "d".to_string(), devices: vec![] };
    let c = g.clone().created(4);
    assert_eq!(c.id, 4);
    assert_eq!(c.name, "staff");
    assert!(c.devices.is_empty());
    let u = Group { id: 9, ..g }.updated();
    assert_eq!(u.id, 9);
    assert_eq!(u.description, "d");
}
