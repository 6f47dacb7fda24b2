use backend::sync::{finish_sync, prepare_sync, Delivery, SyncFinish, SyncTarget};

fn target(group_id: Option<i32>, port: i32) -> SyncTarget {
    SyncTarget {
        iface_name: "wlan0".to_string(),
        group_id,
        host: "10.0.0.2".to_string(),
        port,
    }
}

#[test]
fn prepare_sync_with_group() {
    let raw = vec!["AA:BB:CC:DD:EE:FF".to_string(), "bogus".to_string()];
    let req = prepare_sync(7, &target(Some(3), 8765), &raw);
    assert_eq!(req.interface_id, 7);
    assert_eq!(req.addr, "10.0.0.2:8765");
    assert_eq!(req.mac_count, 1);
    assert_eq!(
        req.message,
        vec![
            0x4E, 0x44, 0x01, 0x01, 0x00, 0x00, 0x00, 0x0E, 0x05, b'w', b'l', b'a', b'n', b'0',
            0x00, 0x01, 0xAA, 0xBB, 0xCC, 0xDD, 0xEE, 0xFF
        ]
    );
}

#[test]
fn prepare_sync_without_group_sends_empty_list() {
    let raw = vec!["AA:BB:CC:DD:EE:FF".to_string()];
    let req = prepare_sync(1, &target(None, -1), &raw);
    assert_eq!(req.addr, "10.0.0.2:-1");
    assert_eq!(req.mac_count, 0);
    assert_eq!(req.message[14..], [0x00, 0x00]);
    assert_eq!(req.message.len(), 16);
}

#[test]
fn finish_after_connect_failure() {
    let req = prepare_sync(4, &target(None, 8765), &Vec::new());
    match finish_sync(&req, Delivery::ConnectFailed("connection refused".to_string())) {
        SyncFinish::Report(r) => {
            assert_eq!(r.interface_id, 4);
            assert!(!r.success);
            assert_eq!(r.message, "Failed to connect to 10.0.0.2:8765: connection refused");
            assert_eq!(r.mac_count, 0);
        }
        SyncFinish::Record { .. } => panic!("nothing is recorded after a failed connection"),
    }
}

#[test]
fn finish_after_send_failure() {
    let raw = vec!["01:02:03:04:05:06".to_string(), "07:08:09:0a:0b:0c".to_string()];
    let req = prepare_sync(5, &target(Some(1), 9000), &raw);
    match finish_sync(&req, Delivery::SendFailed("broken pipe".to_string())) {
        SyncFinish::Report(r) => {
            assert!(!r.success);
            assert_eq!(r.message, "Failed to send to 10.0.0.2:9000: broken pipe");
            assert_eq!(r.mac_count, 2);
        }
        SyncFinish::Record { .. } => panic!("nothing is recorded after a failed send"),
    }
}

#[test]
fn finish_after_success_records_time() {
    let raw = vec!["01:02:03:04:05:06".to_string(), "07:08:09:0a:0b:0c".to_string()];
    let req = prepare_sync(5, &target(Some(1), 8765), &raw);
    match finish_sync(&req, Delivery::Sent(1_700_000_000)) {
        SyncFinish::Record { synced_at, result } => {
            assert_eq!(synced_at, 1_700_000_000);
            assert_eq!(result.interface_id, 5);
            assert!(result.success);
            assert_eq!(result.message, "Synced 2 MACs to 10.0.0.2:8765");
            assert_eq!(result.mac_count, 2);
        }
        SyncFinish::Report(_) => panic!("a successful sync is recorded"),
    }
}

#[test]
fn sync_time_wraps_to_i32() {
    let req = prepare_sync(5, &target(None, 1), &Vec::new());
    match finish_sync(&req, Delivery::Sent((1u64 << 32) + 42)) {
        SyncFinish::Record { synced_at, result } => {
            assert_eq!(synced_at, 42);
            assert_eq!(result.message, "Synced 0 MACs to 10.0.0.2:1");
        }
        SyncFinish::Report(_) => panic!("a successful sync is recorded"),
    }
}
