use backend::pfsense::{lease_url, leases_from_entries, LeaseEntry};

#[test]
fn lease_url_trims_trailing_slashes() {
    assert_eq!(lease_url("https://fw.lan"), "https://fw.lan/api/v1/services/dhcpd/lease");
    assert_eq!(lease_url("https://fw.lan/"), "https://fw.lan/api/v1/services/dhcpd/lease");
    assert_eq!(lease_url("https://fw.lan///"), "https://fw.lan/api/v1/services/dhcpd/lease");
    assert_eq!(lease_url(""), "/api/v1/services/dhcpd/lease");
    assert_eq!(lease_url("https://h\u{f6}st/x/"), "https://h\u{f6}st/x/api/v1/services/dhcpd/lease");
}

fn s(t: &str) -> Option<String> {
    Some(t.to_string())
}

#[test]
fn leases_skip_entries_without_mac() {
    let entries = vec![
        LeaseEntry { mac: s("aa:bb:cc:dd:ee:ff"), ip: s("10.0.0.5"), hostname: s("laptop"), descr: s("Bob") },
        LeaseEntry { mac: None, ip: s("10.0.0.6"), hostname: None, descr: None },
        LeaseEntry { mac: s("11:22:33:44:55:66"), ip: None, hostname: None, descr: s("x") },
    ];
    let leases = leases_from_entries(&entries);
    assert_eq!(leases.len(), 2);
    assert_eq!(leases[0].mac, "aa:bb:cc:dd:ee:ff");
    assert_eq!(leases[0].ip, "10.0.0.5");
    assert_eq!(leases[0].hostname, "laptop");
    assert_eq!(leases[0].description, "Bob");
    assert_eq!(leases[1].mac, "11:22:33:44:55:66");
    assert_eq!(leases[1].ip, "");
    assert_eq!(leases[1].hostname, "");
    assert_eq!(leases[1].description, "x");
    assert!(leases_from_entries(&Vec::new()).is_empty());
}
