# backend

The backend of a small network-device manager: it keeps devices, groups of
devices and access points in SQLite, pushes each access point interface's
MAC allowlist to the daemon on the access point, and lists DHCP leases from
a pfSense firewall.

- `src/` is the verified library (Verus): MAC address parsing (`mac`), the
  daemon's `SetMacFilter` wire format (`protocol`), decimal text (`text`),
  the records and how they are built from requests and rows (`models`), the
  decisions of an interface sync (`sync`) and the DHCP lease extraction
  (`pfsense`).
- `app/` is the server around it: the database, the RPC procedures, the TCP
  delivery to access points and the HTTP calls to pfSense.
- `tests/` runs the library on concrete values.
