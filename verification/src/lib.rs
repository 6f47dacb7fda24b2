//! Verified core of the network-device backend: MAC address parsing, the
//! access-point daemon wire format, and the decisions made when syncing an
//! interface, listing DHCP leases and turning stored rows into records.
pub mod mac;
pub mod protocol;
pub mod text;
pub mod models;
pub mod sync;
pub mod pfsense;
