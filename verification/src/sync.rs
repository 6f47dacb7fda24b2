//! Syncing an interface's MAC filter to its access point.
//!
//! A sync reads the interface and its access point, loads the MAC addresses
//! of the interface's group (if it has one), sends the `SetMacFilter`
//! message to the access point's daemon and, once the message is sent,
//! records the time of the sync. The reading, sending and recording are done
//! by the caller; this module makes each decision between them:
//! [`prepare_sync`] turns what was read into the message and the address to
//! send it to, and [`finish_sync`] turns the outcome of the delivery into
//! the result to report and, on success, the time to record.
use vstd::prelude::*;
use vstd::utf8::encode_utf8;
use crate::mac::{
    collect_macs, collected_macs_keep_every_readable_text, mac_views, parse_mac_spec, parsed_macs,
    parsed_macs_are_six_bytes, texts_bytes,
};
use crate::models::SyncResult;
use crate::protocol::{
    all_mac_sized, build_set_filter_message, decode_set_filter_message, filter_payload_len,
    set_filter_message, set_filter_message_roundtrip,
};
use crate::text::{decimal_text, push_decimal};

verus! {

/// The interface to sync, as read together with its access point.
pub struct SyncTarget {
    pub iface_name: String,
    pub group_id: Option<i32>,
    pub host: String,
    pub port: i32,
}

/// A `SetMacFilter` message ready to be delivered to an access point.
pub struct SyncRequest {
    pub interface_id: i32,
    /// `host:port` of the access point's daemon.
    pub addr: String,
    pub message: Vec<u8>,
    /// The number of MAC addresses in the message.
    pub mac_count: i32,
}

/// How the delivery of a [`SyncRequest`] went.
pub enum Delivery {
    /// The connection to the daemon failed with this error text.
    ConnectFailed(String),
    /// The connection was made but writing the message failed with this error text.
    SendFailed(String),
    /// The message was written; the number is the time of the sync in
    /// seconds since the Unix epoch.
    Sent(u64),
}

/// What remains to be done once a delivery is over.
pub enum SyncFinish {
    /// Report this result; nothing is recorded.
    Report(SyncResult),
    /// Record that the interface no longer needs a sync and was synced at
    /// `synced_at`, then report `result`.
    Record { synced_at: i32, result: SyncResult },
}

/// The address of an access point's daemon: `host:port`.
pub open spec fn daemon_addr(host: Seq<char>, port: i32) -> Seq<char> {
    host + seq![':'] + decimal_text(port as int)
}

/// The MAC addresses sent to an interface: those that can be read from the
/// stored addresses of its group, in order, or none if it has no group.
pub open spec fn sync_macs(group_id: Option<i32>, raw_macs: Seq<String>) -> Seq<Seq<u8>> {
    if group_id is Some {
        parsed_macs(texts_bytes(raw_macs))
    } else {
        Seq::empty()
    }
}

/// The report of a successful sync.
pub open spec fn synced_message(mac_count: i32, addr: Seq<char>) -> Seq<char> {
    "Synced "@ + decimal_text(mac_count as int) + " MACs to "@ + addr
}

/// The report of a sync whose connection failed.
pub open spec fn connect_failed_message(addr: Seq<char>, error: Seq<char>) -> Seq<char> {
    "Failed to connect to "@ + addr + ": "@ + error
}

/// The report of a sync whose message could not be written.
pub open spec fn send_failed_message(addr: Seq<char>, error: Seq<char>) -> Seq<char> {
    "Failed to send to "@ + addr + ": "@ + error
}

proof fn lemma_parsed_macs_len(texts: Seq<Seq<u8>>)
    ensures
        parsed_macs(texts).len() <= texts.len(),
    decreases texts.len(),
{
    if texts.len() > 0 {
        lemma_parsed_macs_len(texts.drop_last());
    }
}

/// The daemon receives exactly the MAC addresses that can be read from the
/// group's stored addresses, in stored order (none when the interface has
/// no group), for the interface named in the message; this holds whenever
/// the name is shorter than 256 bytes and fewer than 65536 addresses are sent.
pub proof fn sync_message_carries_group_macs(
    iface_name: Seq<char>,
    group_id: Option<i32>,
    raw_macs: Seq<String>,
)
    requires
        encode_utf8(iface_name).len() < 256,
        sync_macs(group_id, raw_macs).len() < 0x10000,
    ensures
        decode_set_filter_message(
            set_filter_message(encode_utf8(iface_name), sync_macs(group_id, raw_macs)),
        ) == Some((encode_utf8(iface_name), sync_macs(group_id, raw_macs))),
{
    parsed_macs_are_six_bytes(texts_bytes(raw_macs));
    assert(all_mac_sized(sync_macs(group_id, raw_macs)));
    set_filter_message_roundtrip(encode_utf8(iface_name), sync_macs(group_id, raw_macs));
}

/// An interface with a group is sent every readable stored address of the
/// group, whatever their number; one without a group is sent none. In
/// particular a group whose one address reads as `m` is sent exactly `m`.
pub proof fn sync_sends_every_readable_group_mac(group_id: i32, raw_macs: Seq<String>)
    ensures
        sync_macs(Some(group_id), raw_macs) == parsed_macs(texts_bytes(raw_macs)),
        sync_macs(None, raw_macs) == Seq::<Seq<u8>>::empty(),
        raw_macs.len() == 1 ==> (parse_mac_spec(encode_utf8(raw_macs[0]@)) matches Some(m)
            ==> sync_macs(Some(group_id), raw_macs) == seq![m]),
{
    if raw_macs.len() == 1 {
        let t = encode_utf8(raw_macs[0]@);
        assert(texts_bytes(raw_macs) =~= Seq::<Seq<u8>>::empty().push(t));
        collected_macs_keep_every_readable_text(Seq::<Seq<u8>>::empty(), t);
        if let Some(m) = parse_mac_spec(t) {
            assert(Seq::<Seq<u8>>::empty().push(m) =~= seq![m]);
        }
    }
}

/// The message and address for syncing interface `interface_id`.
///
/// `raw_macs` holds the stored MAC addresses of the interface's group; it is
/// not read when the interface has no group. Addresses that cannot be read
/// as MAC addresses are skipped.
pub fn prepare_sync(interface_id: i32, target: &SyncTarget, raw_macs: &Vec<String>) -> (req:
    SyncRequest)
    requires
        8 + filter_payload_len(encode_utf8(target.iface_name@).len(), raw_macs@.len())
            <= usize::MAX,
    ensures
        req.interface_id == interface_id,
        req.addr@ == daemon_addr(target.host@, target.port),
        req.message@ == set_filter_message(
            encode_utf8(target.iface_name@),
            sync_macs(target.group_id, raw_macs@),
        ),
        req.mac_count == sync_macs(target.group_id, raw_macs@).len() as i32,
{
    let macs: Vec<[u8; 6]> = if target.group_id.is_some() {
        collect_macs(raw_macs)
    } else {
        Vec::new()
    };
    proof {
        lemma_parsed_macs_len(texts_bytes(raw_macs@));
        assert(mac_views(macs@) == sync_macs(target.group_id, raw_macs@));
    }
    let mac_count = macs.len() as i32;
    let message = build_set_filter_message(target.iface_name.as_str(), macs.as_slice());
    let mut addr = target.host.clone();
    addr.append(":");
    proof {
        reveal_strlit(":");
    }
    push_decimal(&mut addr, target.port);
    assert(addr@ =~= daemon_addr(target.host@, target.port));
    SyncRequest { interface_id, addr, message, mac_count }
}

/// What to do once the delivery of `req` is over: report a failure to
/// connect or to send, or record the time of a successful sync (the seconds
/// since the epoch, truncated to `i32`) and report its success.
pub fn finish_sync(req: &SyncRequest, delivery: Delivery) -> (fin: SyncFinish)
    ensures
        match delivery {
            Delivery::ConnectFailed(error) => fin matches SyncFinish::Report(r) && r.interface_id
                == req.interface_id && !r.success && r.message@ == connect_failed_message(
                req.addr@,
                error@,
            ) && r.mac_count == req.mac_count,
            Delivery::SendFailed(error) => fin matches SyncFinish::Report(r) && r.interface_id
                == req.interface_id && !r.success && r.message@ == send_failed_message(
                req.addr@,
                error@,
            ) && r.mac_count == req.mac_count,
            Delivery::Sent(now) => fin matches SyncFinish::Record { synced_at, result }
                && synced_at == now as i32 && result.interface_id == req.interface_id
                && result.success && result.message@ == synced_message(req.mac_count, req.addr@)
                && result.mac_count == req.mac_count,
        },
{
    match delivery {
        Delivery::ConnectFailed(error) => {
            let mut message = String::new();
            message.append("Failed to connect to ");
            message.append(req.addr.as_str());
            message.append(": ");
            message.append(error.as_str());
            assert(message@ =~= connect_failed_message(req.addr@, error@));
            SyncFinish::Report(
                SyncResult {
                    interface_id: req.interface_id,
                    success: false,
                    message,
                    mac_count: req.mac_count,
                },
            )
        },
        Delivery::SendFailed(error) => {
            let mut message = String::new();
            message.append("Failed to send to ");
            message.append(req.addr.as_str());
            message.append(": ");
            message.append(error.as_str());
            assert(message@ =~= send_failed_message(req.addr@, error@));
            SyncFinish::Report(
                SyncResult {
                    interface_id: req.interface_id,
                    success: false,
                    message,
                    mac_count: req.mac_count,
                },
            )
        },
        Delivery::Sent(now) => {
            let mut message = String::new();
            message.append("Synced ");
            push_decimal(&mut message, req.mac_count);
            message.append(" MACs to ");
            message.append(req.addr.as_str());
            assert(message@ =~= synced_message(req.mac_count, req.addr@));
            SyncFinish::Record {
                synced_at: now as i32,
                result: SyncResult {
                    interface_id: req.interface_id,
                    success: true,
                    message,
                    mac_count: req.mac_count,
                },
            }
        },
    }
}

} // verus!
