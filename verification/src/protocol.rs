//! The binary protocol spoken to the daemon on each access point.
//!
//! A message is an 8-byte header (magic `ND`, version, message type and the
//! big-endian payload length) followed by the payload. The only message type
//! is `SetMacFilter`, whose payload names a wireless interface and lists the
//! MAC addresses it allows.
use vstd::prelude::*;
use vstd::string::StringSliceAdditionalSpecFns;
use crate::mac::mac_views;

verus! {

/// First byte of the magic, `N`.
pub const MAGIC_0: u8 = 0x4E;

/// Second byte of the magic, `D`.
pub const MAGIC_1: u8 = 0x44;

/// The protocol version this library speaks.
pub const VERSION: u8 = 0x01;

/// The message type `SetMacFilter`.
pub const MSG_SET_MAC_FILTER: u8 = 0x01;

/// Length of the fixed header.
pub const HEADER_LEN: usize = 8;

/// Bytes per MAC address.
pub const MAC_LEN: usize = 6;

/// `n` as four big-endian bytes (`n < 2^32`).
pub open spec fn be32_bytes(n: nat) -> Seq<u8> {
    seq![
        (n / 0x1000000 % 256) as u8,
        (n / 0x10000 % 256) as u8,
        (n / 0x100 % 256) as u8,
        (n % 256) as u8,
    ]
}

/// `n` as two big-endian bytes (`n < 2^16`).
pub open spec fn be16_bytes(n: nat) -> Seq<u8> {
    seq![(n / 256 % 256) as u8, (n % 256) as u8]
}

/// The number that four big-endian bytes denote.
pub open spec fn be32_value(b: Seq<u8>) -> nat {
    (b[0] as nat) * 0x1000000 + (b[1] as nat) * 0x10000 + (b[2] as nat) * 0x100 + (b[3] as nat)
}

/// The number that two big-endian bytes denote.
pub open spec fn be16_value(b: Seq<u8>) -> nat {
    (b[0] as nat) * 256 + (b[1] as nat)
}

/// The MAC addresses laid end to end.
pub open spec fn concat_macs(macs: Seq<Seq<u8>>) -> Seq<u8>
    decreases macs.len(),
{
    if macs.len() == 0 {
        Seq::empty()
    } else {
        concat_macs(macs.drop_last()) + macs.last()
    }
}

/// Byte length of a `SetMacFilter` payload.
pub open spec fn filter_payload_len(iface_len: nat, mac_count: nat) -> nat {
    1 + iface_len + 2 + 6 * mac_count
}

/// The `SetMacFilter` message for interface `iface` (its UTF-8 bytes) and
/// the MAC addresses `macs`. The payload length, the interface length and
/// the MAC count are written modulo 2^32, 2^8 and 2^16 respectively.
pub open spec fn set_filter_message(iface: Seq<u8>, macs: Seq<Seq<u8>>) -> Seq<u8> {
    seq![MAGIC_0, MAGIC_1, VERSION, MSG_SET_MAC_FILTER] + be32_bytes(
        filter_payload_len(iface.len(), macs.len()) % 0x1_0000_0000,
    ) + seq![(iface.len() % 256) as u8] + iface + be16_bytes(macs.len() % 0x10000) + concat_macs(
        macs,
    )
}

/// How a receiving daemon reads a `SetMacFilter` message: it rejects a
/// wrong magic, a version above its own, another message type, a payload
/// length that does not match, and a truncated or overlong payload.
/// On success it yields the interface name's bytes and the MAC addresses.
pub open spec fn decode_set_filter_message(msg: Seq<u8>) -> Option<(Seq<u8>, Seq<Seq<u8>>)> {
    if msg.len() < 8 {
        None
    } else if msg[0] != MAGIC_0 || msg[1] != MAGIC_1 || msg[2] > VERSION || msg[3]
        != MSG_SET_MAC_FILTER {
        None
    } else if be32_value(msg.subrange(4, 8)) != msg.len() - 8 {
        None
    } else {
        let payload = msg.skip(8);
        if payload.len() < 1 {
            None
        } else {
            let n = payload[0] as int;
            if payload.len() < 3 + n {
                None
            } else {
                let iface = payload.subrange(1, 1 + n);
                let count = be16_value(payload.subrange(1 + n, 3 + n));
                let rest = payload.skip(3 + n);
                if rest.len() != 6 * count {
                    None
                } else {
                    Some((iface, Seq::new(count, |i: int| rest.subrange(6 * i, 6 * i + 6))))
                }
            }
        }
    }
}

/// Every element is six bytes long.
pub open spec fn all_mac_sized(macs: Seq<Seq<u8>>) -> bool {
    forall|i: int| 0 <= i < macs.len() ==> (#[trigger] macs[i]).len() == 6
}

proof fn lemma_concat_macs(macs: Seq<Seq<u8>>)
    requires
        all_mac_sized(macs),
    ensures
        concat_macs(macs).len() == 6 * macs.len(),
        forall|i: int|
            0 <= i < macs.len() ==> #[trigger] concat_macs(macs).subrange(6 * i, 6 * i + 6)
                == macs[i],
    decreases macs.len(),
{
    if macs.len() > 0 {
        let prev = macs.drop_last();
        assert(all_mac_sized(prev)) by {
            assert forall|i: int| 0 <= i < prev.len() implies (#[trigger] prev[i]).len() == 6 by {
                assert(prev[i] == macs[i]);
            }
        }
        lemma_concat_macs(prev);
        let all = concat_macs(macs);
        assert forall|i: int| 0 <= i < macs.len() implies #[trigger] all.subrange(6 * i, 6 * i + 6)
            == macs[i] by {
            if i < macs.len() - 1 {
                assert(all.subrange(6 * i, 6 * i + 6) =~= concat_macs(prev).subrange(
                    6 * i,
                    6 * i + 6,
                ));
                assert(prev[i] == macs[i]);
            } else {
                assert(all.subrange(6 * i, 6 * i + 6) =~= macs.last());
            }
        }
    }
}

proof fn lemma_be32_roundtrip(n: nat)
    requires
        n < 0x1_0000_0000,
    ensures
        be32_value(be32_bytes(n)) == n,
{
    let b = be32_bytes(n);
    assert(b[0] as nat == n / 0x1000000 % 256);
    assert(b[1] as nat == n / 0x10000 % 256);
    assert(b[2] as nat == n / 0x100 % 256);
    assert(b[3] as nat == n % 256);
    assert((n / 0x1000000 % 256) * 0x1000000 + (n / 0x10000 % 256) * 0x10000 + (n / 0x100 % 256)
        * 0x100 + n % 256 == n) by (nonlinear_arith)
        requires
            n < 0x1_0000_0000,
    ;
}

proof fn lemma_be16_roundtrip(n: nat)
    requires
        n < 0x10000,
    ensures
        be16_value(be16_bytes(n)) == n,
{
    let b = be16_bytes(n);
    assert(b[0] as nat == n / 256 % 256);
    assert(b[1] as nat == n % 256);
    assert((n / 256 % 256) * 256 + n % 256 == n) by (nonlinear_arith)
        requires
            n < 0x10000,
    ;
}

/// The message is the 8-byte header followed by exactly `payload_len` bytes.
pub proof fn set_filter_message_length(iface: Seq<u8>, macs: Seq<Seq<u8>>)
    requires
        all_mac_sized(macs),
    ensures
        set_filter_message(iface, macs).len() == 8 + filter_payload_len(iface.len(), macs.len()),
{
    lemma_concat_macs(macs);
}

/// A daemon that reads a `SetMacFilter` message gets back the interface
/// name and the MAC addresses it was built from, in order, whenever the
/// name is shorter than 256 bytes and there are fewer than 65536 addresses
/// (the sizes that the length and count fields can hold).
pub proof fn set_filter_message_roundtrip(iface: Seq<u8>, macs: Seq<Seq<u8>>)
    requires
        iface.len() < 256,
        macs.len() < 0x10000,
        all_mac_sized(macs),
    ensures
        decode_set_filter_message(set_filter_message(iface, macs)) == Some((iface, macs)),
{
    lemma_concat_macs(macs);
    let plen = filter_payload_len(iface.len(), macs.len());
    assert(plen < 0x1_0000_0000);
    assert(plen % 0x1_0000_0000 == plen);
    assert(iface.len() % 256 == iface.len());
    assert(macs.len() % 0x10000 == macs.len());
    lemma_be32_roundtrip(plen);
    lemma_be16_roundtrip(macs.len());
    let msg = set_filter_message(iface, macs);
    let n = iface.len() as int;
    assert(msg.len() == 8 + plen);
    assert(msg.subrange(4, 8) =~= be32_bytes(plen));
    let payload = msg.skip(8);
    assert(payload[0] == (iface.len() % 256) as u8);
    assert(payload.subrange(1, 1 + n) =~= iface);
    assert(payload.subrange(1 + n, 3 + n) =~= be16_bytes(macs.len() as nat));
    let rest = payload.skip(3 + n);
    assert(rest =~= concat_macs(macs));
    let decoded = Seq::new(macs.len(), |i: int| rest.subrange(6 * i, 6 * i + 6));
    assert(decoded =~= macs);
}

/// Every message starts with `4E 44 01 01` (magic `ND`, version 1,
/// `SetMacFilter`); its length field holds the number of bytes after the
/// header, its next byte the interface name's length and then the name,
/// whenever those sizes fit their fields.
#[verifier::rlimit(50)]
pub proof fn set_filter_message_header(iface: Seq<u8>, macs: Seq<Seq<u8>>)
    requires
        iface.len() < 256,
        macs.len() < 0x10000,
        all_mac_sized(macs),
    ensures
        set_filter_message(iface, macs).subrange(0, 4) == seq![0x4Eu8, 0x44u8, 0x01u8, 0x01u8],
        be32_value(set_filter_message(iface, macs).subrange(4, 8)) == set_filter_message(
            iface,
            macs,
        ).len() - 8,
        set_filter_message(iface, macs)[8] as nat == iface.len(),
        set_filter_message(iface, macs).subrange(9, 9 + iface.len() as int) == iface,
        be16_value(set_filter_message(iface, macs).subrange(9 + iface.len() as int, 11 + iface.len() as int))
            == macs.len(),
{
    lemma_concat_macs(macs);
    let plen = filter_payload_len(iface.len(), macs.len());
    lemma_be32_roundtrip(plen);
    lemma_be16_roundtrip(macs.len());
    let msg = set_filter_message(iface, macs);
    let head = seq![MAGIC_0, MAGIC_1, VERSION, MSG_SET_MAC_FILTER];
    let lenb = be32_bytes(plen % 0x1_0000_0000);
    let ilen = seq![(iface.len() % 256) as u8];
    let cnt = be16_bytes(macs.len() % 0x10000);
    let body = concat_macs(macs);
    assert(plen % 0x1_0000_0000 == plen);
    assert(macs.len() % 0x10000 == macs.len());
    assert(msg == head + lenb + ilen + iface + cnt + body);
    assert(msg.len() == 11 + iface.len() + body.len());
    assert(msg.subrange(0, 4) =~= seq![0x4Eu8, 0x44u8, 0x01u8, 0x01u8]);
    assert(msg.subrange(4, 8) =~= be32_bytes(plen));
    assert(msg.subrange(9, 9 + iface.len() as int) =~= iface);
    assert(msg.subrange(9 + iface.len() as int, 11 + iface.len() as int) =~= be16_bytes(macs.len() as nat));
}

/// Build the binary `SetMacFilter` message for the AP daemon.
///
/// Message layout (big-endian):
///   magic        2 bytes  0x4E 0x44  ("ND" – Network Device)
///   version      1 byte   0x01
///   msg_type     1 byte   0x01  (SetMacFilter)
///   payload_len  4 bytes  u32, length of everything that follows
///   iface_len    1 byte   length of iface_name UTF-8 string
///   iface_name   N bytes  UTF-8
///   mac_count    2 bytes  u16
///   mac[0..N]    6 bytes each
pub fn build_set_filter_message(iface_name: &str, macs: &[[u8; 6]]) -> (buf: Vec<u8>)
    requires
        8 + filter_payload_len(iface_name.spec_bytes().len(), macs@.len()) <= usize::MAX,
    ensures
        buf@ == set_filter_message(iface_name.spec_bytes(), mac_views(macs@)),
{
    let iface_bytes = iface_name.as_bytes();
    let payload_len: usize = 1 + iface_bytes.len() + 2 + macs.len() * MAC_LEN;
    let mut buf: Vec<u8> = Vec::with_capacity(HEADER_LEN + payload_len);
    buf.push(MAGIC_0);
    buf.push(MAGIC_1);
    buf.push(VERSION);
    buf.push(MSG_SET_MAC_FILTER);
    let wire_len: u32 = (payload_len as u64 % 0x1_0000_0000) as u32;
    buf.push((wire_len / 0x1000000 % 256) as u8);
    buf.push((wire_len / 0x10000 % 256) as u8);
    buf.push((wire_len / 0x100 % 256) as u8);
    buf.push((wire_len % 256) as u8);
    buf.push((iface_bytes.len() % 256) as u8);
    let ghost head = buf@;
    buf.extend_from_slice(iface_bytes);
    assert(buf@ =~= head + iface_bytes@);
    let count: u16 = (macs.len() % 0x10000) as u16;
    buf.push((count / 256) as u8);
    buf.push((count % 256) as u8);
    let ghost prefix = buf@;
    let ghost all = mac_views(macs@);
    assert(prefix =~= seq![MAGIC_0, MAGIC_1, VERSION, MSG_SET_MAC_FILTER] + be32_bytes(
        filter_payload_len(iface_bytes@.len(), macs@.len()) % 0x1_0000_0000,
    ) + seq![(iface_bytes@.len() % 256) as u8] + iface_bytes@ + be16_bytes(macs@.len() % 0x10000));
    let mut i: usize = 0;
    while i < macs.len()
        invariant
            i <= macs@.len(),
            all == mac_views(macs@),
            buf@ == prefix + concat_macs(all.take(i as int)),
        decreases macs@.len() - i,
    {
        let mac = macs[i];
        let ghost before = buf@;
        buf.push(mac[0]);
        buf.push(mac[1]);
        buf.push(mac[2]);
        buf.push(mac[3]);
        buf.push(mac[4]);
        buf.push(mac[5]);
        assert(all.take(i + 1).drop_last() =~= all.take(i as int));
        assert(all[i as int] == mac@);
        assert(buf@ =~= before + mac@);
        i = i + 1;
    }
    assert(all.take(i as int) =~= all);
    buf
}

} // verus!
