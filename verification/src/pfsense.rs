//! DHCP leases read from a pfSense firewall's REST API.
use vstd::prelude::*;

verus! {

/// Where the pfSense API is and the key to call it with.
#[derive(Debug, Clone)]
pub struct PfsenseConfig {
    pub base_url: String,
    pub api_key: String,
}

/// A DHCP lease as the backend reports it.
#[derive(Debug, Clone)]
pub struct DhcpLease {
    pub mac: String,
    pub ip: String,
    pub hostname: String,
    pub description: String,
}

/// The text of each field of a [`DhcpLease`].
pub struct DhcpLeaseView {
    pub mac: Seq<char>,
    pub ip: Seq<char>,
    pub hostname: Seq<char>,
    pub description: Seq<char>,
}

impl View for DhcpLease {
    type V = DhcpLeaseView;

    open spec fn view(&self) -> DhcpLeaseView {
        DhcpLeaseView {
            mac: self.mac@,
            ip: self.ip@,
            hostname: self.hostname@,
            description: self.description@,
        }
    }
}

/// One entry of the lease list that pfSense returns: each field holds the
/// entry's string value under `mac`, `ip`, `hostname` and `descr`, or
/// `None` where the entry has no string there.
#[derive(Debug, Clone)]
pub struct LeaseEntry {
    pub mac: Option<String>,
    pub ip: Option<String>,
    pub hostname: Option<String>,
    pub descr: Option<String>,
}

/// The path of the lease list under the API's base URL.
pub open spec fn lease_path() -> Seq<char> {
    "/api/v1/services/dhcpd/lease"@
}

/// `s` without any `/` at its end.
pub open spec fn trim_trailing_slashes(s: Seq<char>) -> Seq<char>
    decreases s.len(),
{
    if s.len() > 0 && s.last() == '/' {
        trim_trailing_slashes(s.drop_last())
    } else {
        s
    }
}

/// The text of an optional field, or the empty text.
pub open spec fn text_or_empty(s: Option<String>) -> Seq<char> {
    match s {
        Some(t) => t@,
        None => Seq::empty(),
    }
}

/// The lease that an entry stands for: entries without a MAC address stand
/// for none, and missing `ip`, `hostname` and `descr` are empty.
pub open spec fn lease_of(entry: LeaseEntry) -> Option<DhcpLeaseView> {
    match entry.mac {
        Some(mac) => Some(
            DhcpLeaseView {
                mac: mac@,
                ip: text_or_empty(entry.ip),
                hostname: text_or_empty(entry.hostname),
                description: text_or_empty(entry.descr),
            },
        ),
        None => None,
    }
}

/// The leases that the entries stand for, in order.
pub open spec fn leases_of(entries: Seq<LeaseEntry>) -> Seq<DhcpLeaseView>
    decreases entries.len(),
{
    if entries.len() == 0 {
        Seq::empty()
    } else {
        let prev = leases_of(entries.drop_last());
        match lease_of(entries.last()) {
            Some(lease) => prev.push(lease),
            None => prev,
        }
    }
}

/// The views of the leases, in order.
pub open spec fn lease_views(leases: Seq<DhcpLease>) -> Seq<DhcpLeaseView> {
    leases.map_values(|l: DhcpLease| l@)
}

/// Trimming removes only `/` characters, and all of them at the end: the
/// result is a prefix of the text, everything after it is `/`, and it is
/// empty or does not itself end in `/`.
pub proof fn trimming_removes_only_trailing_slashes(s: Seq<char>)
    ensures
        trim_trailing_slashes(s).len() <= s.len(),
        trim_trailing_slashes(s) == s.take(trim_trailing_slashes(s).len() as int),
        forall|i: int| trim_trailing_slashes(s).len() <= i < s.len() ==> s[i] == '/',
        trim_trailing_slashes(s).len() == 0 || trim_trailing_slashes(s).last() != '/',
    decreases s.len(),
{
    if s.len() > 0 && s.last() == '/' {
        trimming_removes_only_trailing_slashes(s.drop_last());
        let t = trim_trailing_slashes(s.drop_last());
        assert(s.drop_last().take(t.len() as int) =~= s.take(t.len() as int));
        assert forall|i: int| t.len() <= i < s.len() implies s[i] == '/' by {
            if i < s.len() - 1 {
                assert(s[i] == s.drop_last()[i]);
            }
        }
    } else {
        assert(s.take(s.len() as int) =~= s);
    }
}

/// Every entry that has a MAC address gives exactly one lease, whatever its
/// other fields, with the entry's texts and empty text where a field is
/// missing; an entry without a MAC address gives none.
pub proof fn every_entry_with_a_mac_is_listed(entries: Seq<LeaseEntry>, e: LeaseEntry)
    ensures
        leases_of(Seq::<LeaseEntry>::empty()).len() == 0,
        e.mac is None ==> leases_of(entries.push(e)) == leases_of(entries),
        e.mac matches Some(m) ==> leases_of(entries.push(e)) == leases_of(entries).push(
            DhcpLeaseView {
                mac: m@,
                ip: if e.ip is Some { e.ip.unwrap()@ } else { Seq::<char>::empty() },
                hostname: if e.hostname is Some { e.hostname.unwrap()@ } else { Seq::<char>::empty() },
                description: if e.descr is Some { e.descr.unwrap()@ } else { Seq::<char>::empty() },
            },
        ),
        leases_of(entries.push(e)).len() == leases_of(entries).len() + (if e.mac is Some { 1int } else { 0int }),
{
    assert(entries.push(e).drop_last() =~= entries);
    assert(entries.push(e).last() == e);
}

/// The URL of the lease list: the base URL without its trailing `/`s,
/// followed by `/api/v1/services/dhcpd/lease`.
pub fn lease_url(base_url: &str) -> (url: String)
    ensures
        url@ == trim_trailing_slashes(base_url@) + lease_path(),
{
    let mut k: usize = base_url.unicode_len();
    assert(base_url@.take(k as int) =~= base_url@);
    while k > 0 && base_url.get_char(k - 1) == '/'
        invariant
            k <= base_url@.len(),
            trim_trailing_slashes(base_url@) == trim_trailing_slashes(base_url@.take(k as int)),
        decreases k,
    {
        assert(base_url@.take(k as int).drop_last() =~= base_url@.take(k - 1));
        k = k - 1;
    }
    let kept = base_url.substring_char(0, k);
    assert(kept@ =~= trim_trailing_slashes(base_url@)) by {
        assert(base_url@.subrange(0, k as int) =~= base_url@.take(k as int));
    }
    let mut url = String::from_str(kept);
    url.append("/api/v1/services/dhcpd/lease");
    url
}

fn text_or_empty_exec(s: &Option<String>) -> (t: String)
    ensures
        t@ == text_or_empty(*s),
{
    match s {
        Some(text) => text.clone(),
        None => String::new(),
    }
}

/// The leases that pfSense's entries stand for, in order; entries without
/// a MAC address are skipped, and missing `ip`, `hostname` and `descr`
/// become empty text.
pub fn leases_from_entries(entries: &Vec<LeaseEntry>) -> (leases: Vec<DhcpLease>)
    ensures
        lease_views(leases@) == leases_of(entries@),
{
    let mut leases: Vec<DhcpLease> = Vec::new();
    let mut i: usize = 0;
    while i < entries.len()
        invariant
            i <= entries@.len(),
            lease_views(leases@) == leases_of(entries@.take(i as int)),
        decreases entries@.len() - i,
    {
        let ghost prev = lease_views(leases@);
        assert(entries@.take(i + 1).drop_last() =~= entries@.take(i as int));
        let entry = &entries[i];
        match &entry.mac {
            Some(mac) => {
                let lease = DhcpLease {
                    mac: mac.clone(),
                    ip: text_or_empty_exec(&entry.ip),
                    hostname: text_or_empty_exec(&entry.hostname),
                    description: text_or_empty_exec(&entry.descr),
                };
                leases.push(lease);
                assert(lease_views(leases@) =~= prev.push(lease@));
            },
            None => {},
        }
        i = i + 1;
    }
    assert(entries@.take(i as int) =~= entries@);
    leases
}

} // verus!
