//! The peers of a node as discovery reports them, and how a new report is
//! merged with what is already known of them.

use vstd::prelude::*;

use std::time::SystemTime;

use crate::elect::ScheduleStamp;
use crate::id::Id;
use crate::id_collections::IdMap;
use crate::text::{bytes_eq, str_eq};
use crate::time_util::{system_time_at_millis, unix_epoch};

verus! {

/// A socket address: the IP address's bytes (four for IPv4, sixteen for
/// IPv6), the port, and for IPv6 the flow information and scope id (zero
/// for IPv4).
pub struct PeerAddr {
    pub ip: Vec<u8>,
    pub port: u16,
    pub flowinfo: u32,
    pub scope_id: u32,
}

pub struct AddrView {
    pub ip: Seq<u8>,
    pub port: u16,
    pub flowinfo: u32,
    pub scope_id: u32,
}

impl View for PeerAddr {
    type V = AddrView;

    open spec fn view(&self) -> AddrView {
        AddrView { ip: self.ip@, port: self.port, flowinfo: self.flowinfo, scope_id: self.scope_id }
    }
}

impl PeerAddr {
    /// Whether two addresses are the same.
    pub fn same_as(&self, other: &PeerAddr) -> (r: bool)
        ensures
            r == (self@ == other@),
    {
        bytes_eq(self.ip.as_slice(), other.ip.as_slice()) && self.port == other.port
            && self.flowinfo == other.flowinfo && self.scope_id == other.scope_id
    }

    /// A copy of the address.
    pub fn duplicate(&self) -> (r: PeerAddr)
        ensures
            r@ == self@,
    {
        PeerAddr { ip: self.ip.clone(), port: self.port, flowinfo: self.flowinfo, scope_id: self.scope_id }
    }
}

pub open spec fn opt_addr_view(a: Option<PeerAddr>) -> Option<AddrView> {
    match a {
        Some(x) => Some(x@),
        None => None,
    }
}

/// A schedule stamp with its strings taken as values.
pub struct StampView {
    pub timestamp: u64,
    pub hash: Seq<char>,
    pub origin: Seq<u8>,
}

pub open spec fn opt_stamp_view(s: Option<ScheduleStamp>) -> Option<StampView> {
    match s {
        Some(x) => Some(StampView { timestamp: x.timestamp, hash: x.hash@, origin: x.origin@ }),
        None => None,
    }
}

/// Whether two moments are the same.
///
/// Calls `SystemTime`'s `==`, which compares the moments; a `SystemTime` is
/// its moment and nothing else, so equal moments are equal values.
#[verifier::external_body]
fn same_time(a: &SystemTime, b: &SystemTime) -> (r: bool)
    ensures
        r == (*a == *b),
{
    *a == *b
}

fn same_opt_time(a: &Option<SystemTime>, b: &Option<SystemTime>) -> (r: bool)
    ensures
        r == (*a == *b),
{
    match (a, b) {
        (Some(x), Some(y)) => same_time(x, y),
        (None, None) => true,
        _ => false,
    }
}

fn same_addr(a: &Option<PeerAddr>, b: &Option<PeerAddr>) -> (r: bool)
    ensures
        r == (opt_addr_view(*a) == opt_addr_view(*b)),
{
    match (a, b) {
        (Some(x), Some(y)) => x.same_as(y),
        (None, None) => true,
        _ => false,
    }
}

fn duplicate_addr(a: &Option<PeerAddr>) -> (r: Option<PeerAddr>)
    ensures
        opt_addr_view(r) == opt_addr_view(*a),
{
    match a {
        Some(x) => Some(x.duplicate()),
        None => None,
    }
}

fn duplicate_stamp(s: &Option<ScheduleStamp>) -> (r: Option<ScheduleStamp>)
    ensures
        opt_stamp_view(r) == opt_stamp_view(*s),
{
    match s {
        Some(x) => Some(ScheduleStamp { timestamp: x.timestamp, hash: x.hash.clone(), origin: x.origin.duplicate() }),
        None => None,
    }
}

/// A peer as discovery reports it.
pub struct Peer {
    pub id: Id,
    pub addr: Option<PeerAddr>,
    pub name: String,
    pub hostname: String,
    /// The schedule the peer last reported holding.
    pub schedule: Option<ScheduleStamp>,
    pub known_since: SystemTime,
    pub last_report_direct: Option<SystemTime>,
    pub errors: usize,
}

pub struct PeerView {
    pub id: Seq<u8>,
    pub addr: Option<AddrView>,
    pub name: Seq<char>,
    pub hostname: Seq<char>,
    pub schedule: Option<StampView>,
    pub known_since: SystemTime,
    pub last_report_direct: Option<SystemTime>,
    pub errors: usize,
}

impl View for Peer {
    type V = PeerView;

    open spec fn view(&self) -> PeerView {
        PeerView {
            id: self.id@,
            addr: opt_addr_view(self.addr),
            name: self.name@,
            hostname: self.hostname@,
            schedule: opt_stamp_view(self.schedule),
            known_since: self.known_since,
            last_report_direct: self.last_report_direct,
            errors: self.errors,
        }
    }
}

/// What discovery says of a peer differs: its address, names, since when
/// it is known or when it last reported directly. The id, the schedule and
/// the error count are not looked at.
pub open spec fn needs_refresh_spec(local: PeerView, remote: PeerView) -> bool {
    local.addr != remote.addr || local.name != remote.name || local.hostname != remote.hostname
        || local.known_since != remote.known_since || local.last_report_direct != remote.last_report_direct
}

impl Peer {
    /// Whether what is known of the peer is outdated by `remote` (see
    /// `needs_refresh_spec`).
    pub fn needs_refresh(&self, remote: &Peer) -> (r: bool)
        ensures
            r == needs_refresh_spec(self@, remote@),
    {
        !same_addr(&self.addr, &remote.addr) || !str_eq(self.name.as_str(), remote.name.as_str())
            || !str_eq(self.hostname.as_str(), remote.hostname.as_str())
            || !same_time(&self.known_since, &remote.known_since)
            || !same_opt_time(&self.last_report_direct, &remote.last_report_direct)
    }

    /// A copy of the peer.
    pub fn duplicate(&self) -> (r: Peer)
        ensures
            r@ == self@,
    {
        Peer {
            id: self.id.duplicate(),
            addr: duplicate_addr(&self.addr),
            name: self.name.clone(),
            hostname: self.hostname.clone(),
            schedule: duplicate_stamp(&self.schedule),
            known_since: self.known_since,
            last_report_direct: self.last_report_direct,
            errors: self.errors,
        }
    }
}

/// The peers known to a node, as of the moment of the report.
pub struct Peers {
    pub timestamp: SystemTime,
    pub peers: IdMap<Peer>,
}

/// What is known of a reported peer after a report: a new peer is taken as
/// reported; a known one whose address or names changed is taken as
/// reported but keeps the schedule it reported; otherwise what was known
/// stays.
pub open spec fn merged_peer(known: Option<PeerView>, reported: PeerView) -> PeerView {
    match known {
        None => reported,
        Some(k) => if k.addr != reported.addr || k.name != reported.name || k.hostname != reported.hostname {
            PeerView { schedule: k.schedule, ..reported }
        } else {
            k
        },
    }
}

impl Peers {
    /// No peers, as of the Unix epoch.
    pub fn new() -> (r: Peers)
        ensures
            r.timestamp == system_time_at_millis(0),
            r.peers.well_formed(),
            r.peers@ == Map::<Seq<u8>, Peer>::empty(),
    {
        Peers { timestamp: unix_epoch(), peers: IdMap::new() }
    }

    /// The peers after a report taken at `time`: exactly the reported
    /// ones, each merged with what was known of it (see `merged_peer`).
    pub fn set_peers(&self, time: SystemTime, peers: &IdMap<Peer>) -> (r: Peers)
        requires
            self.peers.well_formed(),
            peers.well_formed(),
        ensures
            r.timestamp == time,
            r.peers.well_formed(),
            r.peers@.dom() == peers@.dom(),
            forall|k: Seq<u8>| #[trigger] peers@.contains_key(k) ==> r.peers@[k]@ == merged_peer(
                if self.peers@.contains_key(k) { Some(self.peers@[k]@) } else { None },
                peers@[k]@,
            ),
    {
        let mut out: IdMap<Peer> = IdMap::new();
        let n = peers.len();
        proof { peers.lemma_positions(); }
        let mut i: usize = 0;
        while i < n
            invariant
                peers.well_formed(),
                self.peers.well_formed(),
                out.well_formed(),
                n == peers@.dom().len(),
                0 <= i <= n,
                forall|k: Seq<u8>| #[trigger] peers@.contains_key(k) ==> exists|j: int|
                    0 <= j < n && peers.key_at(j) == k,
                forall|j: int| 0 <= j < n ==> #[trigger] peers@.contains_key(peers.key_at(j)),
                forall|a: int, b: int| 0 <= a < n && 0 <= b < n && a != b ==> peers.key_at(a) != peers.key_at(b),
                forall|k: Seq<u8>| #[trigger] out@.contains_key(k) <==> exists|j: int| 0 <= j < i && peers.key_at(j) == k,
                forall|k: Seq<u8>| #[trigger] out@.contains_key(k) ==> out@[k]@ == merged_peer(
                    if self.peers@.contains_key(k) { Some(self.peers@[k]@) } else { None },
                    peers@[k]@,
                ),
            decreases n - i,
        {
            let id = peers.key_ref_at(i);
            let reported = peers.value_at(i);
            let merged = match self.peers.get(id) {
                None => reported.duplicate(),
                Some(known) => {
                    if !same_addr(&known.addr, &reported.addr) || !str_eq(known.name.as_str(), reported.name.as_str())
                        || !str_eq(known.hostname.as_str(), reported.hostname.as_str()) {
                        let mut p = reported.duplicate();
                        p.schedule = duplicate_stamp(&known.schedule);
                        p
                    } else {
                        known.duplicate()
                    }
                },
            };
            let ghost k = id@;
            out.insert(id.duplicate(), merged);
            proof {
                assert forall|x: Seq<u8>| #[trigger] out@.contains_key(x) <==> exists|j: int| 0 <= j < i + 1 && peers.key_at(j) == x by {
                    if x == k {
                        assert(peers.key_at(i as int) == x);
                    }
                }
            }
            i = i + 1;
        }
        proof {
            assert forall|k: Seq<u8>| out@.contains_key(k) <==> peers@.contains_key(k) by {
                if peers@.contains_key(k) {
                    let j = choose|j: int| 0 <= j < n && peers.key_at(j) == k;
                    assert(out@.contains_key(k));
                }
                if out@.contains_key(k) {
                    let j = choose|j: int| 0 <= j < i && peers.key_at(j) == k;
                    assert(peers@.contains_key(peers.key_at(j)));
                }
            }
            assert(out@.dom() =~= peers@.dom());
        }
        Peers { timestamp: time, peers: out }
    }
}

/// The addresses a broadcast goes to, from the first `n` hosts in the
/// map's order: every host other than this node that has an address.
pub open spec fn broadcast_upto(hosts: IdMap<Peer>, me: Seq<u8>, n: nat) -> Seq<AddrView>
    decreases n,
{
    if n == 0 {
        Seq::empty()
    } else {
        let prev = broadcast_upto(hosts, me, (n - 1) as nat);
        let k = hosts.key_at(n - 1);
        match hosts@[k].addr {
            Some(a) => if k != me { prev.push(a@) } else { prev },
            None => prev,
        }
    }
}

/// The addresses a broadcast of this node goes to (see `broadcast_upto`).
pub fn broadcast_targets(hosts: &IdMap<Peer>, me: &Id) -> (r: Vec<PeerAddr>)
    requires
        hosts.well_formed(),
    ensures
        r@.map_values(|a: PeerAddr| a@) == broadcast_upto(*hosts, me@, hosts@.dom().len()),
{
    let n = hosts.len();
    let mut out: Vec<PeerAddr> = Vec::new();
    let mut i: usize = 0;
    assert(out@.map_values(|a: PeerAddr| a@) =~= broadcast_upto(*hosts, me@, 0));
    while i < n
        invariant
            hosts.well_formed(),
            n == hosts@.dom().len(),
            0 <= i <= n,
            out@.map_values(|a: PeerAddr| a@) == broadcast_upto(*hosts, me@, i as nat),
        decreases n - i,
    {
        let id = hosts.key_ref_at(i);
        let host = hosts.value_at(i);
        let ghost before = out@;
        match &host.addr {
            Some(a) => {
                if !id.same_as(me) {
                    out.push(a.duplicate());
                    assert(out@.map_values(|a: PeerAddr| a@) =~= before.map_values(|a: PeerAddr| a@).push(a@));
                }
            },
            None => {},
        }
        i = i + 1;
    }
    out
}

/// The address of one host, to send it a message directly.
pub fn peer_address(hosts: &IdMap<Peer>, id: &Id) -> (r: Option<PeerAddr>)
    requires
        hosts.well_formed(),
    ensures
        opt_addr_view(r) == if hosts@.contains_key(id@) { opt_addr_view(hosts@[id@].addr) } else { None },
{
    match hosts.get(id) {
        Some(p) => duplicate_addr(&p.addr),
        None => None,
    }
}

pub proof fn lemma_broadcast_upto(hosts: IdMap<Peer>, me: Seq<u8>, n: nat)
    ensures
        forall|j: int| #![trigger hosts.key_at(j)] 0 <= j < n && hosts.key_at(j) != me && hosts@[hosts.key_at(j)].addr is Some
            ==> broadcast_upto(hosts, me, n).contains(hosts@[hosts.key_at(j)].addr.unwrap()@),
        forall|i: int| #![trigger broadcast_upto(hosts, me, n)[i]] 0 <= i < broadcast_upto(hosts, me, n).len() ==> exists|j: int|
            0 <= j < n && hosts.key_at(j) != me && #[trigger] opt_addr_view(hosts@[hosts.key_at(j)].addr) == Some(
                broadcast_upto(hosts, me, n)[i],
            ),
    decreases n,
{
    if n > 0 {
        lemma_broadcast_upto(hosts, me, (n - 1) as nat);
        let prev = broadcast_upto(hosts, me, (n - 1) as nat);
        let cur = broadcast_upto(hosts, me, n);
        let k = hosts.key_at(n - 1);
        assert forall|j: int| #![trigger hosts.key_at(j)] 0 <= j < n && hosts.key_at(j) != me && hosts@[hosts.key_at(j)].addr is Some
            implies cur.contains(hosts@[hosts.key_at(j)].addr.unwrap()@) by {
            if j < n - 1 {
                let x = hosts@[hosts.key_at(j)].addr.unwrap()@;
                let q = choose|q: int| 0 <= q < prev.len() && prev[q] == x;
                assert(cur[q] == prev[q]);
            } else {
                assert(cur[cur.len() - 1] == hosts@[k].addr.unwrap()@);
            }
        }
        assert forall|i: int| #![trigger cur[i]] 0 <= i < cur.len() implies exists|j: int|
            0 <= j < n && hosts.key_at(j) != me && #[trigger] opt_addr_view(hosts@[hosts.key_at(j)].addr) == Some(cur[i]) by {
            if i < prev.len() {
                assert(cur[i] == prev[i]);
                let j = choose|j: int| 0 <= j < n - 1 && hosts.key_at(j) != me
                    && #[trigger] opt_addr_view(hosts@[hosts.key_at(j)].addr) == Some(prev[i]);
                assert(opt_addr_view(hosts@[hosts.key_at(j)].addr) == Some(cur[i]));
            } else {
                assert(opt_addr_view(hosts@[hosts.key_at(n - 1)].addr) == Some(cur[i]));
            }
        }
    }
}

/// Law: a broadcast reaches every other host that has an address, and
/// only addresses of hosts other than this node.
pub proof fn broadcast_reaches_other_hosts(hosts: IdMap<Peer>, me: Seq<u8>)
    requires
        hosts.well_formed(),
    ensures
        forall|k: Seq<u8>| #[trigger] hosts@.contains_key(k) && k != me && hosts@[k].addr is Some
            ==> broadcast_upto(hosts, me, hosts@.dom().len()).contains(hosts@[k].addr.unwrap()@),
        forall|i: int| #![trigger broadcast_upto(hosts, me, hosts@.dom().len())[i]] 0 <= i < broadcast_upto(hosts, me, hosts@.dom().len()).len() ==> exists|k: Seq<u8>|
            #[trigger] hosts@.contains_key(k) && k != me && opt_addr_view(hosts@[k].addr) == Some(
                broadcast_upto(hosts, me, hosts@.dom().len())[i],
            ),
{
    let n = hosts@.dom().len();
    hosts.lemma_positions();
    lemma_broadcast_upto(hosts, me, n);
    assert forall|k: Seq<u8>| #[trigger] hosts@.contains_key(k) && k != me && hosts@[k].addr is Some
        implies broadcast_upto(hosts, me, n).contains(hosts@[k].addr.unwrap()@) by {
        let j = choose|j: int| 0 <= j < n && hosts.key_at(j) == k;
        assert(hosts.key_at(j) == k);
    }
    assert forall|i: int| #![trigger broadcast_upto(hosts, me, n)[i]] 0 <= i < broadcast_upto(hosts, me, n).len() implies exists|k: Seq<u8>|
        #[trigger] hosts@.contains_key(k) && k != me && opt_addr_view(hosts@[k].addr) == Some(broadcast_upto(hosts, me, n)[i]) by {
        let j = choose|j: int| 0 <= j < n && hosts.key_at(j) != me
            && #[trigger] opt_addr_view(hosts@[hosts.key_at(j)].addr) == Some(broadcast_upto(hosts, me, n)[i]);
        assert(hosts@.contains_key(hosts.key_at(j)));
    }
}

} // verus!
