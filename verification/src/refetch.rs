//! The prefetcher of a new leader: the schedules it holds and waits for,
//! its timers, and which waiting schedules it downloads again and from where.
//!
//! A schedule that some peer reported and that is not downloaded yet waits.
//! When no download of it started within `PREFETCH_OLD` milliseconds, a new
//! one is started from an address that is neither blacklisted nor already
//! downloading it.

use vstd::prelude::*;

use vstd::hash_map::StringHashMap;

use crate::failures::{listed, Blacklist};
use crate::fetch::PrefetchState;
use crate::id::Id;
use crate::id_collections::IdSet;
use crate::peers::{AddrView, PeerAddr};
use crate::schedule::{Schedule, ScheduleView};
use crate::text::str_eq;

verus! {

/// Milliseconds a new leader waits for its peers to report their schedules.
pub const PREFETCH_MIN: u64 = 15000;

/// Milliseconds after which prefetching gives up on schedules it could not
/// download: sixty seconds after the grace period.
pub const PREFETCH_MAX: u64 = 75000;

/// When the timer of a prefetch started at `start` fires: the end of the
/// grace period while in it, the final deadline once fetching.
pub fn prefetch_deadline(start: u64, state: PrefetchState) -> (r: u64)
    requires
        start + PREFETCH_MAX <= u64::MAX,
    ensures
        r == start + match state {
            PrefetchState::Graceful => PREFETCH_MIN,
            PrefetchState::Fetching => PREFETCH_MAX,
        },
        state == PrefetchState::Fetching ==> r == start + PREFETCH_MIN + 60000,
{
    match state {
        PrefetchState::Graceful => start + PREFETCH_MIN,
        PrefetchState::Fetching => start + PREFETCH_MAX,
    }
}

/// Milliseconds before a replica reconnects to its leader after a failure:
/// between 100 and 300, the random part given as `jitter`.
pub fn reconnect_delay(jitter: u64) -> (r: u64)
    requires
        jitter < 200,
    ensures
        r == 100 + jitter,
        100 <= r < 300,
{
    100 + jitter
}

/// A schedule download that started this recently (in milliseconds) is
/// still waited for.
pub const PREFETCH_OLD: u64 = 1000;

/// Milliseconds a failing address stays blacklisted, on average.
pub const PREFETCH_BLACKLIST: u64 = 200;

/// Until when an address whose download failed at `now` is blacklisted:
/// between half and one and a half times `PREFETCH_BLACKLIST` later, the
/// random part given as `jitter`.
pub fn blacklist_until(now: u64, jitter: u64) -> (r: u64)
    requires
        jitter < PREFETCH_BLACKLIST,
        now + PREFETCH_BLACKLIST * 3 / 2 <= u64::MAX,
    ensures
        r == now + PREFETCH_BLACKLIST / 2 + jitter,
        now + PREFETCH_BLACKLIST / 2 <= r < now + PREFETCH_BLACKLIST * 3 / 2,
{
    assert(PREFETCH_BLACKLIST / 2 == 100 && PREFETCH_BLACKLIST * 3 / 2 == 300);
    now + PREFETCH_BLACKLIST / 2 + jitter
}

/// A schedule waiting to be downloaded, with the addresses of the peers
/// that reported it.
pub open spec fn waiting_view(w: Seq<(String, Vec<PeerAddr>)>) -> Seq<(Seq<char>, Seq<AddrView>)> {
    w.map_values(|e: (String, Vec<PeerAddr>)| (e.0@, e.1@.map_values(|a: PeerAddr| a@)))
}

/// A download in progress: the schedule's hash, when it started, and the
/// address it comes from.
pub open spec fn started_view(s: Seq<(String, u64, PeerAddr)>) -> Seq<(Seq<char>, u64, AddrView)> {
    s.map_values(|e: (String, u64, PeerAddr)| (e.0@, e.1, e.2@))
}

/// Whether a download of `hash` started less than `PREFETCH_OLD`
/// milliseconds before `now`.
pub open spec fn recently_started(started: Seq<(Seq<char>, u64, AddrView)>, hash: Seq<char>, now: u64) -> bool {
    exists|i: int| 0 <= i < started.len() && (#[trigger] started[i]).0 == hash
        && started[i].1 + PREFETCH_OLD > now
}

/// Whether `hash` is being downloaded from `addr`.
pub open spec fn fetching_from(started: Seq<(Seq<char>, u64, AddrView)>, hash: Seq<char>, addr: AddrView) -> bool {
    exists|i: int| 0 <= i < started.len() && (#[trigger] started[i]).0 == hash && started[i].2 == addr
}

/// The addresses, in order, that `hash` may be downloaded from: not
/// blacklisted and not downloading it already.
pub open spec fn eligible(
    addrs: Seq<AddrView>,
    hash: Seq<char>,
    started: Seq<(Seq<char>, u64, AddrView)>,
    blacklist: Seq<(u64, AddrView)>,
) -> Seq<AddrView>
    decreases addrs.len(),
{
    if addrs.len() == 0 {
        Seq::empty()
    } else {
        let rest = eligible(addrs.drop_last(), hash, started, blacklist);
        let a = addrs.last();
        if !listed(blacklist, a) && !fetching_from(started, hash, a) {
            rest.push(a)
        } else {
            rest
        }
    }
}

/// The downloads to start, in the order of `waiting`: for each waiting
/// schedule with no recent download and some eligible address, the
/// eligible address at `pick`, counted round the list.
pub open spec fn refetch_spec(
    waiting: Seq<(Seq<char>, Seq<AddrView>)>,
    started: Seq<(Seq<char>, u64, AddrView)>,
    blacklist: Seq<(u64, AddrView)>,
    now: u64,
    pick: nat,
) -> Seq<(Seq<char>, AddrView)>
    decreases waiting.len(),
{
    if waiting.len() == 0 {
        Seq::empty()
    } else {
        let rest = refetch_spec(waiting.drop_last(), started, blacklist, now, pick);
        let (hash, addrs) = waiting.last();
        let el = eligible(addrs, hash, started, blacklist);
        if recently_started(started, hash, now) || el.len() == 0 {
            rest
        } else {
            rest.push((hash, el[(pick % el.len()) as int]))
        }
    }
}

fn is_recently_started(started: &Vec<(String, u64, PeerAddr)>, hash: &str, now: u64) -> (r: bool)
    ensures
        r == recently_started(started_view(started@), hash@, now),
{
    let ghost sv = started_view(started@);
    let mut i: usize = 0;
    while i < started.len()
        invariant
            sv == started_view(started@),
            0 <= i <= started@.len(),
            forall|j: int| 0 <= j < i ==> !((#[trigger] sv[j]).0 == hash@ && sv[j].1 + PREFETCH_OLD > now),
        decreases started@.len() - i,
    {
        let at: u64 = started[i].1;
        if str_eq(started[i].0.as_str(), hash) && (now < at || now - at < PREFETCH_OLD) {
            assert(sv[i as int].0 == hash@);
            return true;
        }
        i = i + 1;
    }
    false
}

fn is_fetching_from(started: &Vec<(String, u64, PeerAddr)>, hash: &str, addr: &PeerAddr) -> (r: bool)
    ensures
        r == fetching_from(started_view(started@), hash@, addr@),
{
    let ghost sv = started_view(started@);
    let mut i: usize = 0;
    while i < started.len()
        invariant
            sv == started_view(started@),
            0 <= i <= started@.len(),
            forall|j: int| 0 <= j < i ==> !((#[trigger] sv[j]).0 == hash@ && sv[j].2 == addr@),
        decreases started@.len() - i,
    {
        if str_eq(started[i].0.as_str(), hash) && started[i].2.same_as(addr) {
            assert(sv[i as int].0 == hash@);
            return true;
        }
        i = i + 1;
    }
    false
}

/// The addresses that `hash` may be downloaded from (see `eligible`).
pub fn eligible_addrs(
    addrs: &Vec<PeerAddr>,
    hash: &str,
    started: &Vec<(String, u64, PeerAddr)>,
    blacklist: &Blacklist,
) -> (r: Vec<PeerAddr>)
    ensures
        r@.map_values(|a: PeerAddr| a@) == eligible(
            addrs@.map_values(|a: PeerAddr| a@),
            hash@,
            started_view(started@),
            blacklist@,
        ),
{
    let ghost av = addrs@.map_values(|a: PeerAddr| a@);
    let ghost sv = started_view(started@);
    let mut out: Vec<PeerAddr> = Vec::new();
    let mut i: usize = 0;
    while i < addrs.len()
        invariant
            av == addrs@.map_values(|a: PeerAddr| a@),
            sv == started_view(started@),
            0 <= i <= addrs@.len(),
            out@.map_values(|a: PeerAddr| a@) == eligible(av.subrange(0, i as int), hash@, sv, blacklist@),
        decreases addrs@.len() - i,
    {
        assert(av.subrange(0, i + 1).drop_last() =~= av.subrange(0, i as int));
        assert(av.subrange(0, i + 1).last() == addrs@[i as int]@);
        let a = &addrs[i];
        if !blacklist.is_failing(a) && !is_fetching_from(started, hash, a) {
            out.push(a.duplicate());
            assert(out@.map_values(|a: PeerAddr| a@) =~= eligible(av.subrange(0, i as int), hash@, sv, blacklist@).push(a@));
        }
        i = i + 1;
    }
    assert(av.subrange(0, addrs@.len() as int) =~= av);
    out
}

/// The downloads the prefetcher starts at `now` (see `refetch_spec`);
/// `pick` is the random choice among the eligible addresses.
pub fn refetch_plan(
    waiting: &Vec<(String, Vec<PeerAddr>)>,
    started: &Vec<(String, u64, PeerAddr)>,
    blacklist: &Blacklist,
    now: u64,
    pick: usize,
) -> (r: Vec<(String, PeerAddr)>)
    ensures
        r@.map_values(|e: (String, PeerAddr)| (e.0@, e.1@))
            == refetch_spec(waiting_view(waiting@), started_view(started@), blacklist@, now, pick as nat),
{
    let ghost wv = waiting_view(waiting@);
    let ghost sv = started_view(started@);
    let mut out: Vec<(String, PeerAddr)> = Vec::new();
    let mut i: usize = 0;
    while i < waiting.len()
        invariant
            wv == waiting_view(waiting@),
            sv == started_view(started@),
            0 <= i <= waiting@.len(),
            out@.map_values(|e: (String, PeerAddr)| (e.0@, e.1@))
                == refetch_spec(wv.subrange(0, i as int), sv, blacklist@, now, pick as nat),
        decreases waiting@.len() - i,
    {
        let ghost prev = out@.map_values(|e: (String, PeerAddr)| (e.0@, e.1@));
        assert(wv.subrange(0, i + 1).drop_last() =~= wv.subrange(0, i as int));
        assert(wv.subrange(0, i + 1).last() == wv[i as int]);
        let hash = &waiting[i].0;
        let el = eligible_addrs(&waiting[i].1, hash.as_str(), started, blacklist);
        let ghost elv = el@.map_values(|a: PeerAddr| a@);
        if !is_recently_started(started, hash.as_str(), now) && el.len() > 0 {
            let k: usize = pick % el.len();
            assert(elv[k as int] == el@[k as int]@);
            out.push((hash.clone(), el[k].duplicate()));
            assert(out@.map_values(|e: (String, PeerAddr)| (e.0@, e.1@)) =~= prev.push((hash@, elv[k as int])));
        }
        i = i + 1;
    }
    assert(wv.subrange(0, waiting@.len() as int) =~= wv);
    out
}

/// What a new leader's prefetcher holds: the schedules downloaded so far,
/// by hash, and the schedules still waited for, by hash, with the peers
/// that reported each.
pub struct Prefetch {
    schedules: StringHashMap<Schedule>,
    waiting: StringHashMap<IdSet>,
}

impl Prefetch {
    /// Every set of reporters holds each peer once.
    pub closed spec fn well_formed(&self) -> bool {
        forall|k: Seq<char>| #[trigger] self.waiting@.contains_key(k) ==> self.waiting@[k].well_formed()
    }

    /// The schedules downloaded, by hash.
    pub closed spec fn downloaded(&self) -> Map<Seq<char>, ScheduleView> {
        self.schedules@.map_values(|s: Schedule| s@)
    }

    /// The schedules waited for, by hash, with the peers that reported them.
    pub closed spec fn waiting_peers(&self) -> Map<Seq<char>, Set<Seq<u8>>> {
        self.waiting@.map_values(|s: IdSet| s@)
    }

    /// The prefetcher of a node that just became the leader: the last
    /// schedule it knows counts as downloaded, and nothing is waited for.
    pub fn start(last: Option<Schedule>) -> (r: Prefetch)
        ensures
            r.well_formed(),
            r.downloaded() == match last {
                Some(s) => map![s.hash@ => s@],
                None => Map::<Seq<char>, ScheduleView>::empty(),
            },
            r.waiting_peers() == Map::<Seq<char>, Set<Seq<u8>>>::empty(),
    {
        let mut schedules: StringHashMap<Schedule> = StringHashMap::new();
        let ghost lv = last;
        match last {
            Some(s) => {
                let h = s.hash.clone();
                schedules.insert(h, s);
            },
            None => {},
        }
        let r = Prefetch { schedules, waiting: StringHashMap::new() };
        assert(r.downloaded() =~= match lv {
            Some(s) => map![s.hash@ => s@],
            None => Map::<Seq<char>, ScheduleView>::empty(),
        });
        assert(r.waiting_peers() =~= Map::<Seq<char>, Set<Seq<u8>>>::empty());
        r
    }

    /// Whether the schedule with this hash is downloaded.
    pub fn is_downloaded(&self, hash: &str) -> (r: bool)
        ensures
            r == self.downloaded().contains_key(hash@),
    {
        self.schedules.contains_key(hash)
    }

    /// A peer reports the schedule with this hash: unless it is downloaded,
    /// the peer is added to those it may be downloaded from.
    pub fn report(&mut self, peer: Id, hash: String)
        requires
            old(self).well_formed(),
        ensures
            final(self).well_formed(),
            final(self).downloaded() == old(self).downloaded(),
            final(self).waiting_peers() == if old(self).downloaded().contains_key(hash@) {
                old(self).waiting_peers()
            } else if old(self).waiting_peers().contains_key(hash@) {
                old(self).waiting_peers().insert(hash@, old(self).waiting_peers()[hash@].insert(peer@))
            } else {
                old(self).waiting_peers().insert(hash@, set![peer@])
            },
    {
        if self.schedules.contains_key(hash.as_str()) {
            return;
        }
        let ghost before = self.waiting_peers();
        let mut reporters = match self.waiting.get(hash.as_str()) {
            Some(set) => set.duplicate(),
            None => IdSet::new(),
        };
        let ghost pv = peer@;
        reporters.insert(peer);
        let ghost rv = reporters@;
        self.waiting.insert(hash, reporters);
        assert(self.waiting_peers() =~= before.insert(hash@, rv));
        proof {
            if before.contains_key(hash@) {
                assert(rv =~= before[hash@].insert(pv));
            } else {
                assert(rv =~= set![pv]);
            }
        }
    }

    /// A schedule was downloaded: it is no longer waited for.
    pub fn add_downloaded(&mut self, schedule: Schedule)
        requires
            old(self).well_formed(),
        ensures
            final(self).well_formed(),
            final(self).downloaded() == old(self).downloaded().insert(schedule.hash@, schedule@),
            final(self).waiting_peers() == old(self).waiting_peers().remove(schedule.hash@),
    {
        let ghost before_d = self.downloaded();
        let ghost before_w = self.waiting_peers();
        let ghost sv = schedule@;
        self.waiting.remove(schedule.hash.as_str());
        let h = schedule.hash.clone();
        self.schedules.insert(h, schedule);
        assert(self.downloaded() =~= before_d.insert(sv.hash, sv));
        assert(self.waiting_peers() =~= before_w.remove(sv.hash));
    }

    /// Whether nothing is waited for any more.
    pub fn done(&self) -> (r: bool)
        ensures
            r == (self.waiting_peers().dom() == Set::<Seq<char>>::empty()),
    {
        let r = self.waiting.is_empty();
        assert(r ==> self.waiting_peers().dom() =~= Set::<Seq<char>>::empty());
        assert(self.waiting_peers().dom() =~= Set::<Seq<char>>::empty() ==> self.waiting@.dom() =~= Set::<Seq<char>>::empty());
        r
    }
}

} // verus!
