//! Bookkeeping of a new leader while it collects the schedules its peers
//! hold before computing its first schedule.

use vstd::prelude::*;
use vstd::hash_map::StringHashMap;

use crate::elect::ScheduleStamp;
use crate::id::Id;
use crate::id_collections::{IdSet, IdMap};
use crate::text::str_eq;

verus! {

/// A schedule being downloaded.
pub struct Fetching {
    /// When the download started, in milliseconds, if it has.
    pub time: Option<u64>,
    /// Peers known to hold the schedule. Any of them will do; two hosts
    /// sending the same schedule is fine.
    pub sources: IdSet,
}

impl Fetching {
    pub fn new() -> (r: Fetching)
        ensures
            r.time is None,
            r.sources.well_formed(),
            r.sources@ == Set::<Seq<u8>>::empty(),
    {
        Fetching { time: None, sources: IdSet::new() }
    }

    fn duplicate(&self) -> (r: Fetching)
        requires
            self.sources.well_formed(),
        ensures
            r.time == self.time,
            r.sources.well_formed(),
            r.sources@ == self.sources@,
    {
        Fetching { time: self.time, sources: self.sources.duplicate() }
    }
}

/// What a prefetching leader knows about the peers' schedules.
#[verifier::reject_recursive_types(S)]
pub struct PrefetchInfo<S> {
    /// Schedules that still need to be downloaded, by hash.
    pub fetching: StringHashMap<Fetching>,
    /// Peers that have not reported their last known schedule yet.
    pub peers_left: IdSet,
    /// Peers that have reported, so that the peer list can change.
    pub peers_reported: IdSet,
    /// For each leader known to any peer, its latest schedule by timestamp
    /// (milliseconds) and hash.
    pub leader_stamps: IdMap<(u64, String)>,
    /// Downloaded schedules by hash; nothing is removed until scheduling
    /// is done.
    pub all_schedules: StringHashMap<S>,
}

/// The schedules being downloaded: start time and sources of each hash.
pub open spec fn fetching_view(m: Map<Seq<char>, Fetching>) -> Map<Seq<char>, (Option<u64>, Set<Seq<u8>>)> {
    m.map_values(|f: Fetching| (f.time, f.sources@))
}

/// The latest stamp of each leader: timestamp and hash.
pub open spec fn stamps_view(m: Map<Seq<u8>, (u64, String)>) -> Map<Seq<u8>, (u64, Seq<char>)> {
    m.map_values(|v: (u64, String)| (v.0, v.1@))
}

/// A report of `ts` for `origin` is newer than what is recorded.
pub open spec fn newer_stamp(stamps: Map<Seq<u8>, (u64, Seq<char>)>, origin: Seq<u8>, ts: u64) -> bool {
    !stamps.contains_key(origin) || stamps[origin].0 < ts
}

/// The download entry of `hash` once `peer` is known to hold it.
pub open spec fn with_source(
    f: Map<Seq<char>, (Option<u64>, Set<Seq<u8>>)>,
    hash: Seq<char>,
    peer: Seq<u8>,
) -> Map<Seq<char>, (Option<u64>, Set<Seq<u8>>)> {
    if f.contains_key(hash) {
        f.insert(hash, (f[hash].0, f[hash].1.insert(peer)))
    } else {
        f.insert(hash, (None, Set::empty().insert(peer)))
    }
}

impl<S> PrefetchInfo<S> {
    /// Sets are free of duplicates, and a schedule is never both stored and
    /// still being downloaded.
    pub open spec fn well_formed(&self) -> bool {
        &&& self.peers_left.well_formed()
        &&& self.peers_reported.well_formed()
        &&& self.leader_stamps.well_formed()
        &&& forall|h: Seq<char>| #[trigger] self.fetching@.contains_key(h) ==> self.fetching@[h].sources.well_formed()
        &&& forall|h: Seq<char>| #[trigger] self.fetching@.contains_key(h) ==> !self.all_schedules@.contains_key(h)
    }

    /// Starts with every given peer still to report.
    pub fn new(peers: &Vec<Id>) -> (r: PrefetchInfo<S>)
        ensures
            r.well_formed(),
            r.peers_left@ == Set::new(|k: Seq<u8>| exists|i: int| 0 <= i < peers@.len() && peers@[i]@ == k),
            r.peers_reported@ == Set::<Seq<u8>>::empty(),
            r.leader_stamps@ == Map::<Seq<u8>, (u64, String)>::empty(),
            r.fetching@ == Map::<Seq<char>, Fetching>::empty(),
            r.all_schedules@ == Map::<Seq<char>, S>::empty(),
    {
        let mut left = IdSet::new();
        let mut i: usize = 0;
        while i < peers.len()
            invariant
                0 <= i <= peers@.len(),
                left.well_formed(),
                left@ == Set::new(|k: Seq<u8>| exists|j: int| 0 <= j < i && peers@[j]@ == k),
            decreases peers@.len() - i,
        {
            let ghost before = left@;
            left.insert(peers[i].duplicate());
            assert(left@ =~= Set::new(|k: Seq<u8>| exists|j: int| 0 <= j < i + 1 && peers@[j]@ == k)) by {
                assert forall|k: Seq<u8>| left@.contains(k) <==> (exists|j: int| 0 <= j < i + 1 && peers@[j]@ == k) by {
                    if exists|j: int| 0 <= j < i + 1 && peers@[j]@ == k {
                        let j = choose|j: int| 0 <= j < i + 1 && peers@[j]@ == k;
                        if j < i {
                            assert(before.contains(k));
                        }
                    }
                }
            }
            i = i + 1;
        }
        let r = PrefetchInfo {
            fetching: StringHashMap::new(),
            peers_left: left,
            peers_reported: IdSet::new(),
            leader_stamps: IdMap::new(),
            all_schedules: StringHashMap::new(),
        };
        r
    }

    /// Takes a peer's report of the schedule it holds. The peer has now
    /// reported; when the schedule is the newest known of its leader, it
    /// becomes that leader's stamp and, unless already stored, is queued for
    /// download from this peer. Returns whether the schedule was put on the
    /// list of schedules being downloaded.
    pub fn peer_report(&mut self, id: Id, schedule: ScheduleStamp) -> (queued: bool)
        requires
            old(self).well_formed(),
        ensures
            final(self).well_formed(),
            queued == (newer_stamp(stamps_view(old(self).leader_stamps@), schedule.origin@, schedule.timestamp)
                && !old(self).all_schedules@.contains_key(schedule.hash@)),
            final(self).peers_left@ == old(self).peers_left@.remove(id@),
            final(self).peers_reported@ == old(self).peers_reported@.insert(id@),
            stamps_view(final(self).leader_stamps@) == if newer_stamp(
                stamps_view(old(self).leader_stamps@),
                schedule.origin@,
                schedule.timestamp,
            ) {
                stamps_view(old(self).leader_stamps@).insert(schedule.origin@, (schedule.timestamp, schedule.hash@))
            } else {
                stamps_view(old(self).leader_stamps@)
            },
            fetching_view(final(self).fetching@) == if queued {
                with_source(fetching_view(old(self).fetching@), schedule.hash@, id@)
            } else {
                fetching_view(old(self).fetching@)
            },
            final(self).all_schedules@ == old(self).all_schedules@,
    {
        let ghost old_stamps = stamps_view(self.leader_stamps@);
        let ghost old_fetching = fetching_view(self.fetching@);
        self.peers_left.remove(&id);
        self.peers_reported.insert(id.duplicate());
        let updated = match self.leader_stamps.get(&schedule.origin) {
            None => true,
            Some(stamp) => stamp.0 < schedule.timestamp,
        };
        if updated {
            self.leader_stamps.insert(schedule.origin.duplicate(), (schedule.timestamp, schedule.hash.clone()));
            assert(stamps_view(self.leader_stamps@) =~= old_stamps.insert(schedule.origin@, (schedule.timestamp, schedule.hash@)));
        }
        let queued = updated && !self.all_schedules.contains_key(schedule.hash.as_str());
        if queued {
            let mut entry = match self.fetching.get(schedule.hash.as_str()) {
                Some(f) => f.duplicate(),
                None => Fetching::new(),
            };
            entry.sources.insert(id);
            let ghost e = entry;
            self.fetching.insert(schedule.hash, entry);
            assert(fetching_view(self.fetching@) =~= with_source(old_fetching, schedule.hash@, id@)) by {
                assert(e.sources@ == (if old_fetching.contains_key(schedule.hash@) {
                    old_fetching[schedule.hash@].1
                } else {
                    Set::<Seq<u8>>::empty()
                }).insert(id@));
            }
        }
        queued
    }

    /// Stores a downloaded schedule under its hash, unless one is stored
    /// already; it is no longer downloaded.
    pub fn add_schedule(&mut self, hash: String, schedule: S)
        requires
            old(self).well_formed(),
        ensures
            final(self).well_formed(),
            old(self).all_schedules@.contains_key(hash@) ==> final(self).all_schedules@ == old(self).all_schedules@
                && fetching_view(final(self).fetching@) == fetching_view(old(self).fetching@),
            !old(self).all_schedules@.contains_key(hash@) ==> final(self).all_schedules@ == old(self).all_schedules@.insert(hash@, schedule)
                && fetching_view(final(self).fetching@) == fetching_view(old(self).fetching@).remove(hash@),
            final(self).peers_left@ == old(self).peers_left@,
            final(self).peers_reported@ == old(self).peers_reported@,
            final(self).leader_stamps@ == old(self).leader_stamps@,
    {
        if !self.all_schedules.contains_key(hash.as_str()) {
            let ghost old_fetching = fetching_view(self.fetching@);
            self.fetching.remove(hash.as_str());
            self.all_schedules.insert(hash, schedule);
            assert(fetching_view(self.fetching@) =~= old_fetching.remove(hash@));
        }
    }

    /// Prefetching is done when nothing is being downloaded and every peer
    /// has reported.
    pub fn done(&self) -> (r: bool)
        ensures
            r == (self.fetching@.is_empty() && self.peers_left@ == Set::<Seq<u8>>::empty()),
    {
        self.fetching.is_empty() && self.peers_left.is_empty()
    }

    /// The downloaded schedules that are the latest of some leader, each
    /// hash once.
    pub fn get_schedules(&self) -> (r: Vec<&S>)
        requires
            self.well_formed(),
        ensures
            forall|i: int| 0 <= i < r@.len() ==> is_latest_schedule(
                self.all_schedules@,
                stamps_view(self.leader_stamps@),
                *#[trigger] r@[i],
            ),
            forall|h: Seq<char>| #[trigger] self.all_schedules@.contains_key(h) && is_stamp_hash(stamps_view(self.leader_stamps@), h)
                ==> listed(r@, self.all_schedules@[h]),
            exists|hs: Seq<Seq<char>>| from_distinct_hashes(self.all_schedules@, r@, hs),
    {
        let ghost mut rh: Seq<Seq<char>> = Seq::empty();
        let mut hashes: Vec<&String> = Vec::new();
        let mut r: Vec<&S> = Vec::new();
        let n = self.leader_stamps.len();
        proof { self.leader_stamps.lemma_positions(); }
        let ghost stamps = stamps_view(self.leader_stamps@);
        let ghost all = self.all_schedules@;
        let mut i: usize = 0;
        while i < n
            invariant
                self.well_formed(),
                stamps == stamps_view(self.leader_stamps@),
                all == self.all_schedules@,
                n == self.leader_stamps@.dom().len(),
                0 <= i <= n,
                forall|k: Seq<u8>| #[trigger] self.leader_stamps@.contains_key(k) ==> exists|j: int|
                    0 <= j < n && self.leader_stamps.key_at(j) == k,
                forall|j: int| 0 <= j < n ==> #[trigger] self.leader_stamps@.contains_key(self.leader_stamps.key_at(j)),
                forall|j: int| 0 <= j < i ==> hash_listed(hashes@, #[trigger] stamps[self.leader_stamps.key_at(j)].1),
                forall|m: int| 0 <= m < hashes@.len() ==> is_stamp_hash(stamps, #[trigger] hashes@[m]@),
                forall|m: int| 0 <= m < r@.len() ==> is_latest_schedule(all, stamps, *#[trigger] r@[m]),
                forall|m: int| 0 <= m < hashes@.len() && #[trigger] all.contains_key(hashes@[m]@)
                    ==> listed(r@, all[hashes@[m]@]),
                from_distinct_hashes(all, r@, rh),
                forall|m: int| 0 <= m < rh.len() ==> hash_listed(hashes@, #[trigger] rh[m]),
            decreases n - i,
        {
            let stamp = self.leader_stamps.value_at(i);
            let h: &String = &stamp.1;
            let ghost k = self.leader_stamps.key_at(i as int);
            assert(stamps[k].1 == h@);
            assert(is_stamp_hash(stamps, h@)) by {
                assert(stamps.contains_key(k));
            }
            let mut seen = false;
            let mut m: usize = 0;
            while m < hashes.len()
                invariant
                    0 <= m <= hashes@.len(),
                    !seen ==> forall|x: int| 0 <= x < m ==> hashes@[x]@ != h@,
                    seen ==> hash_listed(hashes@, h@),
                decreases hashes@.len() - m,
            {
                if str_eq(hashes[m].as_str(), h.as_str()) {
                    seen = true;
                    assert(hashes@[m as int]@ == h@);
                }
                m = m + 1;
            }
            if !seen {
                let ghost old_hashes = hashes@;
                let ghost old_r = r@;
                hashes.push(h);
                assert(hashes@[old_hashes.len() as int]@ == h@);
                let ghost old_rh = rh;
                assert forall|x: int| 0 <= x < old_rh.len() implies #[trigger] old_rh[x] != h@ && hash_listed(hashes@, old_rh[x]) by {
                    let mm = choose|mm: int| 0 <= mm < old_hashes.len() && old_hashes[mm]@ == old_rh[x];
                    assert(hashes@[mm] == old_hashes[mm]);
                }
                match self.all_schedules.get(h.as_str()) {
                    Some(s) => {
                        r.push(s);
                        proof { rh = rh.push(h@); }
                        assert(*r@[old_r.len() as int] == all[h@]);
                        assert(is_latest_schedule(all, stamps, *s));
                        assert forall|x: int| 0 <= x < rh.len() implies hash_listed(hashes@, #[trigger] rh[x]) by {
                            if x < old_rh.len() {
                                assert(rh[x] == old_rh[x]);
                            } else {
                                assert(hashes@[old_hashes.len() as int]@ == h@);
                            }
                        }
                        assert forall|x: int| 0 <= x < rh.len() implies all.contains_key(#[trigger] rh[x]) && *r@[x] == all[rh[x]] by {
                            if x < old_rh.len() {
                                assert(rh[x] == old_rh[x] && r@[x] == old_r[x]);
                            }
                        }
                        assert forall|x: int, y: int| 0 <= x < y < rh.len() implies #[trigger] rh[x] != #[trigger] rh[y] by {
                            if y < old_rh.len() {
                                assert(rh[x] == old_rh[x] && rh[y] == old_rh[y]);
                            } else {
                                assert(rh[x] == old_rh[x]);
                            }
                        }
                    },
                    None => {},
                }
                assert forall|x: int| 0 <= x < r@.len() implies is_latest_schedule(all, stamps, *#[trigger] r@[x]) by {
                    if x < old_r.len() {
                        assert(r@[x] == old_r[x]);
                    }
                }
                assert forall|x: int| 0 <= x < hashes@.len() && #[trigger] all.contains_key(hashes@[x]@)
                    implies listed(r@, all[hashes@[x]@]) by {
                    if x < old_hashes.len() {
                        assert(hashes@[x] == old_hashes[x]);
                        let y = choose|y: int| 0 <= y < old_r.len() && *old_r[y] == all[old_hashes[x]@];
                        assert(r@[y] == old_r[y]);
                    } else {
                        assert(*r@[old_r.len() as int] == all[h@]);
                    }
                }
                assert forall|j: int| 0 <= j < i + 1 implies hash_listed(hashes@, #[trigger] stamps[self.leader_stamps.key_at(j)].1) by {
                    if j < i {
                        let mm = choose|mm: int| 0 <= mm < old_hashes.len() && old_hashes[mm]@ == stamps[self.leader_stamps.key_at(j)].1;
                        assert(hashes@[mm] == old_hashes[mm]);
                    } else {
                        assert(hashes@[old_hashes.len() as int]@ == stamps[k].1);
                    }
                }
                assert forall|mm: int| 0 <= mm < hashes@.len() implies is_stamp_hash(stamps, #[trigger] hashes@[mm]@) by {
                    if mm < old_hashes.len() {
                        assert(hashes@[mm] == old_hashes[mm]);
                    }
                }
            }
            i = i + 1;
        }
        assert forall|hh: Seq<char>| #[trigger] all.contains_key(hh) && is_stamp_hash(stamps, hh)
            implies listed(r@, all[hh]) by {
            let k = choose|k: Seq<u8>| stamps.contains_key(k) && stamps[k].1 == hh;
            assert(self.leader_stamps@.contains_key(k));
            let j = choose|j: int| 0 <= j < n && self.leader_stamps.key_at(j) == k;
            assert(hash_listed(hashes@, stamps[self.leader_stamps.key_at(j)].1));
            let mm = choose|mm: int| 0 <= mm < hashes@.len() && hashes@[mm]@ == stamps[self.leader_stamps.key_at(j)].1;
            assert(all.contains_key(hashes@[mm]@));
        }
        r
    }
}

/// The value is the stored schedule of the latest stamp of some leader.
pub open spec fn is_latest_schedule<S>(
    all: Map<Seq<char>, S>,
    stamps: Map<Seq<u8>, (u64, Seq<char>)>,
    v: S,
) -> bool {
    exists|h: Seq<char>| all.contains_key(h) && is_stamp_hash(stamps, h) && v == all[h]
}

/// Each referenced value is the stored schedule of its own hash in `hs`,
/// and no hash occurs twice in `hs`.
pub open spec fn from_distinct_hashes<S>(all: Map<Seq<char>, S>, r: Seq<&S>, hs: Seq<Seq<char>>) -> bool {
    &&& hs.len() == r.len()
    &&& forall|i: int| 0 <= i < hs.len() ==> all.contains_key(#[trigger] hs[i]) && *r[i] == all[hs[i]]
    &&& forall|i: int, j: int| 0 <= i < j < hs.len() ==> #[trigger] hs[i] != #[trigger] hs[j]
}

/// The value is one of those referenced by the sequence.
pub open spec fn listed<S>(r: Seq<&S>, v: S) -> bool {
    exists|x: int| 0 <= x < r.len() && *r[x] == v
}

/// The hash is in the list.
pub open spec fn hash_listed(hashes: Seq<&String>, h: Seq<char>) -> bool {
    exists|m: int| 0 <= m < hashes.len() && hashes[m]@ == h
}

/// Law: a leader's latest stamp never goes back in time and no leader is
/// forgotten: whatever a peer reports, every recorded leader keeps a stamp
/// at least as new as before.
pub proof fn stamps_never_go_back(
    stamps: Map<Seq<u8>, (u64, Seq<char>)>,
    origin: Seq<u8>,
    ts: u64,
    hash: Seq<char>,
)
    ensures
        ({
            let after = if newer_stamp(stamps, origin, ts) {
                stamps.insert(origin, (ts, hash))
            } else {
                stamps
            };
            &&& forall|k: Seq<u8>| #[trigger] stamps.contains_key(k) ==> after.contains_key(k) && after[k].0 >= stamps[k].0
            &&& after.contains_key(origin)
            &&& after[origin].0 >= ts
        }),
{
}

/// The hash is the latest schedule of some leader.
pub open spec fn is_stamp_hash(stamps: Map<Seq<u8>, (u64, Seq<char>)>, h: Seq<char>) -> bool {
    exists|k: Seq<u8>| stamps.contains_key(k) && stamps[k].1 == h
}

} // verus!
