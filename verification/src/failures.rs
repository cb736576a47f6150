//! Addresses that failed recently, each kept until a given moment.

use vstd::prelude::*;

use crate::peers::{AddrView, PeerAddr};

verus! {

/// Failing addresses, each with the moment (in ticks of a monotonic clock)
/// after which it may be tried again. An address is listed once.
pub struct Blacklist {
    entries: Vec<(u64, PeerAddr)>,
}

pub open spec fn blacklist_view(s: Seq<(u64, PeerAddr)>) -> Seq<(u64, AddrView)> {
    s.map_values(|e: (u64, PeerAddr)| (e.0, e.1@))
}

/// The address is listed.
pub open spec fn listed(s: Seq<(u64, AddrView)>, a: AddrView) -> bool {
    exists|i: int| 0 <= i < s.len() && (#[trigger] s[i]).1 == a
}

/// No address is listed twice.
pub open spec fn distinct_addrs(s: Seq<(u64, AddrView)>) -> bool {
    forall|i: int, j: int| 0 <= i < s.len() && 0 <= j < s.len() && i != j ==> (#[trigger] s[i]).1 != (#[trigger] s[j]).1
}

/// The entry at `i` has the latest moment of all.
pub open spec fn is_latest(s: Seq<(u64, AddrView)>, i: int) -> bool {
    0 <= i < s.len() && forall|j: int| 0 <= j < s.len() ==> (#[trigger] s[j]).0 <= s[i].0
}

impl View for Blacklist {
    type V = Seq<(u64, AddrView)>;

    closed spec fn view(&self) -> Seq<(u64, AddrView)> {
        blacklist_view(self.entries@)
    }
}

impl Blacklist {
    pub closed spec fn well_formed(&self) -> bool {
        distinct_addrs(self@)
    }

    pub fn new() -> (r: Blacklist)
        ensures
            r.well_formed(),
            r@ == Seq::<(u64, AddrView)>::empty(),
    {
        let r = Blacklist { entries: Vec::new() };
        assert(r@ =~= Seq::<(u64, AddrView)>::empty());
        r
    }

    fn position(&self, addr: &PeerAddr) -> (r: Option<usize>)
        ensures
            r matches Some(i) ==> i < self@.len() && self@[i as int].1 == addr@,
            r is None ==> !listed(self@, addr@),
    {
        let ghost v = self@;
        let mut i: usize = 0;
        while i < self.entries.len()
            invariant
                v == blacklist_view(self.entries@),
                v.len() == self.entries@.len(),
                0 <= i <= self.entries@.len(),
                forall|j: int| 0 <= j < i ==> (#[trigger] v[j]).1 != addr@,
            decreases self.entries@.len() - i,
        {
            assert(v[i as int] == (self.entries@[i as int].0, self.entries@[i as int].1@));
            if self.entries[i].1.same_as(addr) {
                return Some(i);
            }
            i = i + 1;
        }
        None
    }

    /// Whether the address is listed.
    pub fn is_failing(&self, addr: &PeerAddr) -> (r: bool)
        ensures
            r == listed(self@, addr@),
    {
        self.position(addr).is_some()
    }

    /// Lists an address until `time`; an address already listed keeps its
    /// moment.
    pub fn blacklist(&mut self, addr: PeerAddr, time: u64)
        requires
            old(self).well_formed(),
        ensures
            final(self).well_formed(),
            final(self)@ == if listed(old(self)@, addr@) {
                old(self)@
            } else {
                old(self)@.push((time, addr@))
            },
    {
        if self.position(&addr).is_some() {
            return;
        }
        let ghost before = self@;
        let ghost av = addr@;
        self.entries.push((time, addr));
        proof {
            assert(self@ =~= before.push((time, av)));
            assert forall|i: int, j: int| 0 <= i < self@.len() && 0 <= j < self@.len() && i != j
                implies (#[trigger] self@[i]).1 != (#[trigger] self@[j]).1 by {
                if i < before.len() && j < before.len() {
                    assert(self@[i] == before[i] && self@[j] == before[j]);
                } else if i == before.len() {
                    assert(self@[j] == before[j]);
                } else {
                    assert(self@[i] == before[i]);
                }
            }
        }
    }

    fn latest(&self) -> (r: Option<usize>)
        ensures
            r is None <==> self@.len() == 0,
            r matches Some(i) ==> is_latest(self@, i as int),
    {
        let ghost v = self@;
        let n = self.entries.len();
        if n == 0 {
            return None;
        }
        let mut best: usize = 0;
        let mut i: usize = 1;
        while i < n
            invariant
                v == blacklist_view(self.entries@),
                v.len() == n,
                0 <= best < i <= n,
                forall|j: int| 0 <= j < i ==> (#[trigger] v[j]).0 <= v[best as int].0,
            decreases n - i,
        {
            assert(v[i as int].0 == self.entries@[i as int].0);
            assert(v[best as int].0 == self.entries@[best as int].0);
            if self.entries[i].0 > self.entries[best].0 {
                best = i;
            }
            i = i + 1;
        }
        Some(best)
    }

    /// The moment the latest listed address may be tried again: when to
    /// look at the list next.
    pub fn next_deadline(&self) -> (r: Option<u64>)
        ensures
            r is None <==> self@.len() == 0,
            r matches Some(t) ==> exists|i: int| is_latest(self@, i) && self@[i].0 == t,
    {
        match self.latest() {
            Some(i) => {
                assert(self@[i as int].0 == self.entries@[i as int].0);
                Some(self.entries[i].0)
            },
            None => None,
        }
    }

    /// At moment `now`, releases the address with the latest moment if
    /// that moment has come. Nothing is released while it has not, even
    /// when other addresses' moments have come.
    pub fn poll(&mut self, now: u64) -> (r: Option<PeerAddr>)
        requires
            old(self).well_formed(),
        ensures
            final(self).well_formed(),
            match r {
                None => final(self)@ == old(self)@ && forall|i: int| is_latest(old(self)@, i) ==> old(self)@[i].0 > now,
                Some(a) => exists|i: int| {
                    &&& is_latest(old(self)@, i)
                    &&& old(self)@[i].0 <= now
                    &&& old(self)@[i].1 == a@
                    &&& final(self)@ == old(self)@.remove(i)
                },
            },
    {
        let ghost before = self@;
        match self.latest() {
            None => None,
            Some(i) => {
                assert(before[i as int] == (self.entries@[i as int].0, self.entries@[i as int].1@));
                if self.entries[i].0 <= now {
                    let (_, a) = self.entries.remove(i);
                    proof {
                        assert(self@ =~= before.remove(i as int));
                        assert forall|x: int, y: int| 0 <= x < self@.len() && 0 <= y < self@.len() && x != y
                            implies (#[trigger] self@[x]).1 != (#[trigger] self@[y]).1 by {
                            let xo = if x < i { x } else { x + 1 };
                            let yo = if y < i { y } else { y + 1 };
                            assert(self@[x] == before[xo] && self@[y] == before[yo]);
                        }
                    }
                    Some(a)
                } else {
                    proof {
                        assert forall|j: int| is_latest(before, j) implies before[j].0 > now by {
                            assert(before[i as int].0 <= before[j].0);
                        }
                    }
                    None
                }
            },
        }
    }
}

} // verus!
