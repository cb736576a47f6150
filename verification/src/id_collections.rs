//! Sets of node ids and maps keyed by node id, kept as vectors without
//! duplicate ids.

use vstd::prelude::*;

use crate::id::Id;

verus! {

/// A set of node ids.
pub struct IdSet {
    ids: Vec<Id>,
}

/// The ids of a sequence have no duplicates.
pub open spec fn distinct_ids(ids: Seq<Id>) -> bool {
    forall|i: int, j: int| 0 <= i < ids.len() && 0 <= j < ids.len() && i != j ==> ids[i]@ != ids[j]@
}

impl View for IdSet {
    type V = Set<Seq<u8>>;

    closed spec fn view(&self) -> Set<Seq<u8>> {
        Set::new(|k: Seq<u8>| exists|i: int| 0 <= i < self.ids@.len() && self.ids@[i]@ == k)
    }
}

impl IdSet {
    /// No id is held twice.
    pub closed spec fn well_formed(&self) -> bool {
        distinct_ids(self.ids@)
    }

    pub fn new() -> (r: IdSet)
        ensures
            r.well_formed(),
            r@ == Set::<Seq<u8>>::empty(),
    {
        let r = IdSet { ids: Vec::new() };
        assert(r@ =~= Set::<Seq<u8>>::empty());
        r
    }

    fn position(&self, id: &Id) -> (r: Option<usize>)
        ensures
            r matches Some(i) ==> i < self.ids@.len() && self.ids@[i as int]@ == id@,
            r is None ==> forall|j: int| 0 <= j < self.ids@.len() ==> self.ids@[j]@ != id@,
    {
        let mut i: usize = 0;
        while i < self.ids.len()
            invariant
                0 <= i <= self.ids@.len(),
                forall|j: int| 0 <= j < i ==> self.ids@[j]@ != id@,
            decreases self.ids@.len() - i,
        {
            if self.ids[i].same_as(id) {
                return Some(i);
            }
            i = i + 1;
        }
        None
    }

    pub fn contains(&self, id: &Id) -> (r: bool)
        ensures
            r == self@.contains(id@),
    {
        match self.position(id) {
            Some(i) => {
                assert(self@.contains(id@)) by {
                    assert(self.ids@[i as int]@ == id@);
                }
                true
            },
            None => false,
        }
    }

    /// Adds an id; returns whether it was new.
    pub fn insert(&mut self, id: Id) -> (r: bool)
        requires
            old(self).well_formed(),
        ensures
            final(self).well_formed(),
            final(self)@ == old(self)@.insert(id@),
            r == !old(self)@.contains(id@),
    {
        match self.position(&id) {
            Some(i) => {
                assert(self@.contains(id@)) by {
                    assert(self.ids@[i as int]@ == id@);
                }
                assert(self@.insert(id@) =~= self@);
                false
            },
            None => {
                let ghost old_ids = self.ids@;
                let ghost k = id@;
                self.ids.push(id);
                assert(self.ids@ == old_ids.push(self.ids@.last()));
                assert(self@ =~= Set::new(|x: Seq<u8>| exists|i: int| 0 <= i < old_ids.len() && old_ids[i]@ == x).insert(k)) by {
                    assert forall|x: Seq<u8>| self@.contains(x) implies old_ids.len() >= 0 && (x == k || exists|i: int| 0 <= i < old_ids.len() && old_ids[i]@ == x) by {
                        let i = choose|i: int| 0 <= i < self.ids@.len() && self.ids@[i]@ == x;
                        if i < old_ids.len() {
                            assert(old_ids[i]@ == x);
                        }
                    }
                    assert forall|x: Seq<u8>| (x == k || exists|i: int| 0 <= i < old_ids.len() && old_ids[i]@ == x) implies self@.contains(x) by {
                        if x == k {
                            assert(self.ids@[old_ids.len() as int]@ == x);
                        } else {
                            let i = choose|i: int| 0 <= i < old_ids.len() && old_ids[i]@ == x;
                            assert(self.ids@[i]@ == x);
                        }
                    }
                }
                true
            },
        }
    }

    /// Removes an id; returns whether it was there.
    pub fn remove(&mut self, id: &Id) -> (r: bool)
        requires
            old(self).well_formed(),
        ensures
            final(self).well_formed(),
            final(self)@ == old(self)@.remove(id@),
            r == old(self)@.contains(id@),
    {
        match self.position(id) {
            Some(i) => {
                let ghost old_ids = self.ids@;
                assert(self@.contains(id@)) by {
                    assert(self.ids@[i as int]@ == id@);
                }
                self.ids.remove(i);
                assert(self.ids@ == old_ids.remove(i as int));
                assert forall|a: int, b: int|
                    0 <= a < self.ids@.len() && 0 <= b < self.ids@.len() && a != b implies self.ids@[a]@ != self.ids@[b]@ by {
                    let oa = if a < i { a } else { a + 1 };
                    let ob = if b < i { b } else { b + 1 };
                    assert(self.ids@[a] == old_ids[oa]);
                    assert(self.ids@[b] == old_ids[ob]);
                }
                let ghost old_view = Set::new(|x: Seq<u8>| exists|j: int| 0 <= j < old_ids.len() && old_ids[j]@ == x);
                assert(self@ =~= old_view.remove(id@)) by {
                    assert forall|x: Seq<u8>| self@.contains(x) implies old_view.contains(x) && x != id@ by {
                        let j = choose|j: int| 0 <= j < self.ids@.len() && self.ids@[j]@ == x;
                        let oj = if j < i { j } else { j + 1 };
                        assert(self.ids@[j] == old_ids[oj]);
                        assert(oj != i);
                    }
                    assert forall|x: Seq<u8>| old_view.contains(x) && x != id@ implies self@.contains(x) by {
                        let j = choose|j: int| 0 <= j < old_ids.len() && old_ids[j]@ == x;
                        assert(j != i);
                        let nj = if j < i { j } else { j - 1 };
                        assert(self.ids@[nj] == old_ids[j]);
                    }
                }
                true
            },
            None => {
                assert(!self@.contains(id@)) by {
                    if self@.contains(id@) {
                        let j = choose|j: int| 0 <= j < self.ids@.len() && self.ids@[j]@ == id@;
                        assert(self.ids@[j]@ != id@);
                    }
                }
                assert(self@.remove(id@) =~= self@);
                false
            },
        }
    }

    pub fn is_empty(&self) -> (r: bool)
        ensures
            r == (self@ == Set::<Seq<u8>>::empty()),
    {
        if self.ids.len() == 0 {
            assert(self@ =~= Set::<Seq<u8>>::empty());
            true
        } else {
            assert(self@.contains(self.ids@[0]@));
            false
        }
    }

    /// A copy holding the same ids.
    pub fn duplicate(&self) -> (r: IdSet)
        requires
            self.well_formed(),
        ensures
            r.well_formed(),
            r@ == self@,
    {
        let ids = self.to_vec();
        let r = IdSet { ids };
        assert(r@ =~= self@);
        r
    }

    /// The ids held, in no particular order.
    pub fn to_vec(&self) -> (r: Vec<Id>)
        ensures
            forall|k: Seq<u8>| self@.contains(k) <==> exists|i: int| 0 <= i < r@.len() && r@[i]@ == k,
            self.well_formed() ==> distinct_ids(r@),
    {
        let mut r: Vec<Id> = Vec::new();
        let mut i: usize = 0;
        while i < self.ids.len()
            invariant
                0 <= i <= self.ids@.len(),
                r@.len() == i,
                forall|j: int| 0 <= j < i ==> r@[j]@ == self.ids@[j]@,
            decreases self.ids@.len() - i,
        {
            r.push(self.ids[i].duplicate());
            i = i + 1;
        }
        assert forall|k: Seq<u8>| self@.contains(k) <==> exists|i: int| 0 <= i < r@.len() && r@[i]@ == k by {
            if self@.contains(k) {
                let j = choose|j: int| 0 <= j < self.ids@.len() && self.ids@[j]@ == k;
                assert(r@[j]@ == k);
            }
            if exists|i: int| 0 <= i < r@.len() && r@[i]@ == k {
                let j = choose|j: int| 0 <= j < r@.len() && r@[j]@ == k;
                assert(self.ids@[j]@ == k);
            }
        }
        r
    }
}

/// A map keyed by node id.
pub struct IdMap<V> {
    entries: Vec<(Id, V)>,
}

pub open spec fn distinct_keys<V>(entries: Seq<(Id, V)>) -> bool {
    forall|i: int, j: int|
        0 <= i < entries.len() && 0 <= j < entries.len() && i != j ==> entries[i].0@ != entries[j].0@
}

pub open spec fn has_key<V>(entries: Seq<(Id, V)>, k: Seq<u8>) -> bool {
    exists|i: int| 0 <= i < entries.len() && entries[i].0@ == k
}

pub open spec fn key_index<V>(entries: Seq<(Id, V)>, k: Seq<u8>) -> int {
    choose|i: int| 0 <= i < entries.len() && entries[i].0@ == k
}

/// The map a sequence of entries with distinct keys stands for.
pub open spec fn entries_map<V>(entries: Seq<(Id, V)>) -> Map<Seq<u8>, V> {
    Map::new(|k: Seq<u8>| has_key(entries, k), |k: Seq<u8>| entries[key_index(entries, k)].1)
}

/// In entries with distinct keys, the entry of a key is the one at any
/// index holding it.
pub proof fn lemma_key_index_unique<V>(entries: Seq<(Id, V)>, k: Seq<u8>, i: int)
    requires
        distinct_keys(entries),
        0 <= i < entries.len(),
        entries[i].0@ == k,
    ensures
        key_index(entries, k) == i,
        entries_map(entries).contains_key(k),
        entries_map(entries)[k] == entries[i].1,
{
    assert(has_key(entries, k));
}

impl<V> View for IdMap<V> {
    type V = Map<Seq<u8>, V>;

    closed spec fn view(&self) -> Map<Seq<u8>, V> {
        entries_map(self.entries@)
    }
}

impl<V> IdMap<V> {
    /// No key is held twice.
    pub closed spec fn well_formed(&self) -> bool {
        distinct_keys(self.entries@)
    }

    pub fn new() -> (r: IdMap<V>)
        ensures
            r.well_formed(),
            r@ == Map::<Seq<u8>, V>::empty(),
    {
        let r = IdMap { entries: Vec::new() };
        assert(r@ =~= Map::<Seq<u8>, V>::empty());
        r
    }

    fn position(&self, id: &Id) -> (r: Option<usize>)
        ensures
            r matches Some(i) ==> i < self.entries@.len() && self.entries@[i as int].0@ == id@,
            r is None ==> !has_key(self.entries@, id@),
    {
        let mut i: usize = 0;
        while i < self.entries.len()
            invariant
                0 <= i <= self.entries@.len(),
                forall|j: int| 0 <= j < i ==> self.entries@[j].0@ != id@,
            decreases self.entries@.len() - i,
        {
            if self.entries[i].0.same_as(id) {
                return Some(i);
            }
            i = i + 1;
        }
        None
    }

    pub fn get(&self, id: &Id) -> (r: Option<&V>)
        requires
            self.well_formed(),
        ensures
            match r {
                Some(v) => self@.contains_key(id@) && *v == self@[id@],
                None => !self@.contains_key(id@),
            },
    {
        match self.position(id) {
            Some(i) => {
                proof { lemma_key_index_unique(self.entries@, id@, i as int); }
                Some(&self.entries[i].1)
            },
            None => None,
        }
    }

    /// Sets the value of an id, replacing any value it had.
    pub fn insert(&mut self, id: Id, value: V)
        requires
            old(self).well_formed(),
        ensures
            final(self).well_formed(),
            final(self)@ == old(self)@.insert(id@, value),
    {
        let ghost old_entries = self.entries@;
        let ghost k = id@;
        match self.position(&id) {
            Some(i) => {
                self.entries.set(i, (id, value));
                assert forall|a: int, b: int|
                    0 <= a < self.entries@.len() && 0 <= b < self.entries@.len() && a != b
                    implies self.entries@[a].0@ != self.entries@[b].0@ by {
                    if a != i && b != i {
                        assert(self.entries@[a] == old_entries[a]);
                        assert(self.entries@[b] == old_entries[b]);
                    } else if a == i {
                        assert(self.entries@[b] == old_entries[b]);
                    } else {
                        assert(self.entries@[a] == old_entries[a]);
                    }
                }
                assert(self@ =~= entries_map(old_entries).insert(k, value)) by {
                    assert forall|x: Seq<u8>| #[trigger] self@.contains_key(x) <==> entries_map(old_entries).insert(k, value).contains_key(x) by {
                        if has_key(self.entries@, x) {
                            let j = key_index(self.entries@, x);
                            if j != i {
                                assert(old_entries[j] == self.entries@[j]);
                                assert(has_key(old_entries, x));
                            }
                        }
                        if has_key(old_entries, x) {
                            let j = key_index(old_entries, x);
                            if j != i {
                                assert(old_entries[j] == self.entries@[j]);
                            } else {
                                assert(old_entries[i as int].0@ == k);
                                assert(self.entries@[i as int].0@ == x);
                            }
                            assert(has_key(self.entries@, x));
                        }
                        if x == k {
                            assert(self.entries@[i as int].0@ == k);
                        }
                    }
                    assert forall|x: Seq<u8>| #[trigger] self@.contains_key(x) implies self@[x] == entries_map(old_entries).insert(k, value)[x] by {
                        let j = key_index(self.entries@, x);
                        lemma_key_index_unique(self.entries@, x, j);
                        if x == k {
                            lemma_key_index_unique(self.entries@, x, i as int);
                        } else {
                            assert(j != i);
                            assert(old_entries[j] == self.entries@[j]);
                            lemma_key_index_unique(old_entries, x, j);
                        }
                    }
                }
            },
            None => {
                self.entries.push((id, value));
                let ghost n = old_entries.len() as int;
                assert forall|a: int, b: int|
                    0 <= a < self.entries@.len() && 0 <= b < self.entries@.len() && a != b
                    implies self.entries@[a].0@ != self.entries@[b].0@ by {
                    if a < n && b < n {
                        assert(self.entries@[a] == old_entries[a]);
                        assert(self.entries@[b] == old_entries[b]);
                    } else if a == n {
                        assert(self.entries@[b] == old_entries[b]);
                        assert(!(old_entries[b].0@ == k));
                    } else {
                        assert(self.entries@[a] == old_entries[a]);
                        assert(!(old_entries[a].0@ == k));
                    }
                }
                assert(self@ =~= entries_map(old_entries).insert(k, value)) by {
                    assert forall|x: Seq<u8>| #[trigger] self@.contains_key(x) <==> entries_map(old_entries).insert(k, value).contains_key(x) by {
                        if has_key(self.entries@, x) {
                            let j = key_index(self.entries@, x);
                            if j < n {
                                assert(old_entries[j] == self.entries@[j]);
                                assert(has_key(old_entries, x));
                            }
                        }
                        if has_key(old_entries, x) {
                            let j = key_index(old_entries, x);
                            assert(old_entries[j] == self.entries@[j]);
                            assert(has_key(self.entries@, x));
                        }
                        if x == k {
                            assert(self.entries@[n].0@ == k);
                        }
                    }
                    assert forall|x: Seq<u8>| #[trigger] self@.contains_key(x) implies self@[x] == entries_map(old_entries).insert(k, value)[x] by {
                        let j = key_index(self.entries@, x);
                        lemma_key_index_unique(self.entries@, x, j);
                        if x == k {
                            lemma_key_index_unique(self.entries@, x, n);
                        } else {
                            assert(j != n);
                            assert(old_entries[j] == self.entries@[j]);
                            lemma_key_index_unique(old_entries, x, j);
                        }
                    }
                }
            },
        }
    }

    /// Number of ids in the map.
    pub fn len(&self) -> (r: usize)
        requires
            self.well_formed(),
        ensures
            r == self@.dom().len(),
    {
        proof { lemma_entries_map_len(self.entries@); }
        self.entries.len()
    }

    /// The key at a position of the map's internal order.
    pub closed spec fn key_at(&self, i: int) -> Seq<u8> {
        self.entries@[i].0@
    }

    /// Every key of the map sits at some position below its length, and the
    /// key at each such position is in the map.
    pub proof fn lemma_positions(&self)
        requires
            self.well_formed(),
        ensures
            self@.dom().finite(),
            forall|k: Seq<u8>| #[trigger] self@.contains_key(k) ==> exists|i: int|
                0 <= i < self@.dom().len() && self.key_at(i) == k,
            forall|i: int| 0 <= i < self@.dom().len() ==> #[trigger] self@.contains_key(self.key_at(i)),
            forall|a: int, b: int| 0 <= a < self@.dom().len() && 0 <= b < self@.dom().len() && a != b
                ==> #[trigger] self.key_at(a) != #[trigger] self.key_at(b),
    {
        lemma_entries_map_len(self.entries@);
        assert forall|k: Seq<u8>| #[trigger] self@.contains_key(k) implies exists|i: int|
            0 <= i < self@.dom().len() && self.key_at(i) == k by {
            let i = key_index(self.entries@, k);
            assert(self.key_at(i) == k);
        }
        assert forall|i: int| 0 <= i < self@.dom().len() implies #[trigger] self@.contains_key(self.key_at(i)) by {
            lemma_key_index_unique(self.entries@, self.entries@[i].0@, i);
        }
    }

    /// The key at a position of the map's internal order.
    pub fn key_ref_at(&self, i: usize) -> (r: &Id)
        requires
            self.well_formed(),
            i < self@.dom().len(),
        ensures
            r@ == self.key_at(i as int),
    {
        proof { lemma_entries_map_len(self.entries@); }
        &self.entries[i].0
    }

    /// The value at a position of the map's internal order.
    pub fn value_at(&self, i: usize) -> (r: &V)
        requires
            self.well_formed(),
            i < self@.dom().len(),
        ensures
            self@.contains_key(self.key_at(i as int)),
            self@[self.key_at(i as int)] == *r,
    {
        proof { lemma_entries_map_len(self.entries@); }
        proof { lemma_key_index_unique(self.entries@, self.entries@[i as int].0@, i as int); }
        &self.entries[i].1
    }
}

/// A map of entries with distinct keys has as many keys as entries.
pub proof fn lemma_entries_map_len<V>(entries: Seq<(Id, V)>)
    requires
        distinct_keys(entries),
    ensures
        entries_map(entries).dom().finite(),
        entries_map(entries).dom().len() == entries.len(),
    decreases entries.len(),
{
    let m = entries_map(entries);
    if entries.len() == 0 {
        assert(m.dom() =~= Set::<Seq<u8>>::empty());
    } else {
        let last = entries.len() - 1;
        let prefix = entries.subrange(0, last);
        assert(distinct_keys(prefix)) by {
            assert forall|i: int, j: int| 0 <= i < prefix.len() && 0 <= j < prefix.len() && i != j implies prefix[i].0@ != prefix[j].0@ by {
                assert(prefix[i] == entries[i]);
                assert(prefix[j] == entries[j]);
            }
        }
        lemma_entries_map_len(prefix);
        let k = entries[last].0@;
        assert(!entries_map(prefix).dom().contains(k)) by {
            if has_key(prefix, k) {
                let j = key_index(prefix, k);
                assert(prefix[j] == entries[j]);
            }
        }
        assert(m.dom() =~= entries_map(prefix).dom().insert(k)) by {
            assert forall|x: Seq<u8>| m.dom().contains(x) <==> entries_map(prefix).dom().insert(k).contains(x) by {
                if has_key(entries, x) {
                    let j = key_index(entries, x);
                    if j < last {
                        assert(prefix[j] == entries[j]);
                        assert(has_key(prefix, x));
                    }
                }
                if has_key(prefix, x) {
                    let j = key_index(prefix, x);
                    assert(prefix[j] == entries[j]);
                    assert(has_key(entries, x));
                }
                if x == k {
                    assert(has_key(entries, x));
                }
            }
        }
    }
}

} // verus!
