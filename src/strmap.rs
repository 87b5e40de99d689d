//! A small string-to-string map kept as a list of entries with unique keys.
//! It holds a document's metadata and the identifier index.

use vstd::prelude::*;

verus! {

/// std's `HashMap` keyed by `String` gives Verus nothing to prove lookups
/// with (its hashing and key equality are not specified), so the map keeps
/// its entries in a list with unique keys, and a ghost `Map` as its view.
pub struct StrMap {
    entries: Vec<(String, String)>,
    model: Ghost<Map<Seq<char>, Seq<char>>>,
}

impl View for StrMap {
    type V = Map<Seq<char>, Seq<char>>;

    closed spec fn view(&self) -> Map<Seq<char>, Seq<char>> {
        self.model@
    }
}

impl StrMap {
    /// Keys are unique among the entries, and the entries are exactly the view.
    pub closed spec fn wf(&self) -> bool {
        &&& forall|i: int, j: int|
            0 <= i < j < self.entries@.len() ==> self.entries@[i].0@ != self.entries@[j].0@
        &&& forall|i: int|
            0 <= i < self.entries@.len() ==> {
                &&& #[trigger] self.model@.contains_key(self.entries@[i].0@)
                &&& self.model@[self.entries@[i].0@] == self.entries@[i].1@
            }
        &&& forall|k: Seq<char>|
            #[trigger] self.model@.contains_key(k) ==> exists|i: int|
                0 <= i < self.entries@.len() && self.entries@[i].0@ == k
    }

    pub fn new() -> (r: StrMap)
        ensures
            r.wf(),
            r@ == Map::<Seq<char>, Seq<char>>::empty(),
    {
        StrMap { entries: Vec::new(), model: Ghost(Map::empty()) }
    }

    fn find(&self, k: &String) -> (r: Option<usize>)
        requires
            self.wf(),
        ensures
            match r {
                Some(i) => i < self.entries@.len() && self.entries@[i as int].0@ == k@,
                None => !self@.contains_key(k@),
            },
    {
        let mut i: usize = 0;
        while i < self.entries.len()
            invariant
                i <= self.entries@.len(),
                forall|j: int| 0 <= j < i ==> self.entries@[j].0@ != k@,
            decreases self.entries@.len() - i,
        {
            if self.entries[i].0 == *k {
                return Some(i);
            }
            i = i + 1;
        }
        None
    }

    /// The value stored under `k`, if any.
    pub fn get(&self, k: &String) -> (r: Option<String>)
        requires
            self.wf(),
        ensures
            r is Some <==> self@.contains_key(k@),
            r is Some ==> r->0@ == self@[k@],
    {
        match self.find(k) {
            Some(i) => {
                assert(self@.contains_key(self.entries@[i as int].0@));
                Some(self.entries[i].1.clone())
            },
            None => None,
        }
    }

    /// Whether `k` has a value.
    pub fn contains(&self, k: &String) -> (r: bool)
        requires
            self.wf(),
        ensures
            r == self@.contains_key(k@),
    {
        match self.find(k) {
            Some(i) => {
                assert(self@.contains_key(self.entries@[i as int].0@));
                true
            },
            None => false,
        }
    }

    /// After a write that keeps each earlier entry's key at its position and
    /// whose view adds at most the key `k`, held by entry `i`, every key of the
    /// view still has an entry.
    proof fn lemma_keys_covered(before: StrMap, after: StrMap, k: Seq<char>, i: int)
        requires
            before.wf(),
            before.entries@.len() <= after.entries@.len(),
            forall|j: int|
                0 <= j < before.entries@.len() ==> (#[trigger] after.entries@[j]).0@ == before.entries@[j].0@,
            0 <= i < after.entries@.len(),
            after.entries@[i].0@ == k,
            after.model@.dom() == before.model@.dom().insert(k),
        ensures
            forall|kk: Seq<char>|
                #[trigger] after.model@.contains_key(kk) ==> exists|j: int|
                    0 <= j < after.entries@.len() && after.entries@[j].0@ == kk,
    {
        assert forall|kk: Seq<char>| #[trigger] after.model@.contains_key(kk) implies exists|j: int|
            0 <= j < after.entries@.len() && after.entries@[j].0@ == kk by {
            if kk != k {
                assert(before.model@.dom().contains(kk));
                let j = choose|j: int| 0 <= j < before.entries@.len() && before.entries@[j].0@ == kk;
                assert(after.entries@[j].0@ == kk);
            } else {
                assert(after.entries@[i].0@ == kk);
            }
        }
    }

    /// Sets the value under `k`, replacing an earlier one.
    pub fn insert(&mut self, k: String, v: String)
        requires
            old(self).wf(),
        ensures
            final(self).wf(),
            final(self)@ == old(self)@.insert(k@, v@),
    {
        let ghost km = k@;
        let ghost vm = v@;
        match self.find(&k) {
            Some(i) => {
                self.entries.set(i, (k, v));
                self.model = Ghost(self.model@.insert(km, vm));
                proof {
                    Self::lemma_keys_covered(*old(self), *self, km, i as int);
                }
            },
            None => {
                self.entries.push((k, v));
                self.model = Ghost(self.model@.insert(km, vm));
                proof {
                    Self::lemma_keys_covered(*old(self), *self, km, self.entries@.len() - 1);
                }
            },
        }
    }

    /// A copy of the map.
    pub fn copy(&self) -> (r: StrMap)
        requires
            self.wf(),
        ensures
            r.wf(),
            r@ == self@,
    {
        let mut r = StrMap::new();
        let mut i: usize = 0;
        while i < self.entries.len()
            invariant
                self.wf(),
                i <= self.entries@.len(),
                r.wf(),
                forall|j: int|
                    0 <= j < i ==> #[trigger] r@.contains_key(self.entries@[j].0@) && r@[self.entries@[j].0@]
                        == self.entries@[j].1@,
                forall|k: Seq<char>|
                    #[trigger] r@.contains_key(k) ==> exists|j: int| 0 <= j < i && self.entries@[j].0@ == k,
            decreases self.entries@.len() - i,
        {
            let ghost before = r@;
            r.insert(self.entries[i].0.clone(), self.entries[i].1.clone());
            assert forall|j: int| 0 <= j < i + 1 implies #[trigger] r@.contains_key(self.entries@[j].0@)
                && r@[self.entries@[j].0@] == self.entries@[j].1@ by {
                if j < i {
                    assert(before.contains_key(self.entries@[j].0@));
                }
            }
            assert forall|k: Seq<char>| #[trigger] r@.contains_key(k) implies exists|j: int|
                0 <= j < i + 1 && self.entries@[j].0@ == k by {
                if k != self.entries@[i as int].0@ {
                    assert(before.contains_key(k));
                }
            }
            i = i + 1;
        }
        assert forall|k: Seq<char>| r@.contains_key(k) <==> self@.contains_key(k) by {
            if r@.contains_key(k) {
                let j = choose|j: int| 0 <= j < self.entries@.len() && self.entries@[j].0@ == k;
                assert(self.model@.contains_key(self.entries@[j].0@));
            }
            if self@.contains_key(k) {
                let j = choose|j: int| 0 <= j < self.entries@.len() && self.entries@[j].0@ == k;
                assert(r@.contains_key(self.entries@[j].0@));
            }
        }
        assert forall|k: Seq<char>| r@.contains_key(k) implies r@[k] == self@[k] by {
            let j = choose|j: int| 0 <= j < self.entries@.len() && self.entries@[j].0@ == k;
            assert(self.model@.contains_key(self.entries@[j].0@));
            assert(r@.contains_key(self.entries@[j].0@));
        }
        assert(r@ =~= self@);
        r
    }

    /// The number of keys.
    pub fn len(&self) -> (r: usize)
        requires
            self.wf(),
        ensures
            r == self@.len(),
    {
        proof {
            self.lemma_len();
        }
        self.entries.len()
    }

    proof fn lemma_len(&self)
        requires
            self.wf(),
        ensures
            self@.len() == self.entries@.len(),
            self@.dom().finite(),
    {
        let keys = self.entries@.map_values(|e: (String, String)| e.0@);
        assert forall|k: Seq<char>| self@.dom().contains(k) <==> keys.to_set().contains(k) by {
            if self@.dom().contains(k) {
                let i = choose|i: int| 0 <= i < self.entries@.len() && self.entries@[i].0@ == k;
                assert(keys[i] == k);
            }
            if keys.to_set().contains(k) {
                let i = choose|i: int| 0 <= i < keys.len() && keys[i] == k;
                assert(self.model@.contains_key(self.entries@[i].0@));
            }
        }
        assert(self@.dom() =~= keys.to_set());
        assert forall|i: int, j: int| 0 <= i < keys.len() && 0 <= j < keys.len() && i != j
            implies keys[i] != keys[j] by {
            if i < j {
            } else {
            }
        }
        assert(keys.no_duplicates());
        keys.unique_seq_to_set();
    }

    /// The entries, one for each key, in no particular order.
    pub fn entries(&self) -> (r: &Vec<(String, String)>)
        requires
            self.wf(),
        ensures
            r@.len() == self@.len(),
            forall|i: int|
                #![trigger r@[i]]
                0 <= i < r@.len() ==> self@.contains_key(r@[i].0@) && self@[r@[i].0@] == r@[i].1@,
            forall|k: Seq<char>|
                #[trigger] self@.contains_key(k) ==> exists|i: int| 0 <= i < r@.len() && r@[i].0@ == k,
    {
        proof {
            self.lemma_len();
            assert forall|i: int| 0 <= i < self.entries@.len() implies self@.contains_key(
                self.entries@[i].0@) && self@[self.entries@[i].0@] == self.entries@[i].1@ by {
                assert(self.model@.contains_key(self.entries@[i].0@));
            }
        }
        &self.entries
    }
}

} // verus!
