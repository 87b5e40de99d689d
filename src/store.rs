//! The document store: one row per corpus-relative path, holding the
//! document's fingerprint, raw content and metadata. Rows are keyed on path;
//! the fingerprint is a derived column rewritten on each update.

use vstd::prelude::*;
use crate::strmap::StrMap;

verus! {

/// The mathematical content of a row.
pub struct RowView {
    pub fingerprint: Seq<char>,
    pub contents: Seq<char>,
    pub meta: Map<Seq<char>, Seq<char>>,
}

pub struct Row {
    pub fingerprint: String,
    pub path: String,
    pub contents: String,
    pub meta: StrMap,
}

impl Row {
    pub open spec fn view(&self) -> RowView {
        RowView { fingerprint: self.fingerprint@, contents: self.contents@, meta: self.meta@ }
    }
}

/// The row that an upsert of `(path, fp, contents)` leaves in `m`: fingerprint
/// and content replaced, metadata kept for a known path and empty for a new one.
pub open spec fn upsert_spec(
    m: Map<Seq<char>, RowView>,
    path: Seq<char>,
    fp: Seq<char>,
    contents: Seq<char>,
) -> Map<Seq<char>, RowView> {
    m.insert(
        path,
        RowView {
            fingerprint: fp,
            contents: contents,
            meta: if m.contains_key(path) {
                m[path].meta
            } else {
                Map::empty()
            },
        },
    )
}

/// Whether some row of `m` has fingerprint `fp`.
pub open spec fn has_fingerprint(m: Map<Seq<char>, RowView>, fp: Seq<char>) -> bool {
    exists|p: Seq<char>| #[trigger] m.contains_key(p) && m[p].fingerprint == fp
}

pub struct Store {
    rows: Vec<Row>,
    model: Ghost<Map<Seq<char>, RowView>>,
}

impl View for Store {
    type V = Map<Seq<char>, RowView>;

    closed spec fn view(&self) -> Map<Seq<char>, RowView> {
        self.model@
    }
}

impl Store {
    /// Paths are unique among the rows, each row's metadata is well formed,
    /// and the rows are exactly the view.
    pub closed spec fn wf(&self) -> bool {
        &&& forall|i: int, j: int|
            0 <= i < j < self.rows@.len() ==> self.rows@[i].path@ != self.rows@[j].path@
        &&& forall|i: int|
            0 <= i < self.rows@.len() ==> {
                &&& #[trigger] self.model@.contains_key(self.rows@[i].path@)
                &&& self.model@[self.rows@[i].path@] == self.rows@[i].view()
                &&& self.rows@[i].meta.wf()
            }
        &&& forall|p: Seq<char>|
            #[trigger] self.model@.contains_key(p) ==> exists|i: int|
                0 <= i < self.rows@.len() && self.rows@[i].path@ == p
    }

    /// An empty store.
    pub fn new() -> (r: Store)
        ensures
            r.wf(),
            r@ == Map::<Seq<char>, RowView>::empty(),
    {
        Store { rows: Vec::new(), model: Ghost(Map::empty()) }
    }

    fn find(&self, path: &String) -> (r: Option<usize>)
        requires
            self.wf(),
        ensures
            match r {
                Some(i) => i < self.rows@.len() && self.rows@[i as int].path@ == path@,
                None => !self@.contains_key(path@),
            },
    {
        let mut i: usize = 0;
        while i < self.rows.len()
            invariant
                i <= self.rows@.len(),
                forall|j: int| 0 <= j < i ==> self.rows@[j].path@ != path@,
            decreases self.rows@.len() - i,
        {
            if self.rows[i].path == *path {
                return Some(i);
            }
            i = i + 1;
        }
        None
    }

    proof fn lemma_row(&self, i: int)
        requires
            self.wf(),
            0 <= i < self.rows@.len(),
        ensures
            self@.contains_key(self.rows@[i].path@),
            self@[self.rows@[i].path@] == self.rows@[i].view(),
            self.rows@[i].meta.wf(),
    {
    }

    /// After a write that keeps each earlier row's path at its position and
    /// whose view adds at most the path `p`, held by row `i`, every path of the
    /// view still has a row.
    proof fn lemma_paths_covered(before: Store, after: Store, p: Seq<char>, i: int)
        requires
            before.wf(),
            before.rows@.len() <= after.rows@.len(),
            forall|j: int|
                0 <= j < before.rows@.len() ==> (#[trigger] after.rows@[j]).path@ == before.rows@[j].path@,
            0 <= i < after.rows@.len(),
            after.rows@[i].path@ == p,
            after.model@.dom() == before.model@.dom().insert(p),
        ensures
            forall|q: Seq<char>|
                #[trigger] after.model@.contains_key(q) ==> exists|j: int|
                    0 <= j < after.rows@.len() && after.rows@[j].path@ == q,
    {
        assert forall|q: Seq<char>| #[trigger] after.model@.contains_key(q) implies exists|j: int|
            0 <= j < after.rows@.len() && after.rows@[j].path@ == q by {
            if q != p {
                assert(before.model@.dom().contains(q));
                let j = choose|j: int| 0 <= j < before.rows@.len() && before.rows@[j].path@ == q;
                assert(after.rows@[j].path@ == q);
            } else {
                assert(after.rows@[i].path@ == q);
            }
        }
    }

    /// Writes the row for `path`: updates the row of that path in place, or
    /// adds one.
    pub fn upsert(&mut self, path: String, fp: String, contents: String)
        requires
            old(self).wf(),
        ensures
            final(self).wf(),
            final(self)@ == upsert_spec(old(self)@, path@, fp@, contents@),
    {
        let ghost pm = path@;
        match self.find(&path) {
            Some(i) => {
                proof {
                    self.lemma_row(i as int);
                }
                self.rows[i].fingerprint = fp;
                self.rows[i].contents = contents;
                self.model = Ghost(upsert_spec(self.model@, pm, self.rows@[i as int].fingerprint@, self.rows@[i as int].contents@));
                assert(self.model@[pm] == self.rows@[i as int].view());
                proof {
                    Self::lemma_paths_covered(*old(self), *self, pm, i as int);
                }
                assert forall|j: int| 0 <= j < self.rows@.len() implies {
                    &&& #[trigger] self.model@.contains_key(self.rows@[j].path@)
                    &&& self.model@[self.rows@[j].path@] == self.rows@[j].view()
                    &&& self.rows@[j].meta.wf()
                } by {
                    if j != i {
                        assert(old(self).model@.contains_key(old(self).rows@[j].path@));
                    }
                }
            },
            None => {
                let ghost fm = fp@;
                let ghost cm = contents@;
                self.rows.push(Row { fingerprint: fp, path, contents, meta: StrMap::new() });
                self.model = Ghost(upsert_spec(self.model@, pm, fm, cm));
                let ghost last = self.rows@.len() - 1;
                assert(self.rows@[last].view() == self.model@[pm]);
                proof {
                    Self::lemma_paths_covered(*old(self), *self, pm, last);
                }
                assert forall|j: int| 0 <= j < self.rows@.len() implies {
                    &&& #[trigger] self.model@.contains_key(self.rows@[j].path@)
                    &&& self.model@[self.rows@[j].path@] == self.rows@[j].view()
                    &&& self.rows@[j].meta.wf()
                } by {
                    if j != last {
                        assert(old(self).model@.contains_key(old(self).rows@[j].path@));
                    }
                }
            },
        }
    }

    /// Whether some row has fingerprint `fp`.
    pub fn contains_fingerprint(&self, fp: &String) -> (r: bool)
        requires
            self.wf(),
        ensures
            r == has_fingerprint(self@, fp@),
    {
        let mut i: usize = 0;
        while i < self.rows.len()
            invariant
                self.wf(),
                i <= self.rows@.len(),
                forall|j: int| 0 <= j < i ==> self.rows@[j].fingerprint@ != fp@,
            decreases self.rows@.len() - i,
        {
            if self.rows[i].fingerprint == *fp {
                proof {
                    self.lemma_row(i as int);
                }
                return true;
            }
            i = i + 1;
        }
        assert forall|p: Seq<char>| #[trigger] self@.contains_key(p) implies self@[p].fingerprint != fp@ by {
            let j = choose|j: int| 0 <= j < self.rows@.len() && self.rows@[j].path@ == p;
            self.lemma_row(j);
        }
        false
    }

    /// The row for `path`, if any.
    pub fn get(&self, path: &String) -> (r: Option<&Row>)
        requires
            self.wf(),
        ensures
            r is Some <==> self@.contains_key(path@),
            r matches Some(row) ==> row.path@ == path@ && row.view() == self@[path@] && row.meta.wf(),
    {
        match self.find(path) {
            Some(i) => {
                proof {
                    self.lemma_row(i as int);
                }
                Some(&self.rows[i])
            },
            None => None,
        }
    }

    /// Replaces the metadata of the row for `path`; false, with nothing
    /// changed, when there is no such row.
    pub fn set_meta(&mut self, path: &String, meta: StrMap) -> (r: bool)
        requires
            old(self).wf(),
            meta.wf(),
        ensures
            final(self).wf(),
            r == old(self)@.contains_key(path@),
            r ==> final(self)@ == old(self)@.insert(
                path@,
                RowView { meta: meta@, ..old(self)@[path@] },
            ),
            !r ==> final(self)@ == old(self)@,
    {
        match self.find(path) {
            Some(i) => {
                proof {
                    self.lemma_row(i as int);
                }
                let ghost pm = path@;
                let ghost mm = meta@;
                self.rows[i].meta = meta;
                self.model = Ghost(self.model@.insert(pm, RowView { meta: mm, ..self.model@[pm] }));
                assert(self.model@[pm] == self.rows@[i as int].view());
                proof {
                    Self::lemma_paths_covered(*old(self), *self, pm, i as int);
                }
                assert forall|j: int| 0 <= j < self.rows@.len() implies {
                    &&& #[trigger] self.model@.contains_key(self.rows@[j].path@)
                    &&& self.model@[self.rows@[j].path@] == self.rows@[j].view()
                    &&& self.rows@[j].meta.wf()
                } by {
                    if j != i {
                        assert(old(self).model@.contains_key(old(self).rows@[j].path@));
                    }
                }
                true
            },
            None => false,
        }
    }

    /// All rows, one for each path, in no particular order.
    pub fn scan(&self) -> (r: &Vec<Row>)
        requires
            self.wf(),
        ensures
            forall|i: int|
                #![trigger r@[i]]
                0 <= i < r@.len() ==> self@.contains_key(r@[i].path@) && self@[r@[i].path@]
                    == r@[i].view() && r@[i].meta.wf(),
            forall|i: int, j: int| 0 <= i < j < r@.len() ==> r@[i].path@ != r@[j].path@,
            forall|p: Seq<char>|
                #[trigger] self@.contains_key(p) ==> exists|i: int| 0 <= i < r@.len() && r@[i].path@ == p,
    {
        proof {
            assert forall|i: int| 0 <= i < self.rows@.len() implies self@.contains_key(
                self.rows@[i].path@) && self@[self.rows@[i].path@] == self.rows@[i].view()
                && self.rows@[i].meta.wf() by {
                self.lemma_row(i);
            }
        }
        &self.rows
    }
}

} // verus!
