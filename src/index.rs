//! The identifier index: for each declared identifier, the path of the
//! document that declares it.

use vstd::prelude::*;
use crate::meta::{id_key, id_key_exec};
use crate::strmap::StrMap;

verus! {

/// A document's path with its extracted metadata.
pub struct DocMeta {
    pub path: String,
    pub meta: StrMap,
}

/// Adds one document to the index: its identifier, if it declares one, now
/// maps to its path.
pub open spec fn index_step(
    idx: Map<Seq<char>, Seq<char>>,
    path: Seq<char>,
    meta: Map<Seq<char>, Seq<char>>,
) -> Map<Seq<char>, Seq<char>> {
    if meta.contains_key(id_key()) {
        idx.insert(meta[id_key()], path)
    } else {
        idx
    }
}

/// The index of a sequence of documents, folded in order: the last document
/// to declare an identifier wins.
pub open spec fn index_spec(ds: Seq<(Seq<char>, Map<Seq<char>, Seq<char>>)>) -> Map<Seq<char>, Seq<char>>
    decreases ds.len(),
{
    if ds.len() == 0 {
        Map::empty()
    } else {
        index_step(index_spec(ds.drop_last()), ds.last().0, ds.last().1)
    }
}

/// The path and metadata of each document, as values.
pub open spec fn doc_metas_view(ds: Seq<DocMeta>) -> Seq<(Seq<char>, Map<Seq<char>, Seq<char>>)> {
    ds.map_values(|d: DocMeta| (d.path@, d.meta@))
}

/// Builds the identifier index over all documents.
pub fn build_index(ds: &Vec<DocMeta>) -> (r: StrMap)
    requires
        forall|i: int| 0 <= i < ds@.len() ==> (#[trigger] ds@[i]).meta.wf(),
    ensures
        r.wf(),
        r@ == index_spec(doc_metas_view(ds@)),
{
    let mut idx = StrMap::new();
    let key = id_key_exec();
    let mut i: usize = 0;
    while i < ds.len()
        invariant
            forall|j: int| 0 <= j < ds@.len() ==> (#[trigger] ds@[j]).meta.wf(),
            key@ == id_key(),
            i <= ds@.len(),
            idx.wf(),
            idx@ == index_spec(doc_metas_view(ds@).take(i as int)),
        decreases ds@.len() - i,
    {
        let d = &ds[i];
        assert(ds@[i as int].meta.wf());
        match d.meta.get(&key) {
            Some(id) => idx.insert(id, d.path.clone()),
            None => {},
        }
        assert(doc_metas_view(ds@).take(i + 1).drop_last() =~= doc_metas_view(ds@).take(i as int));
        i = i + 1;
    }
    assert(doc_metas_view(ds@).take(ds@.len() as int) =~= doc_metas_view(ds@));
    idx
}

} // verus!
