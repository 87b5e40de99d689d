//! The full build: ingestion of the scanned corpus into the store, then the
//! metadata pass that fills each row's metadata and builds the identifier
//! index over the whole corpus.

use vstd::prelude::*;
use crate::fingerprint::{content_fingerprint, fingerprint};
use crate::index::{build_index, doc_metas_view, index_spec, DocMeta};
use crate::meta::{extract_metadata, id_key, metadata_spec};
use crate::resolve::{file_scheme, id_scheme, resolved_target};
use crate::store::{upsert_spec, RowView, Store};
use crate::strmap::StrMap;
use crate::tree::DocTree;

verus! {

/// A document found by the scanner: its corpus-relative path, its content,
/// and whether the corpus's ignore rules match its path.
pub struct SourceDoc {
    pub path: String,
    pub contents: String,
    pub ignored: bool,
}

/// A stored document's path with its parsed tree.
pub struct ParsedDoc {
    pub path: String,
    pub tree: DocTree,
}

/// Ingests one scanned document: an ignored one leaves the store as it is.
pub open spec fn ingest_step(m: Map<Seq<char>, RowView>, d: SourceDoc) -> Map<Seq<char>, RowView> {
    if d.ignored {
        m
    } else {
        upsert_spec(m, d.path@, content_fingerprint(d.contents@), d.contents@)
    }
}

/// Ingests the scanned documents in order.
pub open spec fn ingest_spec(m: Map<Seq<char>, RowView>, ds: Seq<SourceDoc>) -> Map<Seq<char>, RowView>
    decreases ds.len(),
{
    if ds.len() == 0 {
        m
    } else {
        ingest_step(ingest_spec(m, ds.drop_last()), ds.last())
    }
}

/// The position of the last document of `ds` that is not ignored and has path `p`.
pub open spec fn last_source(ds: Seq<SourceDoc>, p: Seq<char>) -> Option<int>
    decreases ds.len(),
{
    if ds.len() == 0 {
        None
    } else if !ds.last().ignored && ds.last().path@ == p {
        Some(ds.len() - 1)
    } else {
        last_source(ds.drop_last(), p)
    }
}

/// The fingerprint and content of each row: what a build computes, without
/// the metadata.
pub open spec fn content_view(m: Map<Seq<char>, RowView>) -> Map<Seq<char>, (Seq<char>, Seq<char>)> {
    m.map_values(|r: RowView| (r.fingerprint, r.contents))
}

/// Writes each scanned document that is not ignored into the store, keyed on
/// its path, with the fingerprint of its content.
pub fn ingest(store: &mut Store, docs: &Vec<SourceDoc>)
    requires
        old(store).wf(),
    ensures
        final(store).wf(),
        final(store)@ == ingest_spec(old(store)@, docs@),
{
    let mut i: usize = 0;
    while i < docs.len()
        invariant
            store.wf(),
            i <= docs@.len(),
            store@ == ingest_spec(old(store)@, docs@.take(i as int)),
        decreases docs@.len() - i,
    {
        let d = &docs[i];
        if !d.ignored {
            let fp = fingerprint(d.contents.as_str());
            store.upsert(d.path.clone(), fp, d.contents.clone());
        }
        assert(docs@.take(i + 1).drop_last() =~= docs@.take(i as int));
        i = i + 1;
    }
    assert(docs@.take(docs@.len() as int) =~= docs@);
}

/// Sets the metadata of each document's row, in order; a path with no row is
/// passed over.
pub open spec fn meta_pass_spec(
    m: Map<Seq<char>, RowView>,
    ds: Seq<(Seq<char>, Map<Seq<char>, Seq<char>>)>,
) -> Map<Seq<char>, RowView>
    decreases ds.len(),
{
    if ds.len() == 0 {
        m
    } else {
        let prev = meta_pass_spec(m, ds.drop_last());
        let (p, meta) = ds.last();
        if prev.contains_key(p) {
            prev.insert(p, RowView { meta: meta, ..prev[p] })
        } else {
            prev
        }
    }
}

/// The path and extracted metadata of each parsed document.
pub open spec fn parsed_metas(ds: Seq<ParsedDoc>) -> Seq<(Seq<char>, Map<Seq<char>, Seq<char>>)> {
    ds.map_values(|d: ParsedDoc| (d.path@, metadata_spec(&d.tree)))
}

/// The metadata pass of a full build: extracts each document's metadata,
/// stores it in the document's row, and returns the identifier index of the
/// whole corpus.
pub fn index_pass(store: &mut Store, docs: &Vec<ParsedDoc>) -> (idx: StrMap)
    requires
        old(store).wf(),
        forall|i: int| 0 <= i < docs@.len() ==> (#[trigger] docs@[i]).tree.wf(),
    ensures
        final(store).wf(),
        final(store)@ == meta_pass_spec(old(store)@, parsed_metas(docs@)),
        idx.wf(),
        idx@ == index_spec(parsed_metas(docs@)),
{
    let mut metas: Vec<DocMeta> = Vec::new();
    let mut i: usize = 0;
    while i < docs.len()
        invariant
            forall|j: int| 0 <= j < docs@.len() ==> (#[trigger] docs@[j]).tree.wf(),
            store.wf(),
            i <= docs@.len(),
            metas@.len() == i,
            forall|j: int| 0 <= j < i ==> (#[trigger] metas@[j]).meta.wf(),
            doc_metas_view(metas@) == parsed_metas(docs@).take(i as int),
            store@ == meta_pass_spec(old(store)@, parsed_metas(docs@).take(i as int)),
        decreases docs@.len() - i,
    {
        let d = &docs[i];
        assert(docs@[i as int].tree.wf());
        let meta = extract_metadata(&d.tree);
        store.set_meta(&d.path, meta.copy());
        let ghost before = metas@;
        metas.push(DocMeta { path: d.path.clone(), meta });
        assert(doc_metas_view(metas@) =~= doc_metas_view(before).push(parsed_metas(docs@)[i as int]));
        assert(parsed_metas(docs@).take(i + 1) =~= parsed_metas(docs@).take(i as int).push(
            parsed_metas(docs@)[i as int],
        ));
        assert(parsed_metas(docs@).take(i + 1).drop_last() =~= parsed_metas(docs@).take(i as int));
        i = i + 1;
    }
    assert(parsed_metas(docs@).take(docs@.len() as int) =~= parsed_metas(docs@));
    build_index(&metas)
}

/// Where a path ends up after ingestion: the last scanned document that is
/// not ignored and has that path gives its row's fingerprint and content; a
/// row that was there keeps its metadata; a path that no such document has
/// keeps its row, or its absence.
pub proof fn lemma_ingest_at(m: Map<Seq<char>, RowView>, ds: Seq<SourceDoc>, p: Seq<char>)
    ensures
        ingest_spec(m, ds).contains_key(p) <==> (m.contains_key(p) || last_source(ds, p) is Some),
        last_source(ds, p) matches Some(i) ==> {
            &&& 0 <= i < ds.len()
            &&& !ds[i].ignored
            &&& ds[i].path@ == p
            &&& ingest_spec(m, ds)[p] == RowView {
                fingerprint: content_fingerprint(ds[i].contents@),
                contents: ds[i].contents@,
                meta: if m.contains_key(p) {
                    m[p].meta
                } else {
                    Map::empty()
                },
            }
        },
        last_source(ds, p) is None && m.contains_key(p) ==> ingest_spec(m, ds)[p] == m[p],
    decreases ds.len(),
{
    if ds.len() > 0 {
        lemma_ingest_at(m, ds.drop_last(), p);
        if !ds.last().ignored && ds.last().path@ == p {
        } else {
            match last_source(ds.drop_last(), p) {
                Some(i) => {
                    assert(ds.drop_last()[i] == ds[i]);
                },
                None => {},
            }
        }
    }
}

/// A second full build over an unchanged corpus leaves every row's
/// fingerprint and content as the first left them, whatever the metadata
/// pass did in between.
pub proof fn lemma_build_idempotent(
    m: Map<Seq<char>, RowView>,
    ds: Seq<SourceDoc>,
    after: Map<Seq<char>, RowView>,
)
    requires
        content_view(after) == content_view(ingest_spec(m, ds)),
    ensures
        content_view(ingest_spec(after, ds)) == content_view(after),
{
    let first = ingest_spec(m, ds);
    let second = ingest_spec(after, ds);
    assert forall|p: Seq<char>| #[trigger] second.contains_key(p) <==> after.contains_key(p) by {
        lemma_ingest_at(m, ds, p);
        lemma_ingest_at(after, ds, p);
        assert(content_view(after).contains_key(p) == after.contains_key(p));
        assert(content_view(first).contains_key(p) == first.contains_key(p));
    }
    assert forall|p: Seq<char>| #[trigger] second.contains_key(p) implies (second[p].fingerprint, second[p].contents)
        == (after[p].fingerprint, after[p].contents) by {
        lemma_ingest_at(m, ds, p);
        lemma_ingest_at(after, ds, p);
        assert(content_view(after)[p] == content_view(first)[p]);
    }
    assert(content_view(second) =~= content_view(after));
}

/// The metadata pass changes no row's fingerprint or content, and adds or
/// removes no row.
pub proof fn lemma_meta_pass_keeps_content(
    m: Map<Seq<char>, RowView>,
    ds: Seq<(Seq<char>, Map<Seq<char>, Seq<char>>)>,
)
    ensures
        content_view(meta_pass_spec(m, ds)) == content_view(m),
    decreases ds.len(),
{
    if ds.len() > 0 {
        lemma_meta_pass_keeps_content(m, ds.drop_last());
        let prev = meta_pass_spec(m, ds.drop_last());
        let (p, meta) = ds.last();
        if prev.contains_key(p) {
            assert(content_view(meta_pass_spec(m, ds)) =~= content_view(prev));
        }
    }
}

/// Idempotence of the full build: ingestion followed by the metadata pass,
/// run a second time over the same scanned corpus and the same parsed
/// documents, leaves every row's path, fingerprint and content as the first
/// run left them.
pub proof fn lemma_full_build_twice(m: Map<Seq<char>, RowView>, ds: Seq<SourceDoc>, ps: Seq<ParsedDoc>)
    ensures
        ({
            let first = meta_pass_spec(ingest_spec(m, ds), parsed_metas(ps));
            let second = meta_pass_spec(ingest_spec(first, ds), parsed_metas(ps));
            content_view(second) == content_view(first)
        }),
{
    let first = meta_pass_spec(ingest_spec(m, ds), parsed_metas(ps));
    lemma_meta_pass_keeps_content(ingest_spec(m, ds), parsed_metas(ps));
    lemma_build_idempotent(m, ds, first);
    lemma_meta_pass_keeps_content(ingest_spec(first, ds), parsed_metas(ps));
}

/// A path that only ignored documents have, and that the store did not hold
/// before, is not in the store after ingestion.
pub proof fn lemma_ignored_absent(m: Map<Seq<char>, RowView>, ds: Seq<SourceDoc>, p: Seq<char>)
    requires
        !m.contains_key(p),
        forall|i: int| 0 <= i < ds.len() && (#[trigger] ds[i]).path@ == p ==> ds[i].ignored,
    ensures
        !ingest_spec(m, ds).contains_key(p),
{
    lemma_ingest_at(m, ds, p);
}

/// Whether entry `j` of `ds` declares identifier `x`.
pub open spec fn declares(ds: Seq<(Seq<char>, Map<Seq<char>, Seq<char>>)>, j: int, x: Seq<char>) -> bool {
    ds[j].1.contains_key(id_key()) && ds[j].1[id_key()] == x
}

/// An identifier is in the index exactly when some document declares it, and
/// then it maps to the path of the last document that does.
pub proof fn lemma_index_at(ds: Seq<(Seq<char>, Map<Seq<char>, Seq<char>>)>, x: Seq<char>)
    ensures
        index_spec(ds).contains_key(x) <==> exists|j: int| 0 <= j < ds.len() && #[trigger] declares(ds, j, x),
        forall|i: int|
            0 <= i < ds.len() && #[trigger] declares(ds, i, x) && (forall|j: int|
                i < j < ds.len() ==> !#[trigger] declares(ds, j, x)) ==> index_spec(ds)[x] == ds[i].0,
    decreases ds.len(),
{
    if ds.len() > 0 {
        let pre = ds.drop_last();
        lemma_index_at(pre, x);
        assert forall|j: int| 0 <= j < pre.len() implies declares(pre, j, x) == declares(ds, j, x) by {
            assert(pre[j] == ds[j]);
        }
        if declares(ds, ds.len() - 1, x) {
        } else {
            assert forall|i: int|
                0 <= i < ds.len() && #[trigger] declares(ds, i, x) && (forall|j: int|
                    i < j < ds.len() ==> !#[trigger] declares(ds, j, x)) implies index_spec(ds)[x] == ds[i].0 by {
                assert(declares(pre, i, x));
                assert forall|j: int| i < j < pre.len() implies !#[trigger] declares(pre, j, x) by {
                    assert(!declares(ds, j, x));
                }
            }
            if index_spec(ds).contains_key(x) {
                let j = choose|j: int| 0 <= j < pre.len() && #[trigger] declares(pre, j, x);
                assert(declares(ds, j, x));
            }
        }
    }
}

/// Cross-reference correctness: when document `i` declares identifier `x`
/// and no later document does, a link to `id:x` anywhere in the corpus
/// resolves to `file:` followed by document `i`'s path.
pub proof fn lemma_cross_reference(ds: Seq<(Seq<char>, Map<Seq<char>, Seq<char>>)>, i: int, x: Seq<char>)
    requires
        0 <= i < ds.len(),
        declares(ds, i, x),
        forall|j: int| i < j < ds.len() ==> !#[trigger] declares(ds, j, x),
        x.len() > 0,
        !x.contains('\n'),
    ensures
        resolved_target(id_scheme() + x, index_spec(ds)) == file_scheme() + ds[i].0,
{
    lemma_index_at(ds, x);
    let t = id_scheme() + x;
    assert(t.take(3) =~= id_scheme());
    assert(t.skip(3) =~= x);
}

/// A dangling reference: a link to `id:y`, where no document declares `y`,
/// is left as it is.
pub proof fn lemma_dangling_unchanged(ds: Seq<(Seq<char>, Map<Seq<char>, Seq<char>>)>, y: Seq<char>)
    requires
        forall|j: int| 0 <= j < ds.len() ==> !#[trigger] declares(ds, j, y),
    ensures
        resolved_target(id_scheme() + y, index_spec(ds)) == id_scheme() + y,
{
    lemma_index_at(ds, y);
    let t = id_scheme() + y;
    assert(t.take(3) =~= id_scheme());
    assert(t.skip(3) =~= y);
}

} // verus!
