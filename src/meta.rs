//! Metadata extraction: a document's identifier and its keywords, read from
//! the direct children of its first section.

use vstd::prelude::*;
use crate::strmap::StrMap;
use crate::text::{scan_rest, scan_rest_exec};
use crate::tree::{DocTree, NodeKind};

verus! {

/// What `str::to_uppercase` gives for a string.
pub uninterp spec fn upper_of(s: Seq<char>) -> Seq<char>;

/// Relies on `str::to_uppercase`: Unicode upper-case mapping, a function of the characters alone.
#[verifier::external_body]
fn to_upper(s: &str) -> (r: String)
    ensures
        r@ == upper_of(s@),
{
    s.to_uppercase()
}

/// The metadata key that holds a document's identifier.
pub open spec fn id_key() -> Seq<char> {
    seq!['I', 'D']
}

/// The text that precedes a declared identifier in a drawer's property line.
pub open spec fn id_property_prefix() -> Seq<char> {
    seq![':', 'I', 'D', ':', ' ', ' ', ' ', ' ', ' ', ' ', ' ']
}

/// The key `"ID"`.
pub fn id_key_exec() -> (r: String)
    ensures
        r@ == id_key(),
{
    let mut v: Vec<char> = Vec::new();
    v.push('I');
    v.push('D');
    assert(v@ =~= id_key());
    crate::text::string_of(&v)
}

fn id_property_prefix_exec() -> (r: Vec<char>)
    ensures
        r@ == id_property_prefix(),
{
    let mut v: Vec<char> = Vec::new();
    v.push(':');
    v.push('I');
    v.push('D');
    v.push(':');
    let mut i: usize = 0;
    while i < 7
        invariant
            i <= 7,
            v@.len() == 4 + i,
            v@.take(4) == seq![':', 'I', 'D', ':'],
            forall|j: int| 4 <= j < v@.len() ==> v@[j] == ' ',
        decreases 7 - i,
    {
        v.push(' ');
        i = i + 1;
    }
    assert(v@ =~= id_property_prefix());
    v
}

/// The identifier that a drawer's property line declares, if it is one.
pub open spec fn declared_id(value: Seq<char>) -> Option<Seq<char>> {
    scan_rest(id_property_prefix(), value)
}

/// Applies node `k`, a line inside a drawer, to the metadata `m`.
pub open spec fn apply_text(t: &DocTree, m: Map<Seq<char>, Seq<char>>, k: usize) -> Map<Seq<char>, Seq<char>> {
    if k < t.nodes@.len() {
        match t.nodes@[k as int].kind {
            NodeKind::Text { value } => match declared_id(value@) {
                Some(id) => m.insert(id_key(), id),
                None => m,
            },
            _ => m,
        }
    } else {
        m
    }
}

/// Applies the nodes `ks`, in order, with `apply_text`.
pub open spec fn fold_texts(t: &DocTree, m: Map<Seq<char>, Seq<char>>, ks: Seq<usize>) -> Map<Seq<char>, Seq<char>>
    decreases ks.len(),
{
    if ks.len() == 0 {
        m
    } else {
        apply_text(t, fold_texts(t, m, ks.drop_last()), ks.last())
    }
}

/// Applies the children of each of the drawer's children `js`, in order.
pub open spec fn fold_rows(t: &DocTree, m: Map<Seq<char>, Seq<char>>, js: Seq<usize>) -> Map<Seq<char>, Seq<char>>
    decreases js.len(),
{
    if js.len() == 0 {
        m
    } else {
        fold_texts(t, fold_rows(t, m, js.drop_last()), t.children_of(js.last()))
    }
}

/// Applies node `c`, a direct child of the first section, to the metadata `m`:
/// a drawer may declare the identifier, a keyword adds its upper-cased key.
pub open spec fn apply_child(t: &DocTree, m: Map<Seq<char>, Seq<char>>, c: usize) -> Map<Seq<char>, Seq<char>> {
    if c < t.nodes@.len() {
        match t.nodes@[c as int].kind {
            NodeKind::Drawer => fold_rows(t, m, t.children_of(c)),
            NodeKind::Keyword { key, value } => m.insert(upper_of(key@), value@),
            _ => m,
        }
    } else {
        m
    }
}

/// Applies the nodes `cs`, in order, with `apply_child`.
pub open spec fn fold_section(t: &DocTree, m: Map<Seq<char>, Seq<char>>, cs: Seq<usize>) -> Map<Seq<char>, Seq<char>>
    decreases cs.len(),
{
    if cs.len() == 0 {
        m
    } else {
        apply_child(t, fold_section(t, m, cs.drop_last()), cs.last())
    }
}

/// The metadata of a document: empty when it has no first section.
pub open spec fn metadata_spec(t: &DocTree) -> Map<Seq<char>, Seq<char>> {
    match t.section {
        Some(s) => fold_section(t, Map::empty(), t.children_of(s)),
        None => Map::empty(),
    }
}

fn apply_texts(t: &DocTree, m: &mut StrMap, j: usize, prefix: &Vec<char>)
    requires
        t.wf(),
        j < t.nodes@.len(),
        old(m).wf(),
        prefix@ == id_property_prefix(),
    ensures
        final(m).wf(),
        final(m)@ == fold_texts(t, old(m)@, t.children_of(j)),
{
    let ks = &t.nodes[j].children;
    let ghost m0 = m@;
    let mut i: usize = 0;
    while i < ks.len()
        invariant
            t.wf(),
            j < t.nodes@.len(),
            ks == &t.nodes@[j as int].children,
            prefix@ == id_property_prefix(),
            i <= ks@.len(),
            m.wf(),
            m@ == fold_texts(t, m0, ks@.take(i as int)),
        decreases ks@.len() - i,
    {
        let k = ks[i];
        assert(t.nodes@[j as int].children@[i as int] < t.nodes@.len());
        match &t.nodes[k].kind {
            NodeKind::Text { value } => {
                match scan_rest_exec(prefix, value.as_str()) {
                    Some(id) => m.insert(id_key_exec(), id),
                    None => {},
                }
            },
            _ => {},
        }
        assert(ks@.take(i + 1).drop_last() =~= ks@.take(i as int));
        i = i + 1;
    }
    assert(ks@.take(ks@.len() as int) =~= ks@);
}

fn apply_drawer(t: &DocTree, m: &mut StrMap, d: usize, prefix: &Vec<char>)
    requires
        t.wf(),
        d < t.nodes@.len(),
        old(m).wf(),
        prefix@ == id_property_prefix(),
    ensures
        final(m).wf(),
        final(m)@ == fold_rows(t, old(m)@, t.children_of(d)),
{
    let js = &t.nodes[d].children;
    let ghost m0 = m@;
    let mut i: usize = 0;
    while i < js.len()
        invariant
            t.wf(),
            d < t.nodes@.len(),
            js == &t.nodes@[d as int].children,
            prefix@ == id_property_prefix(),
            i <= js@.len(),
            m.wf(),
            m@ == fold_rows(t, m0, js@.take(i as int)),
        decreases js@.len() - i,
    {
        assert(t.nodes@[d as int].children@[i as int] < t.nodes@.len());
        apply_texts(t, m, js[i], prefix);
        assert(js@.take(i + 1).drop_last() =~= js@.take(i as int));
        i = i + 1;
    }
    assert(js@.take(js@.len() as int) =~= js@);
}

/// Extracts a document's metadata: for each direct child of its first
/// section, in order, a drawer line `:ID:       <id>` sets the key `ID` and a
/// keyword sets its upper-cased key to its value; a later entry replaces an
/// earlier one under the same key.
pub fn extract_metadata(t: &DocTree) -> (r: StrMap)
    requires
        t.wf(),
    ensures
        r.wf(),
        r@ == metadata_spec(t),
{
    let mut m = StrMap::new();
    let prefix = id_property_prefix_exec();
    match t.section {
        None => m,
        Some(s) => {
            let cs = &t.nodes[s].children;
            let mut i: usize = 0;
            while i < cs.len()
                invariant
                    t.wf(),
                    t.section == Some(s),
                    s < t.nodes@.len(),
                    cs == &t.nodes@[s as int].children,
                    prefix@ == id_property_prefix(),
                    i <= cs@.len(),
                    m.wf(),
                    m@ == fold_section(t, Map::empty(), cs@.take(i as int)),
                decreases cs@.len() - i,
            {
                let c = cs[i];
                assert(t.nodes@[s as int].children@[i as int] < t.nodes@.len());
                match &t.nodes[c].kind {
                    NodeKind::Drawer => apply_drawer(t, &mut m, c, &prefix),
                    NodeKind::Keyword { key, value } => m.insert(to_upper(key.as_str()), value.clone()),
                    _ => {},
                }
                assert(cs@.take(i + 1).drop_last() =~= cs@.take(i as int));
                i = i + 1;
            }
            assert(cs@.take(cs@.len() as int) =~= cs@);
            m
        },
    }
}

} // verus!
