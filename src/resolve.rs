//! Link resolution: links that name a document by identifier are rewritten
//! into links to that document's path.

use vstd::prelude::*;
use crate::strmap::StrMap;
use crate::text::{scan_rest, scan_rest_exec, string_of};
use crate::tree::{DocTree, Node, NodeKind};

verus! {

/// The prefix of a link that names its target by identifier.
pub open spec fn id_scheme() -> Seq<char> {
    seq!['i', 'd', ':']
}

/// The prefix of a link that names its target by path.
pub open spec fn file_scheme() -> Seq<char> {
    seq!['f', 'i', 'l', 'e', ':']
}

/// The target of a link after resolution against `idx`: `id:<X>` with `X`
/// in the index becomes `file:<path of X>`; any other target stays.
pub open spec fn resolved_target(target: Seq<char>, idx: Map<Seq<char>, Seq<char>>) -> Seq<char> {
    match scan_rest(id_scheme(), target) {
        Some(id) => if idx.contains_key(id) {
            file_scheme() + idx[id]
        } else {
            target
        },
        None => target,
    }
}

/// Node `b` is node `a` after resolution: a link with its target resolved
/// and its description kept, any other node unchanged.
pub open spec fn node_resolved(a: Node, b: Node, idx: Map<Seq<char>, Seq<char>>) -> bool {
    &&& b.children == a.children
    &&& match a.kind {
        NodeKind::Link { path, desc } => b.kind matches NodeKind::Link { path: new_path, desc: new_desc }
            && new_path@ == resolved_target(path@, idx) && new_desc == desc,
        _ => b.kind == a.kind,
    }
}

fn id_scheme_exec() -> (r: Vec<char>)
    ensures
        r@ == id_scheme(),
{
    let mut v: Vec<char> = Vec::new();
    v.push('i');
    v.push('d');
    v.push(':');
    assert(v@ =~= id_scheme());
    v
}

fn file_scheme_exec() -> (r: String)
    ensures
        r@ == file_scheme(),
{
    let mut v: Vec<char> = Vec::new();
    v.push('f');
    v.push('i');
    v.push('l');
    v.push('e');
    v.push(':');
    assert(v@ =~= file_scheme());
    string_of(&v)
}

/// Resolves one link target against the index.
pub fn resolve_target(target: &str, idx: &StrMap) -> (r: String)
    requires
        idx.wf(),
    ensures
        r@ == resolved_target(target@, idx@),
{
    let scheme = id_scheme_exec();
    match scan_rest_exec(&scheme, target) {
        Some(id) => match idx.get(&id) {
            Some(p) => file_scheme_exec().concat(p.as_str()),
            None => target.to_owned(),
        },
        None => target.to_owned(),
    }
}

/// Rewrites, in place, every link of the document whose target names an
/// indexed identifier; every other node, and the shape of the tree, stay.
pub fn resolve_links(t: &mut DocTree, idx: &StrMap)
    requires
        idx.wf(),
    ensures
        final(t).section == old(t).section,
        final(t).nodes@.len() == old(t).nodes@.len(),
        forall|i: int|
            0 <= i < old(t).nodes@.len() ==> node_resolved(
                #[trigger] old(t).nodes@[i],
                final(t).nodes@[i],
                idx@,
            ),
{
    let n = t.nodes.len();
    let mut i: usize = 0;
    while i < n
        invariant
            idx.wf(),
            n == old(t).nodes@.len(),
            t.nodes@.len() == n,
            t.section == old(t).section,
            i <= n,
            forall|j: int| 0 <= j < i ==> node_resolved(#[trigger] old(t).nodes@[j], t.nodes@[j], idx@),
            forall|j: int| i <= j < n ==> #[trigger] t.nodes@[j] == old(t).nodes@[j],
        decreases n - i,
    {
        let mut k = NodeKind::Other;
        std::mem::swap(&mut t.nodes[i].kind, &mut k);
        match k {
            NodeKind::Link { path, desc } => {
                let np = resolve_target(path.as_str(), idx);
                t.nodes[i].kind = NodeKind::Link { path: np, desc };
            },
            other => {
                t.nodes[i].kind = other;
            },
        }
        i = i + 1;
    }
}

/// The targets of all links of the document, in arena order.
pub open spec fn link_targets_spec(nodes: Seq<Node>) -> Seq<Seq<char>>
    decreases nodes.len(),
{
    if nodes.len() == 0 {
        Seq::empty()
    } else {
        let rest = link_targets_spec(nodes.drop_last());
        match nodes.last().kind {
            NodeKind::Link { path, .. } => rest.push(path@),
            _ => rest,
        }
    }
}

/// Collects the target of every link of the document, without changing it:
/// after resolution, those that still begin with `id:` are dangling.
pub fn link_targets(t: &DocTree) -> (r: Vec<String>)
    ensures
        r@.map_values(|s: String| s@) == link_targets_spec(t.nodes@),
{
    let mut r: Vec<String> = Vec::new();
    let mut i: usize = 0;
    while i < t.nodes.len()
        invariant
            i <= t.nodes@.len(),
            r@.map_values(|s: String| s@) == link_targets_spec(t.nodes@.take(i as int)),
        decreases t.nodes@.len() - i,
    {
        assert(t.nodes@.take(i + 1).drop_last() =~= t.nodes@.take(i as int));
        match &t.nodes[i].kind {
            NodeKind::Link { path, .. } => {
                let ghost before = r@;
                r.push(path.clone());
                assert(r@.map_values(|s: String| s@) =~= before.map_values(|s: String| s@).push(path@));
            },
            _ => {},
        }
        i = i + 1;
    }
    assert(t.nodes@.take(t.nodes@.len() as int) =~= t.nodes@);
    r
}

} // verus!
