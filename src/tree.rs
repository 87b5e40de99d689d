//! A parsed document as an arena of nodes addressed by index, each with an
//! explicit list of children.

use vstd::prelude::*;

verus! {

/// What a node of a document is, as far as this library reads it.
pub enum NodeKind {
    /// A section: the content that precedes or follows a heading.
    Section,
    /// A drawer of property lines.
    Drawer,
    /// A `#+KEY: value` line.
    Keyword { key: String, value: String },
    /// Plain text.
    Text { value: String },
    /// A link to `path`, with an optional description.
    Link { path: String, desc: Option<String> },
    /// Any other element.
    Other,
}

pub struct Node {
    pub kind: NodeKind,
    pub children: Vec<usize>,
}

pub struct DocTree {
    /// Every node of the document.
    pub nodes: Vec<Node>,
    /// The section that precedes the document's first heading, if any.
    pub section: Option<usize>,
}

impl DocTree {
    /// Every handle in the tree names a node of the arena.
    pub open spec fn wf(&self) -> bool {
        &&& (self.section matches Some(s) ==> s < self.nodes@.len())
        &&& forall|i: int, j: int|
            0 <= i < self.nodes@.len() && 0 <= j < self.nodes@[i].children@.len()
                ==> #[trigger] self.nodes@[i].children@[j] < self.nodes@.len()
    }

    /// The children of node `i`; none for a handle outside the arena.
    pub open spec fn children_of(&self, i: usize) -> Seq<usize> {
        if i < self.nodes@.len() {
            self.nodes@[i as int].children@
        } else {
            Seq::empty()
        }
    }

    /// Tests `wf`.
    pub fn is_well_formed(&self) -> (r: bool)
        ensures
            r == self.wf(),
    {
        let n = self.nodes.len();
        if let Some(s) = self.section {
            if s >= n {
                return false;
            }
        }
        let mut i: usize = 0;
        while i < n
            invariant
                n == self.nodes@.len(),
                i <= n,
                self.section matches Some(s) ==> s < n,
                forall|a: int, b: int|
                    0 <= a < i && 0 <= b < self.nodes@[a].children@.len()
                        ==> #[trigger] self.nodes@[a].children@[b] < n,
            decreases n - i,
        {
            let kids = &self.nodes[i].children;
            let mut j: usize = 0;
            while j < kids.len()
                invariant
                    n == self.nodes@.len(),
                    i < n,
                    kids == &self.nodes@[i as int].children,
                    j <= kids@.len(),
                    forall|b: int| 0 <= b < j ==> #[trigger] kids@[b] < n,
                decreases kids@.len() - j,
            {
                if kids[j] >= n {
                    assert(self.nodes@[i as int].children@[j as int] >= n);
                    return false;
                }
                j = j + 1;
            }
            i = i + 1;
        }
        true
    }
}

} // verus!
