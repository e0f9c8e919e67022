//! The cursor: a position in a document, from which the node that owns that
//! position is found again on demand.

use crate::base::node::DevTreeNode;
use crate::base::tree::{DevTree, DevTreeView};
use vstd::prelude::*;

verus! {

/// Node `k` owns position `pos`: it starts before `pos`, and every node
/// listed after it starts at or after `pos`.
pub open spec fn is_owner(nodes: Seq<usize>, pos: int, k: int) -> bool {
    &&& 0 <= k < nodes.len()
    &&& nodes[k] < pos
    &&& forall|j: int| k < j < nodes.len() ==> nodes[j] >= pos
}

/// The node that owns position `pos`, if one does.
pub open spec fn owner_of(nodes: Seq<usize>, pos: int) -> Option<DevTreeNode> {
    if exists|k: int| is_owner(nodes, pos, k) {
        let k = choose|k: int| is_owner(nodes, pos, k);
        Some(DevTreeNode { index: k as usize, offset: nodes[k] })
    } else {
        None
    }
}

/// No two nodes own the same position.
pub proof fn lemma_owner_unique(nodes: Seq<usize>, pos: int, k1: int, k2: int)
    requires
        is_owner(nodes, pos, k1),
        is_owner(nodes, pos, k2),
    ensures
        k1 == k2,
{
}

/// Once a node is known to own a position, it is the value of `owner_of`.
pub proof fn lemma_owner_found(nodes: Seq<usize>, pos: int, k: int)
    requires
        is_owner(nodes, pos, k),
    ensures
        owner_of(nodes, pos) == Some(DevTreeNode { index: k as usize, offset: nodes[k] }),
{
    let found = choose|j: int| is_owner(nodes, pos, j);
    lemma_owner_unique(nodes, pos, k, found);
}

/// A position is owned exactly when some node starts before it. So the
/// lookup at a position that no node precedes answers `None`, and never with
/// a node from elsewhere.
pub proof fn lemma_owner_exists(nodes: Seq<usize>, pos: int)
    ensures
        owner_of(nodes, pos) is Some <==> exists|j: int| 0 <= j < nodes.len() && nodes[j] < pos,
{
    if exists|j: int| 0 <= j < nodes.len() && nodes[j] < pos {
        let j = choose|j: int| 0 <= j < nodes.len() && nodes[j] < pos;
        lemma_last_below(nodes, pos, j, nodes.len() as int);
    }
}

/// If some node among the first `n` starts before `pos`, one of them is the
/// last to do so.
proof fn lemma_last_below(nodes: Seq<usize>, pos: int, j: int, n: int)
    requires
        0 <= j < n <= nodes.len(),
        nodes[j] < pos,
        forall|i: int| n <= i < nodes.len() ==> nodes[i] >= pos,
    ensures
        exists|k: int| is_owner(nodes, pos, k),
    decreases n,
{
    if nodes[n - 1] < pos {
        assert(is_owner(nodes, pos, n - 1));
    } else {
        lemma_last_below(nodes, pos, j, n - 1);
    }
}

/// In a well-formed document the owner of a position is the nearest node
/// before it: every node that starts before the position is the owner or
/// comes before it, in the listing and in the buffer, and no other node owns
/// the position.
pub proof fn lemma_owner_is_nearest(doc: DevTreeView, pos: int)
    requires
        doc.well_formed(),
        owner_of(doc.node_offsets, pos) is Some,
    ensures
        ({
            let nodes = doc.node_offsets;
            let owner = owner_of(nodes, pos).unwrap();
            &&& is_owner(nodes, pos, owner.index as int)
            &&& owner.offset == nodes[owner.index as int]
            &&& forall|j: int|
                0 <= j < nodes.len() && nodes[j] < pos ==> j <= owner.index && nodes[j]
                    <= owner.offset
            &&& forall|j: int| is_owner(nodes, pos, j) ==> j == owner.index
        }),
{
    let nodes = doc.node_offsets;
    let k = choose|k: int| is_owner(nodes, pos, k);
    assert forall|j: int| is_owner(nodes, pos, j) implies j == k by {
        lemma_owner_unique(nodes, pos, j, k);
    }
}

/// What a cursor is, as plain values.
pub struct DevTreeIterView {
    /// The document that the cursor walks.
    pub fdt: DevTreeView,
    /// The byte offset at which the cursor stands.
    pub offset: nat,
}

impl DevTreeIterView {
    /// The node that owns the cursor's position.
    pub open spec fn owner(self) -> Option<DevTreeNode> {
        owner_of(self.fdt.node_offsets, self.offset as int)
    }
}

/// A position in a document. It holds no node: the node that owns the
/// position is looked up each time it is asked for.
#[derive(Debug, Clone, Copy)]
pub struct DevTreeIter<'a, 'dt: 'a> {
    fdt: &'a DevTree<'dt>,
    offset: usize,
}

impl<'a, 'dt: 'a> View for DevTreeIter<'a, 'dt> {
    type V = DevTreeIterView;

    closed spec fn view(&self) -> DevTreeIterView {
        DevTreeIterView { fdt: self.fdt@, offset: self.offset as nat }
    }
}

impl<'a, 'dt: 'a> DevTreeIter<'a, 'dt> {
    /// A cursor that stands at byte offset `offset` of `fdt`.
    pub fn new(fdt: &'a DevTree<'dt>, offset: usize) -> (r: Self)
        ensures
            r@.fdt == fdt@,
            r@.offset == offset,
    {
        DevTreeIter { fdt, offset }
    }

    /// The document that the cursor walks.
    pub fn fdt(&self) -> (r: &'a DevTree<'dt>)
        ensures
            r@ == self@.fdt,
    {
        self.fdt
    }

    /// The byte offset at which the cursor stands.
    pub fn offset(&self) -> (r: usize)
        ensures
            r == self@.offset,
    {
        self.offset
    }

    /// The nearest node before the cursor: the last node in document order
    /// that starts before the cursor's offset. `None` when no node does.
    pub fn last_node(self) -> (r: Option<DevTreeNode>)
        ensures
            r == self@.owner(),
    {
        let nodes = self.fdt.node_offsets();
        let mut k: usize = nodes.len();
        while k > 0
            invariant
                k <= nodes@.len(),
                nodes@ == self@.fdt.node_offsets,
                forall|j: int| k <= j < nodes@.len() ==> nodes@[j] >= self.offset,
            decreases k,
        {
            k -= 1;
            if nodes[k] < self.offset {
                proof {
                    lemma_owner_found(nodes@, self.offset as int, k as int);
                }
                return Some(DevTreeNode { index: k, offset: nodes[k] });
            }
        }
        None
    }
}

} // verus!
