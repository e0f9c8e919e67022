//! The handle to one node of a document.

use vstd::prelude::*;

verus! {

/// One node of a document: its place among the nodes in document order, and
/// the byte offset at which it starts.
#[derive(Debug, Clone, Copy, PartialEq, Eq, Structural)]
pub struct DevTreeNode {
    /// The node's position in document order, counted from zero.
    pub index: usize,
    /// The byte offset at which the node starts.
    pub offset: usize,
}

} // verus!
