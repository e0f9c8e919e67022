//! The document: the source buffer and what locates things inside it.

use vstd::prelude::*;

verus! {

/// What a document is, as plain values.
pub struct DevTreeView {
    /// The bytes of the source buffer.
    pub buf: Seq<u8>,
    /// Where the table of property names starts in `buf`.
    pub off_dt_strings: nat,
    /// The byte offset at which each node starts, in document order.
    pub node_offsets: Seq<usize>,
}

impl DevTreeView {
    /// A document is well formed when its nodes are listed in the order in
    /// which they lie in the buffer, in a listing that memory can hold.
    pub open spec fn well_formed(self) -> bool {
        &&& self.node_offsets.len() <= usize::MAX
        &&& forall|i: int, j: int|
            0 <= i < j < self.node_offsets.len() ==> self.node_offsets[i] < self.node_offsets[j]
    }
}

/// A flattened device tree: a borrowed buffer, the offset of the name table
/// in it, and the offsets of its nodes. Nothing is copied out of the buffer.
#[derive(Debug, Clone, Copy)]
pub struct DevTree<'dt> {
    buf: &'dt [u8],
    off_dt_strings: usize,
    node_offsets: &'dt [usize],
}

impl<'dt> View for DevTree<'dt> {
    type V = DevTreeView;

    closed spec fn view(&self) -> DevTreeView {
        DevTreeView {
            buf: self.buf@,
            off_dt_strings: self.off_dt_strings as nat,
            node_offsets: self.node_offsets@,
        }
    }
}

impl<'dt> DevTree<'dt> {
    /// Describes a document by its buffer, the offset of its name table and
    /// the offsets of its nodes in document order.
    pub fn new(buf: &'dt [u8], off_dt_strings: usize, node_offsets: &'dt [usize]) -> (r: Self)
        ensures
            r@.buf == buf@,
            r@.off_dt_strings == off_dt_strings,
            r@.node_offsets == node_offsets@,
    {
        DevTree { buf, off_dt_strings, node_offsets }
    }

    /// The source buffer.
    pub fn buf(&self) -> (r: &'dt [u8])
        ensures
            r@ == self@.buf,
    {
        self.buf
    }

    /// The offset in the source buffer at which the name table starts.
    pub fn off_dt_strings(&self) -> (r: usize)
        ensures
            r == self@.off_dt_strings,
    {
        self.off_dt_strings
    }

    /// The byte offset of each node, in document order.
    pub fn node_offsets(&self) -> (r: &'dt [usize])
        ensures
            r@ == self@.node_offsets,
    {
        self.node_offsets
    }
}

} // verus!
