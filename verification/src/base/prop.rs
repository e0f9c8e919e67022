//! The handle to one property of a document.

use crate::base::iters::{DevTreeIter, DevTreeIterView};
use crate::base::node::DevTreeNode;
use crate::base::tree::{DevTree, DevTreeView};
use crate::common::prop::PropReader;
use crate::error::DevTreeError;
use vstd::prelude::*;

verus! {

/// What a property handle is, as plain values.
pub struct DevTreePropView {
    /// The cursor that stood just after the property when it was found.
    pub parent_iter: DevTreeIterView,
    /// The bytes of the value region.
    pub propbuf: Seq<u8>,
    /// The offset of the property's name in the document's name table.
    pub nameoff: nat,
}

/// One property of a node: its value region, the offset of its name, and the
/// cursor through which the node that owns it is found again.
#[derive(Debug)]
pub struct DevTreeProp<'a, 'dt: 'a> {
    parent_iter: DevTreeIter<'a, 'dt>,
    propbuf: &'dt [u8],
    nameoff: usize,
}

impl<'a, 'dt: 'a> View for DevTreeProp<'a, 'dt> {
    type V = DevTreePropView;

    closed spec fn view(&self) -> DevTreePropView {
        DevTreePropView {
            parent_iter: self.parent_iter@,
            propbuf: self.propbuf@,
            nameoff: self.nameoff as nat,
        }
    }
}

impl<'a, 'dt: 'a> DevTreeProp<'a, 'dt> {
    /// The handle to the property found just before `parent_iter`, with value
    /// region `propbuf` and its name `nameoff` bytes into the name table.
    pub fn new(parent_iter: DevTreeIter<'a, 'dt>, propbuf: &'dt [u8], nameoff: usize) -> (r: Self)
        ensures
            r@ == (DevTreePropView {
                parent_iter: parent_iter@,
                propbuf: propbuf@,
                nameoff: nameoff as nat,
            }),
    {
        DevTreeProp { parent_iter, propbuf, nameoff }
    }

    /// The cursor that stood just after the property when it was found.
    pub fn parent_iter(&self) -> (r: DevTreeIter<'a, 'dt>)
        ensures
            r@ == self@.parent_iter,
    {
        self.parent_iter
    }
}

impl<'a, 'dt: 'a> Clone for DevTreeProp<'a, 'dt> {
    /// A second handle to the same property.
    fn clone(&self) -> (r: Self)
        ensures
            r@ == self@,
    {
        DevTreeProp { parent_iter: self.parent_iter, propbuf: self.propbuf, nameoff: self.nameoff }
    }
}

impl<'r, 'dt: 'r> PropReader<'dt> for DevTreeProp<'r, 'dt> {
    type NodeType = DevTreeNode;

    open spec fn region(&self) -> Seq<u8> {
        self@.propbuf
    }

    open spec fn name_offset(&self) -> nat {
        self@.nameoff
    }

    open spec fn document(&self) -> DevTreeView {
        self@.parent_iter.fdt
    }

    open spec fn owner(&self) -> Option<DevTreeNode> {
        self@.parent_iter.owner()
    }

    fn propbuf(&self) -> (r: &'dt [u8]) {
        self.propbuf
    }

    fn nameoff(&self) -> (r: usize) {
        self.nameoff
    }

    fn fdt(&self) -> (r: &DevTree<'dt>) {
        self.parent_iter.fdt()
    }

    /// The node that owns the property: the last node in document order that
    /// starts before the property's position. Fails with `CorruptStructure`
    /// where no node starts before it.
    fn node(&self) -> (r: Result<DevTreeNode, DevTreeError>) {
        match self.parent_iter.last_node() {
            Some(node) => Ok(node),
            None => Err(DevTreeError::CorruptStructure),
        }
    }
}

} // verus!
