//! Zero-copy decoding of property values stored in a flattened device tree.
//!
//! Every value is read straight out of a borrowed byte region: big-endian
//! words, null-terminated strings and packed string lists. Each reader states
//! in its contract exactly which bytes it returns and when it fails.

pub mod base;
pub mod common;
pub mod error;
pub mod slice_read;

pub use crate::base::iters::DevTreeIter;
pub use crate::base::node::DevTreeNode;
pub use crate::base::prop::DevTreeProp;
pub use crate::base::tree::DevTree;
pub use crate::common::prop::{Phandle, PropReader, StringPropIter};
pub use crate::error::DevTreeError;
pub use crate::slice_read::SliceReadError;
