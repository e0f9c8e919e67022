//! The document that properties are read from, the cursor that walks it, and
//! the handle to one property.

pub mod iters;
pub mod node;
pub mod prop;
pub mod tree;
