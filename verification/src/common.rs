//! What every kind of property handle can do.

pub mod prop;
