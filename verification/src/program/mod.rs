//! The intermediate representation: an arena of values, basic blocks and
//! functions that refer to one another by handle.

pub mod builder;
pub mod entities;
pub mod types;
