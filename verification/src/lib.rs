//! Derives a structural schema for a data-type declaration from its shape
//! and its declared serialization rules: which fields appear under which
//! names, which are required, how flattened fields fold into their parent,
//! and how each enum variant is encoded under the chosen tagging strategy.

pub mod alias;
pub mod assemble;
pub mod enums;
pub mod laws;
pub mod model;
pub mod names;
pub mod node;
pub mod structs;
pub mod types;
