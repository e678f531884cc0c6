//! Translation of queries.

pub mod answers;
pub mod depth;
pub mod extent;
pub mod field_map;
pub mod fields;
pub mod laws;
pub mod outcomes;
pub mod relationships;
pub mod root;
pub mod scope;
pub mod selection;
