//! Translation of mutations.

pub mod insert;
pub mod outcomes;
