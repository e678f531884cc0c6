
//! Translation of requests to SQL statements.

pub mod error;
pub mod helpers;
pub mod mutation;
pub mod query;
pub mod translators;
