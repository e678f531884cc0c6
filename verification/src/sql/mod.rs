//! SQL statements: their structure and how to build them.

pub mod ast;
pub mod helpers;
