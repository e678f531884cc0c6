//! Translation of data connector queries and mutations to PostgreSQL statements.

pub mod cli;
pub mod configuration;
pub mod json;
pub mod metadata;
pub mod models;
pub mod sql;
pub mod string_map;
pub mod translation;
