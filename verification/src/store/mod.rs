//! The local copy of the budget: a SQLite file.
pub mod apply;
pub mod error;
pub mod freshness;
pub mod language;
pub mod replica;
pub mod sql;
