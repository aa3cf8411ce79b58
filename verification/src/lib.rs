//! Read-only access to a local copy of an Actual Budget file.

pub mod actual;
pub mod config;
pub mod domain;
pub mod error;
pub mod mcp;
pub mod ordering;
pub mod queries;
pub mod store;
pub mod text;
