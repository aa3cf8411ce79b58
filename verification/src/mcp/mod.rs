//! The server: when it refreshes, and what its tools answer.
pub mod server;
pub mod tools;
