//! The Actual server: what is asked of it, and what its answers mean.
pub mod client;
pub mod error;
pub mod messages;
pub mod model;
pub mod number;
pub mod proto;
pub mod snapshot;
pub mod wire;
