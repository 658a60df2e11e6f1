//! Planning and bookkeeping for migrating groups, projects, users and their
//! attached resources between two instances of a hosted project platform.
//!
//! The library decides what to fetch, what to create or delete, and in which
//! order and pace; the caller performs the network and file work and hands
//! the results back.

pub mod batching;
pub mod gitlab;
pub mod joins;
pub mod paging;
pub mod plans;
pub mod types;
