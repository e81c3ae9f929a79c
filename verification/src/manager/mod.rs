//! The manager of one user's workloads: what it knows, what it answers and how it changes.

pub mod error;
pub mod execution;
pub mod launch;
pub mod laws;
pub mod model;
pub mod requests;
pub mod state;
