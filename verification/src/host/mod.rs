//! The host: the machine service that keeps one controller running for each user who has
//! registered and logged on.

pub mod controller_loop;
pub mod launcher;
pub mod registry;
pub mod service;
pub mod sessions;
pub mod state;
