//! The command-line client: what it asks of the host and the controller, and what it shows.

pub mod command;
pub mod json;
pub mod local;
pub mod logs;
pub mod output;
