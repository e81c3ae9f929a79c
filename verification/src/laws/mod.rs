//! What the operations are for, each stated of all that they are given.

pub mod client;
pub mod definitions;
pub mod diagnostics;
pub mod host;
pub mod launching;
pub mod lifecycle;
pub mod link;
pub mod logs;
pub mod manager;
pub mod names;
pub mod process;
pub mod run;
pub mod storage;
pub mod versions;
