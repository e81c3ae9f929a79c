//! Per-user service manager: lifecycle state machines, configuration rules,
//! journals and command-line encoding, each with a proved contract.

pub mod bundle;
pub mod bytes;
pub mod cli;
pub mod codes;
pub mod config;
pub mod control;
pub mod controller;
pub mod controller_link;
pub mod diagnostics;
pub mod execution;
pub mod host;
pub mod ids;
pub mod installer;
pub mod json_object;
pub mod laws;
pub mod log_journal;
pub mod log_segments;
pub mod manager;
pub mod messages;
pub mod num;
pub mod numerals;
pub mod ordered;
pub mod packaging;
pub mod paths;
pub mod pipe;
pub mod preflight;
pub mod process;
pub mod restart;
pub mod runner;
pub mod runtime_journal;
pub mod session;
pub mod snapshot;
pub mod startup;
pub mod storage;
pub mod supervisor_binding;
pub mod text;
pub mod time;
pub mod transition;
pub mod utf16;
pub mod versions;
