//! Workload definitions: their model, the rules that raw definitions obey, their digests and
//! how a directory of them is loaded.

pub mod canonical;
pub mod injective;
pub mod loader;
pub mod model;
pub mod raw;
