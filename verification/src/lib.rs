//! Status aggregation and table rendering for a worktree-oriented command line.

pub mod accessor;
pub mod age;
pub mod enrich;
pub mod gather;
pub mod layout;
pub mod list;
pub mod model;
pub mod output;
pub mod render;
pub mod styling;
pub mod symbols;
pub mod text;
