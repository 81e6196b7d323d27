//! Cloning a repository.

pub mod ai;
pub mod errors;
pub mod flow;
pub mod restore;
pub mod run;
pub mod source;
