//! Decision logic of five version-control commands, with contracts.

pub mod bisect;
pub mod branch;
pub mod clone;
pub mod commit;
pub mod config;
pub mod error;
pub mod hexadecimal;
pub mod merge;
pub mod object;
pub mod paths;
pub mod text;
pub mod tree;
