//! Setting up a new bridge host.

pub mod install;
