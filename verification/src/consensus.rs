//! Settings of the consensus engine: the types, their defaults, and reading
//! them from a configuration document.

pub mod address;
pub mod config;
pub mod document;
pub mod config_loader;
