//! Hosts-file management: splitting a hosts file into a user-owned region and a
//! marker-delimited managed region, rebuilding it from fresh subscription content,
//! and the decisions around fetching sources, probing domains and writing the file.

pub mod text;
pub mod hosts;
pub mod fetcher;
pub mod config;
pub mod commands;
