//! Extraction orchestration and rule consolidation for runtime-harvested
//! configuration rules of game plugins.

pub mod command;
pub mod config;
pub mod consolidate;
pub mod fingerprint;
pub mod log_view;
pub mod manifest;
pub mod probe;
pub mod schema;
pub mod sort;
pub mod staging;
pub mod stats;
pub mod text;
pub mod update;
