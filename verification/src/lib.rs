//! Core of a personal capture tool: resolving where data lives (layered
//! configuration), formatting a capture into a canonical on-disk document
//! with collision-safe naming, and ranking historical field values for
//! auto-complete suggestions.
//!
//! All logic is verified; calls into outside crates (sqlite, yaml parsing,
//! timestamp handling, tilde and relative-path expansion) stand behind
//! trusted wrappers whose contracts state what the outside code does.

pub mod capture;
pub mod config;
pub mod index;
pub mod render;
pub mod stamp;
pub mod store;
pub mod text;
