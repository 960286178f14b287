//! Core engine of a desktop SQL client: executes ad-hoc statements over a
//! pooled connection, converts driver-native values into a generic structured
//! form, and renders result sets as display markup.
//!
//! The driver round-trips themselves (network I/O) live in the embedding
//! application; this crate holds the decision logic, the value conversion and
//! the rendering, each with a verified contract.

pub mod ai;
pub mod base64;
pub mod executor;
pub mod logs;
pub mod monitor;
pub mod pool;
pub mod prefs;
pub mod render;
pub mod text;
pub mod value;
