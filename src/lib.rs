//! A rule engine that rewrites text through a priority-ordered list of
//! regex, built-in function and shell rules.

pub mod text;
pub mod rule;
pub mod builtin;
pub mod matcher;
pub mod error;
pub mod log;
pub mod loader;
pub mod engine;
pub mod config;
pub mod request;
pub mod response;
pub mod persist;
