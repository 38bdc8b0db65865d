//! A status-bar server library: a cache of named slots joined into one
//! status line, the wire format of slot updates, the schedule of the
//! producers that refresh slots, and the configuration they come from.

pub mod text;
pub mod cache;
pub mod wire;
pub mod config;
pub mod server;
pub mod producer;
pub mod report;
pub mod sink;
pub mod scripts;
