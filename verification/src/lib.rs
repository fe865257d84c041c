//! Decision logic of a multi-host configuration deployment tool.
//!
//! Everything here is pure: it maps plain values to plain values and leaves
//! process spawning, file access and terminal output to the caller. The
//! caller asks a [`deployment::Deployment`] what work is to be started, does
//! the work with the commands that a [`host::Local`] names, and reports how
//! it ended.

pub mod deployment;
pub mod engine;
pub mod error;
pub mod goal;
pub mod host;
pub mod job;
pub mod key;
pub mod monitor;
pub mod node;
pub mod options;
pub mod runs;
pub mod stage;
pub mod store;
pub mod text;
