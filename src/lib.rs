//! A task runner that reads a Markdown document as a list of tasks: headings at a
//! chosen depth name the tasks, and the fenced code blocks under a heading are the
//! task's steps, each run by the interpreter configured for its language tag.
//!
//! The library holds the verified core: runtime configuration and its lookups,
//! the conversion of query records into typed sections, task lookup, and the
//! decisions of the execution engine (which program, which arguments, which
//! environment, how the code reaches the child, and when a section stops).
//! Spawning processes and touching the file system is left to the caller.
pub mod config;
pub mod text;
pub mod runner;
pub mod execution;
pub mod query;
pub mod error;

pub use config::{Config, ExecutionMode, RuntimeConfig};
pub use error::Error;
pub use runner::Runner;
