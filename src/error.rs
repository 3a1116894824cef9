//! Errors of the task runner.
use vstd::prelude::*;

verus! {

/// The ways an operation of the task runner can fail.
#[derive(Debug, Clone)]
pub enum Error {
    /// The document could not be parsed as Markdown.
    Markdown(String),
    /// The section query could not be evaluated.
    Query(String),
    /// A child process could not be started, fed or waited for, or it failed.
    Execution(String),
    /// The configuration is malformed, or a configured program is not available.
    Config(String),
    /// No section carries the requested title.
    SectionNotFound(String),
    /// A code block's language has no configured runtime.
    RuntimeNotFound(String),
}

} // verus!
