//! The interface every command-line tool of the suite offers, and the state
//! the tools share.
use crate::config::Config;
use crate::types::Manifest;
use vstd::prelude::*;

verus! {

/// A tool of the suite: it can check its inputs, preview its work, and do it.
pub trait Tool {
    /// Does the tool's work.
    fn run(&self) -> Result<(), String>;

    /// Reports what `run` would do without changing anything.
    fn dry_run(&self) -> Result<(), String>;

    /// Checks the tool's inputs before it runs.
    fn validate(&self) -> Result<(), String>;
}

/// What a tool works with: the configuration, the current manifest and the
/// output directory.
#[derive(Debug, Clone)]
pub struct Context {
    pub config: Config,
    pub manifest: Manifest,
    pub output: String,
}

} // verus!
