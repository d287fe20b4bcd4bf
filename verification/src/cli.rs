//! The parsed command surface, free of any argument-parsing machinery.
//!
//! The outer binary parses its command line, builds a `Cli` value, and
//! dispatches each subcommand to the matching registry operation; which
//! subcommand maps to which call, and the process exit code, are its
//! decisions alone.
use vstd::prelude::*;

verus! {

/// The tool's invocation: at most one subcommand.
pub struct Cli {
    pub command: Option<Commands>,
}

/// One subcommand of the tool.
pub enum Commands {
    /// Start every known service, then hand the process image off to the
    /// given command, keeping the current process id.
    Init { args: Vec<String> },
    /// Report the state of one service.
    Status { service: String },
    /// Start one service.
    Start { service: String },
    /// Stop one service.
    Stop { service: String },
    /// Stop, then start, one service.
    Restart { service: String },
    /// Show one service's captured standard output.
    Stdout { service: String },
    /// Show one service's captured standard error.
    Stderr { service: String },
}

} // verus!
