//! A minimal Unix process supervisor library.
//!
//! The library holds the service registry and the lifecycle logic: looking a
//! service up, deciding its status from its pid record and the process table,
//! building the command and file layout for a start, signalling a stop, and
//! turning captured output back into lines. Reading and writing the pid and
//! log files, spawning children and replacing the process image are left to
//! the thin binary around the library, which hands file contents in and
//! carries plans out as plain values.
use vstd::prelude::*;

pub mod cli;
pub mod process_control;
pub mod services;
pub mod text;

verus! {

/// Every failure a registry or process-control operation can signal.
#[derive(Clone, Copy, Debug, PartialEq, Eq, Structural)]
pub enum SupervisorError {
    /// An unknown service name was passed to a registry operation.
    ServiceNotFound,
    /// A service declaration file was unreadable or malformed.
    ConfigParseError,
    /// An environment override entry holds no `=` separator.
    EnvParseError,
    /// The operating system refused to create the child process.
    ProcessSpawnError,
    /// The pid was absent from the process table when signalling it.
    ProcessNotFound,
    /// A pid or log file could not be read or written, or a pid record
    /// did not hold a decimal pid as its first line.
    PersistentStateError,
}

} // verus!
