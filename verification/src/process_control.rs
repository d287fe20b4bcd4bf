//! Process control: the library's window on OS process primitives.
//!
//! The process table is inspected and signalled through the `sysinfo` crate;
//! spawning happens outside the library, by carrying a `StartPlan` out. A
//! fresh snapshot is taken per operation, so a pid's presence or state is a
//! fact about the machine at that moment, never a promise: two calls on the
//! same pid may answer differently.
use vstd::prelude::*;

use crate::SupervisorError;

verus! {

/// Declares sysinfo::System, the process-table snapshot, as an opaque type.
#[verifier::external_type_specification]
#[verifier::external_body]
pub struct ExSystem(sysinfo::System);

/// Declares sysinfo::Process, one entry of a snapshot, as an opaque type.
#[verifier::external_type_specification]
#[verifier::external_body]
pub struct ExProcess(sysinfo::Process);

/// Relies on sysinfo::System::new_all: takes a fresh snapshot of the OS
/// process table; what it holds depends on the machine at the moment of the
/// call, so nothing is promised of it.
#[verifier::external_body]
fn system_snapshot() -> sysinfo::System {
    sysinfo::System::new_all()
}

/// Relies on sysinfo::System::process (and Pid::from_u32 to convert the pid):
/// looks the pid up in the snapshot's table; `None` when the snapshot holds
/// no such process.
#[verifier::external_body]
fn snapshot_process<'a>(sys: &'a sysinfo::System, pid: u32) -> Option<&'a sysinfo::Process> {
    sys.process(sysinfo::Pid::from_u32(pid))
}

/// Relies on sysinfo::Process::status: the process's OS-reported run state,
/// written out verbatim.
#[verifier::external_body]
fn process_state(p: &sysinfo::Process) -> String {
    format!("{:?}", p.status())
}

/// Relies on sysinfo::Process::kill_with: delivers a termination signal
/// (SIGTERM) to the process without waiting for it to exit. The result says
/// whether the signal could be sent; `kill_with` answers `None` only where
/// the platform lacks the signal, which counts as not sent.
#[verifier::external_body]
pub(crate) fn send_term(p: &sysinfo::Process) -> bool {
    match p.kill_with(sysinfo::Signal::Term) {
        Some(sent) => sent,
        None => false,
    }
}

/// Queries the OS process table for `pid`: its current run state verbatim, or
/// nothing when the pid is absent from the table. The answer is a snapshot,
/// not a promise: the process may exit, or the pid be reused, at any moment.
pub fn query(pid: u32) -> (r: Option<String>) {
    let sys = system_snapshot();
    match snapshot_process(&sys, pid) {
        Some(p) => Some(process_state(p)),
        None => None,
    }
}

/// Delivers a termination signal to `pid` without waiting for it to exit.
/// Signals `ProcessNotFound` when the pid is absent from the process table;
/// callers treat that as already stopped, not as a hard failure. An `Ok`
/// result says whether the signal could be sent.
pub fn signal(pid: u32) -> (r: Result<bool, SupervisorError>)
    ensures
        r matches Err(e) ==> e == SupervisorError::ProcessNotFound,
{
    let sys = system_snapshot();
    match snapshot_process(&sys, pid) {
        Some(p) => Ok(send_term(p)),
        None => Err(SupervisorError::ProcessNotFound),
    }
}

} // verus!
