//! The service data model and the registry: lookup, status, start, stop,
//! restart and log retrieval.
//!
//! The registry itself touches no file: the caller hands the current pid
//! record content in as a plain value, and a start or restart hands back a
//! `StartPlan` that says exactly which directories to recreate, which command
//! to spawn with which environment, and where to persist the new pid.
//! Signalling and process-table queries go through `process_control`.
use vstd::prelude::*;
use vstd::string::StringExecFns;

use crate::process_control;
use crate::text;
use crate::text::all_env_ok;
use crate::text::env_key;
use crate::text::env_value;
use crate::text::pid_of_record;
use crate::text::spec_lines;
use crate::text::views_of;
use crate::SupervisorError;

verus! {

/// The command a service runs: an executable path, optional arguments, and
/// optional `KEY=VALUE` environment overrides.
#[derive(Clone, Debug)]
pub struct CommandExec {
    pub path: String,
    pub options: Option<Vec<String>>,
    pub environment: Option<Vec<String>>,
}

/// One declared service. `after` is an advisory ordering hint that no
/// operation enforces; `reload` is reserved and unused by any operation.
#[derive(Clone, Debug)]
pub struct Service {
    pub name: String,
    pub after: Option<Vec<String>>,
    pub command: CommandExec,
    pub reload: Option<CommandExec>,
}

/// Directory that holds a service's pid record.
pub open spec fn pid_dir_of(name: Seq<char>) -> Seq<char> {
    "/var/run/sinitc/"@ + name
}

/// Well-known path of a service's pid record.
pub open spec fn pid_path_of(name: Seq<char>) -> Seq<char> {
    pid_dir_of(name) + "/service.pid"@
}

/// Directory that holds a service's captured output.
pub open spec fn log_dir_of(name: Seq<char>) -> Seq<char> {
    "/var/log/sinitc/"@ + name
}

/// Path of one captured stream (`stdout` or `stderr`) of a service.
pub open spec fn log_path_of(name: Seq<char>, stream: Seq<char>) -> Seq<char> {
    log_dir_of(name) + "/"@ + stream
}

/// True when every declared environment override of `s` holds a `=`.
pub open spec fn env_ok(s: Service) -> bool {
    match s.command.environment {
        Some(es) => all_env_ok(es@),
        None => true,
    }
}

/// Everything a start needs done outside the library, as plain values: the
/// command to spawn, the parsed environment, the log directory to recreate
/// with its two capture files, and where the new pid record belongs. The
/// caller recreates `log_dir`, spawns `path` with `args` and `env` with its
/// standard streams bound to the two capture files, recreates `pid_dir`, and
/// writes the spawned pid (see `text::pid_record_content`) at `pid_path`.
#[derive(Debug)]
pub struct StartPlan {
    pub path: String,
    pub args: Vec<String>,
    pub env: Vec<(String, String)>,
    pub log_dir: String,
    pub stdout_path: String,
    pub stderr_path: String,
    pub pid_dir: String,
    pub pid_path: String,
}

/// True when `p` is exactly the plan that starting `s` calls for.
pub open spec fn plan_matches(p: StartPlan, s: Service) -> bool {
    &&& p.path@ == s.command.path@
    &&& match s.command.options {
        Some(opts) => p.args@ == opts@,
        None => p.args@.len() == 0,
    }
    &&& match s.command.environment {
        Some(es) => p.env@.len() == es@.len() && forall|i: int|
            0 <= i < es@.len() ==> (#[trigger] p.env@[i]).0@ == env_key(es@[i]@)
                && p.env@[i].1@ == env_value(es@[i]@),
        None => p.env@.len() == 0,
    }
    &&& p.log_dir@ == log_dir_of(s.name@)
    &&& p.stdout_path@ == log_path_of(s.name@, "stdout"@)
    &&& p.stderr_path@ == log_path_of(s.name@, "stderr"@)
    &&& p.pid_dir@ == pid_dir_of(s.name@)
    &&& p.pid_path@ == pid_path_of(s.name@)
}

/// What a stop did. Any outcome but `NotRunning` means a pid record existed,
/// and the caller now removes it unconditionally, exactly as the signalled
/// process may or may not go on to exit.
#[derive(Clone, Copy, Debug, PartialEq, Eq, Structural)]
pub enum StopOutcome {
    /// No pid record existed: the stop was a no-op.
    NotRunning,
    /// The recorded pid was found in the process table and a termination
    /// signal was delivered to it, without waiting for it to exit.
    SignalSent(u32),
    /// The recorded pid was absent from the process table: the process had
    /// already exited or been reaped; treated as already stopped.
    AlreadyExited(u32),
}

/// The reported state of a service.
#[derive(Clone, Debug)]
pub enum ServiceStatus {
    /// No pid record: never started, or explicitly stopped.
    Stopped,
    /// A pid record exists but its process is gone from the table: stale.
    Unknown,
    /// The OS-reported run state of the recorded pid, verbatim.
    Reported(String),
}

/// The state a service reports, given the pid its record holds (`None` when
/// no record exists) and the process table's answer for that pid: no record
/// is Stopped; a record whose process is gone from the table is Unknown,
/// stale; otherwise the table's reported state, verbatim.
pub fn classify_status(record_pid: Option<u32>, table_state: Option<String>) -> (st: ServiceStatus)
    ensures
        record_pid is None ==> st == ServiceStatus::Stopped,
        record_pid is Some && table_state is None ==> st == ServiceStatus::Unknown,
        record_pid is Some ==> (table_state matches Some(s) ==> st == ServiceStatus::Reported(s)),
{
    match record_pid {
        None => ServiceStatus::Stopped,
        Some(_) => match table_state {
            None => ServiceStatus::Unknown,
            Some(s) => ServiceStatus::Reported(s),
        },
    }
}

/// The outcome a stop reports for a recorded pid, given what delivering the
/// termination signal answered: a pid absent from the process table counts
/// as already stopped, never as a hard failure.
pub fn classify_stop(pid: u32, signal_result: Result<bool, SupervisorError>) -> (o: StopOutcome)
    ensures
        signal_result is Ok ==> o == StopOutcome::SignalSent(pid),
        signal_result is Err ==> o == StopOutcome::AlreadyExited(pid),
{
    match signal_result {
        Ok(_) => StopOutcome::SignalSent(pid),
        Err(_) => StopOutcome::AlreadyExited(pid),
    }
}

fn copy_strings(v: &Vec<String>) -> (r: Vec<String>)
    ensures
        r@ == v@,
{
    let mut r: Vec<String> = Vec::new();
    let mut i: usize = 0;
    while i < v.len()
        invariant
            0 <= i <= v@.len(),
            r@ =~= v@.subrange(0, i as int),
        decreases v@.len() - i,
    {
        r.push(v[i].clone());
        i += 1;
    }
    proof {
        assert(v@.subrange(0, v@.len() as int) =~= v@);
    }
    r
}

impl Service {
    /// Directory of this service's pid record.
    pub fn pid_dir(&self) -> (r: String)
        ensures
            r@ == pid_dir_of(self.name@),
    {
        "/var/run/sinitc/".to_owned().concat(self.name.as_str())
    }

    /// Well-known path of this service's pid record.
    pub fn pid_path(&self) -> (r: String)
        ensures
            r@ == pid_path_of(self.name@),
    {
        self.pid_dir().concat("/service.pid")
    }

    /// Directory of this service's captured output.
    pub fn log_dir(&self) -> (r: String)
        ensures
            r@ == log_dir_of(self.name@),
    {
        "/var/log/sinitc/".to_owned().concat(self.name.as_str())
    }

    /// Path of one captured stream (`stdout` or `stderr`) of this service.
    pub fn log_path(&self, stream: &str) -> (r: String)
        ensures
            r@ == log_path_of(self.name@, stream@),
    {
        self.log_dir().concat("/").concat(stream)
    }

    /// Reads the pid out of this service's pid record content: the decimal
    /// value on its first line. A record's presence does not promise that the
    /// process is still alive; that weak invariant is deliberate.
    pub fn pid(&self, record: &str) -> (r: Result<u32, SupervisorError>)
        ensures
            r is Ok <==> pid_of_record(record@) is Some,
            r matches Ok(p) ==> pid_of_record(record@) == Some(p),
            r matches Err(e) ==> e == SupervisorError::PersistentStateError,
    {
        match text::parse_pid_record(record) {
            Some(p) => Ok(p),
            None => Err(SupervisorError::PersistentStateError),
        }
    }

    /// Builds the start plan for this service: the command with its parsed
    /// environment overrides, and the log and pid locations to prepare. An
    /// override with no `=` is a configuration error and stops the start.
    pub fn start(&self) -> (r: Result<StartPlan, SupervisorError>)
        ensures
            r is Ok <==> env_ok(*self),
            r matches Ok(p) ==> plan_matches(p, *self),
            r matches Err(e) ==> e == SupervisorError::EnvParseError,
    {
        let env: Vec<(String, String)> = match &self.command.environment {
            Some(es) => match text::parse_env_entries(es) {
                Ok(pairs) => pairs,
                Err(e) => {
                    return Err(e);
                },
            },
            None => Vec::new(),
        };
        let args: Vec<String> = match &self.command.options {
            Some(opts) => copy_strings(opts),
            None => Vec::new(),
        };
        Ok(
            StartPlan {
                path: self.command.path.clone(),
                args,
                env,
                log_dir: self.log_dir(),
                stdout_path: self.log_path("stdout"),
                stderr_path: self.log_path("stderr"),
                pid_dir: self.pid_dir(),
                pid_path: self.pid_path(),
            },
        )
    }

    /// Delivers a termination signal to the given process-table entry,
    /// without waiting for it to exit and with no escalation to a forceful
    /// kill. The result says whether the signal could be sent.
    pub fn stop(&self, process: &sysinfo::Process) -> bool {
        process_control::send_term(process)
    }

    /// Turns one captured stream's content back into lines. A stream that was
    /// never captured (`None`) is an empty sequence, never an error.
    pub fn logs(&self, content: Option<&str>) -> (r: Vec<String>)
        ensures
            content is None ==> r@.len() == 0,
            content matches Some(t) ==> views_of(r@) == spec_lines(t@),
    {
        match content {
            None => Vec::new(),
            Some(t) => text::split_lines(t),
        }
    }
}

/// True when some service in `services` is named `name`.
pub open spec fn has_service(services: Seq<Service>, name: Seq<char>) -> bool {
    exists|i: int| 0 <= i < services.len() && services[i].name@ == name
}

/// Index of the first service named `name`, or `services.len()` when there is
/// none.
pub open spec fn service_index(services: Seq<Service>, name: Seq<char>) -> int
    decreases services.len(),
{
    if services.len() == 0 {
        0
    } else if services[0].name@ == name {
        0
    } else {
        1 + service_index(services.drop_first(), name)
    }
}

/// The first service named `name`; meaningful only when `has_service` holds.
pub open spec fn found_service(services: Seq<Service>, name: Seq<char>) -> Service {
    services[service_index(services, name)]
}

/// `service_index` lies in `[0, services.len()]`, points at the first match
/// when one exists, and equals `services.len()` otherwise.
pub proof fn lemma_service_index(services: Seq<Service>, name: Seq<char>)
    ensures
        0 <= service_index(services, name) <= services.len(),
        has_service(services, name) ==> service_index(services, name) < services.len()
            && services[service_index(services, name)].name@ == name,
        forall|j: int| 0 <= j < service_index(services, name) ==> services[j].name@ != name,
        !has_service(services, name) ==> service_index(services, name) == services.len(),
    decreases services.len(),
{
    if services.len() == 0 {
    } else if services[0].name@ == name {
    } else {
        lemma_service_index(services.drop_first(), name);
        if has_service(services, name) {
            let w = choose|i: int| 0 <= i < services.len() && services[i].name@ == name;
            assert(services.drop_first()[w - 1].name@ == name);
        }
        if has_service(services.drop_first(), name) {
            let w = choose|i: int|
                0 <= i < services.drop_first().len() && services.drop_first()[i].name@ == name;
            assert(services[w + 1].name@ == name);
        }
        assert forall|j: int| 0 <= j < service_index(services, name) implies services[j].name@
            != name by {
            if j > 0 {
                assert(services.drop_first()[j - 1].name@ != name);
            }
        }
    }
}

/// True when no two services share a name.
pub open spec fn unique_names(services: Seq<Service>) -> bool {
    forall|i: int, j: int|
        0 <= i < j < services.len() ==> services[i].name@ != services[j].name@
}

/// The names of `services`, in registry order.
pub open spec fn spec_init_names(services: Seq<Service>) -> Seq<Seq<char>> {
    Seq::new(services.len(), |i: int| services[i].name@)
}

/// The loaded set of service definitions, fixed for the life of the process.
pub struct ServiceRegistry {
    pub services: Vec<Service>,
}

impl ServiceRegistry {
    /// Wraps an already-loaded, ordered set of service definitions.
    /// Discovery — enumerating and parsing the declaration files — happens
    /// outside the library and hands its result here. The loader must reject
    /// duplicate names (see `has_unique_names`): lookup is first-match, so a
    /// duplicate would be silently shadowed.
    pub fn new(services: Vec<Service>) -> (r: Self)
        ensures
            r.services@ == services@,
    {
        ServiceRegistry { services }
    }

    /// True when no two loaded services share a name: the invariant the
    /// loader enforces before construction.
    pub fn has_unique_names(&self) -> (r: bool)
        ensures
            r == unique_names(self.services@),
    {
        let n = self.services.len();
        let mut i: usize = 0;
        while i < n
            invariant
                n == self.services@.len(),
                0 <= i <= n,
                forall|p: int, q: int|
                    0 <= p < q < n && p < i ==> self.services@[p].name@ != self.services@[q].name@,
            decreases n - i,
        {
            let mut j: usize = i + 1;
            while j < n
                invariant
                    n == self.services@.len(),
                    0 <= i < j <= n,
                    forall|q: int| i < q < j ==> self.services@[i as int].name@
                        != self.services@[q].name@,
                decreases n - j,
            {
                if text::str_eq(self.services[i].name.as_str(), self.services[j].name.as_str()) {
                    return false;
                }
                j += 1;
            }
            i += 1;
        }
        true
    }

    /// Looks the service named `name` up; the first match wins. An unknown
    /// name signals `ServiceNotFound`.
    pub fn find(&self, name: &str) -> (r: Result<&Service, SupervisorError>)
        ensures
            r is Ok <==> has_service(self.services@, name@),
            r matches Ok(s) ==> *s == found_service(self.services@, name@),
            r matches Err(e) ==> e == SupervisorError::ServiceNotFound,
    {
        let n = self.services.len();
        let mut i: usize = 0;
        while i < n
            invariant
                n == self.services@.len(),
                0 <= i <= n,
                forall|j: int| 0 <= j < i ==> self.services@[j].name@ != name@,
            decreases n - i,
        {
            if text::str_eq(self.services[i].name.as_str(), name) {
                proof {
                    lemma_service_index(self.services@, name@);
                    let e = service_index(self.services@, name@);
                    if e < i {
                        assert(self.services@[e].name@ != name@);
                    }
                    if i < e {
                        assert(self.services@[i as int].name@ != name@);
                    }
                }
                return Ok(&self.services[i]);
            }
            i += 1;
        }
        Err(SupervisorError::ServiceNotFound)
    }

    /// The OS-reported state of `pid`, from a fresh process-table snapshot,
    /// or nothing when the pid is absent from the table.
    pub fn status_by_pid(&self, pid: u32) -> (r: Option<String>) {
        process_control::query(pid)
    }

    /// Reports the state of the service named `name`, given the current
    /// content of its pid record (`None` when no record exists). No record
    /// means Stopped; a record whose pid is gone from the process table means
    /// Unknown — stale, distinct from Stopped; otherwise the OS-reported
    /// state, verbatim. A record without a decimal pid on its first line
    /// signals `PersistentStateError`.
    pub fn status(&self, name: &str, pid_record: Option<&str>) -> (r: Result<
        ServiceStatus,
        SupervisorError,
    >)
        ensures
            r == Err::<ServiceStatus, SupervisorError>(SupervisorError::ServiceNotFound) <==> !has_service(
                self.services@,
                name@,
            ),
            has_service(self.services@, name@) ==> match pid_record {
                None => r == Ok::<ServiceStatus, SupervisorError>(ServiceStatus::Stopped),
                Some(t) => match pid_of_record(t@) {
                    None => r == Err::<ServiceStatus, SupervisorError>(
                        SupervisorError::PersistentStateError,
                    ),
                    Some(_) => r is Ok && (r->Ok_0 is Unknown || r->Ok_0 is Reported),
                },
            },
            r == Ok::<ServiceStatus, SupervisorError>(ServiceStatus::Stopped) ==> pid_record
                is None,
    {
        let service = match self.find(name) {
            Ok(s) => s,
            Err(e) => {
                return Err(e);
            },
        };
        match pid_record {
            None => Ok(classify_status(None, None)),
            Some(record) => {
                let pid = match service.pid(record) {
                    Ok(p) => p,
                    Err(e) => {
                        return Err(e);
                    },
                };
                let table_state = self.status_by_pid(pid);
                Ok(classify_status(Some(pid), table_state))
            },
        }
    }

    /// Builds the start plan for the service named `name`. Nothing checks
    /// that the service is not already running: a caller that executes two
    /// plans spawns two processes, and the second pid record overwrites the
    /// first, orphaning the first child — a documented hazard of the design.
    pub fn start(&self, name: &str) -> (r: Result<StartPlan, SupervisorError>)
        ensures
            r is Ok <==> has_service(self.services@, name@) && env_ok(
                found_service(self.services@, name@),
            ),
            r matches Ok(p) ==> plan_matches(p, found_service(self.services@, name@)),
            r matches Err(e) ==> (e == SupervisorError::ServiceNotFound <==> !has_service(
                self.services@,
                name@,
            )),
            r matches Err(e) ==> (e == SupervisorError::ServiceNotFound || e
                == SupervisorError::EnvParseError),
    {
        match self.find(name) {
            Ok(service) => service.start(),
            Err(e) => Err(e),
        }
    }

    /// Stops the service named `name`, given the current content of its pid
    /// record. With no record this is a no-op; with one, the recorded pid is
    /// looked up and signalled if present, without waiting for it to exit and
    /// with no escalation. Either way the caller then removes the record
    /// unconditionally — even when the process had already exited, and even
    /// though a reused pid may leave an unrelated process signalled.
    pub fn stop(&self, name: &str, pid_record: Option<&str>) -> (r: Result<
        StopOutcome,
        SupervisorError,
    >)
        ensures
            r == Err::<StopOutcome, SupervisorError>(SupervisorError::ServiceNotFound) <==> !has_service(
                self.services@,
                name@,
            ),
            has_service(self.services@, name@) ==> match pid_record {
                None => r == Ok::<StopOutcome, SupervisorError>(StopOutcome::NotRunning),
                Some(t) => match pid_of_record(t@) {
                    None => r == Err::<StopOutcome, SupervisorError>(
                        SupervisorError::PersistentStateError,
                    ),
                    Some(p) => r == Ok::<StopOutcome, SupervisorError>(StopOutcome::SignalSent(p))
                        || r == Ok::<StopOutcome, SupervisorError>(StopOutcome::AlreadyExited(p)),
                },
            },
            r == Ok::<StopOutcome, SupervisorError>(StopOutcome::NotRunning) ==> pid_record
                is None,
    {
        let service = match self.find(name) {
            Ok(s) => s,
            Err(e) => {
                return Err(e);
            },
        };
        match pid_record {
            None => Ok(StopOutcome::NotRunning),
            Some(record) => {
                let pid = match service.pid(record) {
                    Ok(p) => p,
                    Err(e) => {
                        return Err(e);
                    },
                };
                let signal_result = process_control::signal(pid);
                Ok(classify_stop(pid, signal_result))
            },
        }
    }

    /// Restarts the service named `name`: a stop followed immediately by a
    /// start, with no atomicity between the two; a failure of the stop does
    /// not prevent the start. The returned plan is the start's plan, and
    /// executing it replaces the pid record, so the stop's record removal is
    /// subsumed.
    pub fn restart(&self, name: &str, pid_record: Option<&str>) -> (r: Result<
        StartPlan,
        SupervisorError,
    >)
        ensures
            r is Ok <==> has_service(self.services@, name@) && env_ok(
                found_service(self.services@, name@),
            ),
            r matches Ok(p) ==> plan_matches(p, found_service(self.services@, name@)),
            r matches Err(e) ==> (e == SupervisorError::ServiceNotFound <==> !has_service(
                self.services@,
                name@,
            )),
            r matches Err(e) ==> (e == SupervisorError::ServiceNotFound || e
                == SupervisorError::EnvParseError),
    {
        let _ = self.stop(name, pid_record);
        self.start(name)
    }

    /// The lines of the named service's captured standard output, given the
    /// capture file's content. A service never started (`None`) has an empty
    /// sequence of lines, never an error.
    pub fn stdout(&self, name: &str, content: Option<&str>) -> (r: Result<
        Vec<String>,
        SupervisorError,
    >)
        ensures
            r is Ok <==> has_service(self.services@, name@),
            r matches Ok(lines) ==> match content {
                None => lines@.len() == 0,
                Some(t) => views_of(lines@) == spec_lines(t@),
            },
            r matches Err(e) ==> e == SupervisorError::ServiceNotFound,
    {
        match self.find(name) {
            Ok(service) => Ok(service.logs(content)),
            Err(e) => Err(e),
        }
    }

    /// The lines of the named service's captured standard error, given the
    /// capture file's content; as `stdout`.
    pub fn stderr(&self, name: &str, content: Option<&str>) -> (r: Result<
        Vec<String>,
        SupervisorError,
    >)
        ensures
            r is Ok <==> has_service(self.services@, name@),
            r matches Ok(lines) ==> match content {
                None => lines@.len() == 0,
                Some(t) => views_of(lines@) == spec_lines(t@),
            },
            r matches Err(e) ==> e == SupervisorError::ServiceNotFound,
    {
        match self.find(name) {
            Ok(service) => Ok(service.logs(content)),
            Err(e) => Err(e),
        }
    }

    /// The names to start in init mode, in registry order. The declared
    /// `after` hints play no part: nothing waits for one service before
    /// triggering the next.
    pub fn init_sequence(&self) -> (names: Vec<String>)
        ensures
            views_of(names@) == spec_init_names(self.services@),
    {
        let mut names: Vec<String> = Vec::new();
        let mut i: usize = 0;
        while i < self.services.len()
            invariant
                0 <= i <= self.services@.len(),
                names@.len() == i,
                forall|j: int| 0 <= j < i ==> (#[trigger] names@[j])@ == self.services@[j].name@,
            decreases self.services@.len() - i,
        {
            names.push(self.services[i].name.clone());
            i += 1;
        }
        proof {
            assert(views_of(names@) =~= spec_init_names(self.services@));
        }
        names
    }
}

/// Law: the `after` ordering hints are advisory only. Two registries whose
/// services agree name for name, in order, have the same init sequence,
/// whatever their `after` fields (or anything else in their definitions)
/// hold: no startup is ordered, or blocked, by a declared dependency.
pub proof fn lemma_after_is_advisory(a: Seq<Service>, b: Seq<Service>)
    requires
        a.len() == b.len(),
        forall|i: int| 0 <= i < a.len() ==> a[i].name@ == b[i].name@,
    ensures
        spec_init_names(a) == spec_init_names(b),
{
    assert(spec_init_names(a) =~= spec_init_names(b));
}

} // verus!
