use sinitc::services::{classify_status, classify_stop, CommandExec, Service, ServiceRegistry, ServiceStatus, StopOutcome};
use sinitc::SupervisorError;

// A pid above any the kernel hands out, so it is never in the process table.
const ABSENT_PID: u32 = u32::MAX;

fn service(name: &str) -> Service {
    Service {
        name: name.to_string(),
        after: None,
        command: CommandExec {
            path: "/bin/true".to_string(),
            options: Some(vec!["-v".to_string()]),
            environment: Some(vec!["K=V".to_string()]),
        },
        reload: None,
    }
}

fn registry() -> ServiceRegistry {
    ServiceRegistry::new(vec![service("web"), service("db")])
}

#[test]
fn unknown_name_is_rejected_by_every_operation() {
    let reg = registry();
    assert_eq!(reg.find("nosuch").unwrap_err(), SupervisorError::ServiceNotFound);
    assert_eq!(
        reg.status("nosuch", None).unwrap_err(),
        SupervisorError::ServiceNotFound
    );
    assert_eq!(reg.start("nosuch").unwrap_err(), SupervisorError::ServiceNotFound);
    assert_eq!(
        reg.stop("nosuch", None).unwrap_err(),
        SupervisorError::ServiceNotFound
    );
    assert_eq!(
        reg.restart("nosuch", None).unwrap_err(),
        SupervisorError::ServiceNotFound
    );
    assert_eq!(
        reg.stdout("nosuch", None).unwrap_err(),
        SupervisorError::ServiceNotFound
    );
    assert_eq!(
        reg.stderr("nosuch", None).unwrap_err(),
        SupervisorError::ServiceNotFound
    );
}

#[test]
fn find_returns_first_match() {
    let mut shadowed = service("web");
    shadowed.command.path = "/bin/false".to_string();
    let reg = ServiceRegistry::new(vec![service("web"), shadowed]);
    assert_eq!(reg.find("web").unwrap().command.path, "/bin/true".to_string());
    assert!(!reg.has_unique_names());
    assert!(registry().has_unique_names());
}

#[test]
fn status_without_record_is_stopped() {
    let reg = registry();
    assert!(matches!(reg.status("web", None).unwrap(), ServiceStatus::Stopped));
}

#[test]
fn status_with_stale_record_is_unknown() {
    let reg = registry();
    let record = format!("{}", ABSENT_PID);
    assert!(matches!(
        reg.status("web", Some(&record)).unwrap(),
        ServiceStatus::Unknown
    ));
}

#[test]
fn status_of_live_pid_reports_os_state() {
    let reg = registry();
    let own_pid = sysinfo::get_current_pid().unwrap().as_u32();
    let record = sinitc::text::pid_record_content(own_pid);
    match reg.status("web", Some(&record)).unwrap() {
        ServiceStatus::Reported(state) => assert!(!state.is_empty()),
        other => panic!("expected an OS-reported state, got {:?}", other),
    }
}

#[test]
fn status_with_malformed_record_is_a_state_error() {
    let reg = registry();
    assert_eq!(
        reg.status("web", Some("not a pid")).unwrap_err(),
        SupervisorError::PersistentStateError
    );
}

#[test]
fn stop_without_record_is_a_no_op() {
    let reg = registry();
    assert_eq!(reg.stop("web", None).unwrap(), StopOutcome::NotRunning);
}

#[test]
fn stop_twice_in_a_row_never_errors() {
    let reg = registry();
    let first = reg.stop("web", Some("4294967295"));
    assert!(first.is_ok());
    // the caller removes the record after any Ok outcome; the second stop
    // therefore sees none
    let second = reg.stop("web", None);
    assert_eq!(second.unwrap(), StopOutcome::NotRunning);
}

#[test]
fn stop_of_an_exited_pid_counts_as_already_stopped() {
    let reg = registry();
    assert_eq!(
        reg.stop("web", Some("4294967295")).unwrap(),
        StopOutcome::AlreadyExited(ABSENT_PID)
    );
}

#[test]
fn status_after_stop_is_not_running() {
    let reg = registry();
    let outcome = reg.stop("web", Some("4294967295")).unwrap();
    assert!(!matches!(outcome, StopOutcome::NotRunning));
    // any such outcome tells the caller to remove the record
    let st = reg.status("web", None).unwrap();
    assert!(matches!(st, ServiceStatus::Stopped));
}

#[test]
fn start_plan_holds_command_and_layout() {
    let reg = registry();
    let plan = reg.start("web").unwrap();
    assert_eq!(plan.path, "/bin/true".to_string());
    assert_eq!(plan.args, vec!["-v".to_string()]);
    assert_eq!(plan.env, vec![("K".to_string(), "V".to_string())]);
    assert_eq!(plan.log_dir, "/var/log/sinitc/web".to_string());
    assert_eq!(plan.stdout_path, "/var/log/sinitc/web/stdout".to_string());
    assert_eq!(plan.stderr_path, "/var/log/sinitc/web/stderr".to_string());
    assert_eq!(plan.pid_dir, "/var/run/sinitc/web".to_string());
    assert_eq!(plan.pid_path, "/var/run/sinitc/web/service.pid".to_string());
}

#[test]
fn start_signals_malformed_environment() {
    let mut bad = service("web");
    bad.command.environment = Some(vec!["NOEQUALS".to_string()]);
    let reg = ServiceRegistry::new(vec![bad]);
    assert_eq!(reg.start("web").unwrap_err(), SupervisorError::EnvParseError);
}

#[test]
fn restart_ignores_a_failing_stop() {
    let reg = registry();
    // a malformed record makes the stop fail; the start still goes through
    let plan = reg.restart("web", Some("garbage")).unwrap();
    assert_eq!(plan.path, "/bin/true".to_string());
}

#[test]
fn service_paths() {
    let s = service("web");
    assert_eq!(s.pid_path(), "/var/run/sinitc/web/service.pid".to_string());
    assert_eq!(s.pid_dir(), "/var/run/sinitc/web".to_string());
    assert_eq!(s.log_dir(), "/var/log/sinitc/web".to_string());
    assert_eq!(s.log_path("stdout"), "/var/log/sinitc/web/stdout".to_string());
}

#[test]
fn service_pid_reads_record() {
    let s = service("web");
    assert_eq!(s.pid("4321\n").unwrap(), 4321);
    assert_eq!(s.pid("").unwrap_err(), SupervisorError::PersistentStateError);
}

#[test]
fn logs_of_a_never_started_service_are_empty() {
    let reg = registry();
    assert_eq!(reg.stdout("web", None).unwrap(), Vec::<String>::new());
    assert_eq!(reg.stderr("web", None).unwrap(), Vec::<String>::new());
}

#[test]
fn logs_come_back_as_lines() {
    let reg = registry();
    let lines = reg.stdout("web", Some("hi\n")).unwrap();
    assert_eq!(lines, vec!["hi".to_string()]);
    let lines = reg.stderr("web", Some("warn: a\nwarn: b\n")).unwrap();
    assert_eq!(lines, vec!["warn: a".to_string(), "warn: b".to_string()]);
}

#[test]
fn init_sequence_is_registry_order_whatever_after_says() {
    let mut a = service("a");
    a.after = Some(vec!["b".to_string()]);
    let b = service("b");
    let reg = ServiceRegistry::new(vec![a, b]);
    // "a" declares it wants to come after "b", but the sequence stays the
    // registry order: the hint is advisory only
    assert_eq!(reg.init_sequence(), vec!["a".to_string(), "b".to_string()]);
}

#[test]
fn signalling_an_absent_pid_is_process_not_found() {
    assert_eq!(
        sinitc::process_control::signal(ABSENT_PID).unwrap_err(),
        SupervisorError::ProcessNotFound
    );
    assert!(sinitc::process_control::query(ABSENT_PID).is_none());
}

#[test]
fn status_classification_by_record_and_table() {
    assert!(matches!(classify_status(None, None), ServiceStatus::Stopped));
    assert!(matches!(
        classify_status(None, Some("Run".to_string())),
        ServiceStatus::Stopped
    ));
    assert!(matches!(classify_status(Some(7), None), ServiceStatus::Unknown));
    match classify_status(Some(7), Some("Sleep".to_string())) {
        ServiceStatus::Reported(state) => assert_eq!(state, "Sleep".to_string()),
        other => panic!("expected the table's state verbatim, got {:?}", other),
    }
}

#[test]
fn stop_classification_by_signal_answer() {
    assert_eq!(classify_stop(7, Ok(true)), StopOutcome::SignalSent(7));
    assert_eq!(classify_stop(7, Ok(false)), StopOutcome::SignalSent(7));
    assert_eq!(
        classify_stop(7, Err(SupervisorError::ProcessNotFound)),
        StopOutcome::AlreadyExited(7)
    );
}

#[test]
fn query_of_a_live_pid_answers() {
    let own_pid = sysinfo::get_current_pid().unwrap().as_u32();
    assert!(sinitc::process_control::query(own_pid).is_some());
}
