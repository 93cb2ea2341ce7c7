use v2up::errors::ErrorKind;
use v2up::process::{pidfile_text, read_pidfile, Process, ProcessState, SignalOutcome};

fn process(pid: u32, alive: bool) -> Process {
    Process::new(
        "v2ray".to_string(),
        vec!["-config".to_string(), "/tmp/v2ray.json".to_string()],
        "/tmp/v2ray.pid".to_string(),
        pid,
        alive,
    )
}

#[test]
fn stop_of_missing_process_succeeds() {
    let mut p = process(424242, false);
    assert_eq!(p.state(), ProcessState::Stopped);
    assert!(p.stop(SignalOutcome::NoSuchProcess).is_ok());
    assert_eq!(p.state(), ProcessState::Stopped);
    assert_eq!(p.pid(), 424242);
}

#[test]
fn stop_delivered_stops() {
    let mut p = process(77, true);
    assert_eq!(p.state(), ProcessState::Running);
    assert_eq!(p.signal_target(), Some(77));
    p.stop(SignalOutcome::Delivered).unwrap();
    assert_eq!(p.state(), ProcessState::Stopped);
}

#[test]
fn stop_refused_is_error() {
    let mut p = process(77, true);
    let err = p.stop(SignalOutcome::Failed(1)).unwrap_err();
    assert_eq!(err.kind, ErrorKind::ProcessSignalError);
    assert_eq!(p.state(), ProcessState::Running);
}

#[test]
fn no_signal_without_pid() {
    let p = process(0, true);
    assert_eq!(p.state(), ProcessState::Stopped);
    assert_eq!(p.signal_target(), None);
    assert_eq!(process(u32::MAX, true).signal_target(), None);
}

#[test]
fn start_records_pid() {
    let mut p = process(12, false);
    let text = p.start(Some(31337)).unwrap();
    assert_eq!(text, "31337");
    assert_eq!(p.pid(), 31337);
    assert_eq!(p.state(), ProcessState::Running);
    assert_eq!(p.pidfile(), "/tmp/v2ray.pid");
    assert_eq!(p.program(), "v2ray");
}

#[test]
fn failed_spawn_changes_nothing() {
    let mut p = process(12, false);
    assert_eq!(p.start(None).unwrap_err().kind, ErrorKind::StartError);
    assert_eq!(p.pid(), 12);
    assert_eq!(p.state(), ProcessState::Stopped);
}

#[test]
fn liveness_is_a_query() {
    let p = process(5, true);
    assert!(!p.exist(false));
    assert_eq!(p.state(), ProcessState::Running);
    assert!(p.exist(true));
    assert!(!process(0, true).exist(true));
}

#[test]
fn command_line_is_kept() {
    let p = process(5, true);
    assert_eq!(p.args(), &vec!["-config".to_string(), "/tmp/v2ray.json".to_string()]);
}

#[test]
fn pidfile_reading() {
    assert_eq!(read_pidfile(None), 0);
    assert_eq!(read_pidfile(Some("")), 0);
    assert_eq!(read_pidfile(Some("1234\n")), 1234);
    assert_eq!(read_pidfile(Some("  88 ")), 88);
    assert_eq!(read_pidfile(Some("12a")), 0);
    assert_eq!(read_pidfile(Some("99999999999")), 0);
}

#[test]
fn pidfile_writing() {
    assert_eq!(pidfile_text(0), "0");
    assert_eq!(pidfile_text(7), "7");
    assert_eq!(pidfile_text(4294967295), "4294967295");
    assert_eq!(read_pidfile(Some(&pidfile_text(90210))), 90210);
}
