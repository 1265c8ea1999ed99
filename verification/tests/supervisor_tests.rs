use port_discovery::cell::{NotReadyError, PortCell};
use port_discovery::supervisor::{ChildEvent, ExitStatus, Supervisor};

fn stdout(line: &str) -> ChildEvent {
    ChildEvent::StdoutLine(line.as_bytes().to_vec())
}

fn stderr(line: &str) -> ChildEvent {
    ChildEvent::StderrLine(line.as_bytes().to_vec())
}

fn terminated(code: i32) -> ChildEvent {
    ChildEvent::Terminated(ExitStatus { code: Some(code), signal: None })
}

#[test]
fn readiness_line_publishes_port_and_navigates() {
    let mut sup = Supervisor::new();
    let mut cell = PortCell::new();
    sup.note_spawned();
    let events = vec![
        stdout("Starting up..."),
        stdout("Server running on http://127.0.0.1:54231"),
    ];
    let directives = sup.drive(&mut cell, &events);
    assert_eq!(directives.len(), 1);
    assert_eq!(directives[0].url, "http://127.0.0.1:54231");
    assert_eq!(cell.read(), Some(54231));
    assert_eq!(cell.get_port(), Ok(54231));
    assert_eq!(sup.port(), Some(54231));
    assert!(sup.is_running());
}

#[test]
fn duplicate_readiness_lines_notify_only_once() {
    let mut sup = Supervisor::new();
    let mut cell = PortCell::new();
    sup.note_spawned();
    let events = vec![
        stdout("Server running on http://127.0.0.1:54231"),
        stdout("Server running on http://127.0.0.1:54231"),
        stdout("Server running on http://127.0.0.1:9999"),
        terminated(0),
    ];
    let directives = sup.drive(&mut cell, &events);
    assert_eq!(directives.len(), 1);
    assert_eq!(directives[0].url, "http://127.0.0.1:54231");
    assert_eq!(cell.read(), Some(54231));
    assert!(sup.is_terminated());
    assert_eq!(sup.port(), Some(54231));
}

#[test]
fn diagnostic_lines_then_nonzero_exit_leaves_cell_empty() {
    let mut sup = Supervisor::new();
    let mut cell = PortCell::new();
    sup.note_spawned();
    let events = vec![
        stdout("Starting up..."),
        stderr("warning: no config found"),
        stdout("still waiting"),
        terminated(1),
    ];
    let directives = sup.drive(&mut cell, &events);
    assert!(directives.is_empty());
    assert!(sup.is_terminated());
    assert_eq!(cell.read(), None);
    assert_eq!(cell.get_port(), Err(NotReadyError));
}

#[test]
fn stderr_lines_are_never_parsed_for_readiness() {
    let mut sup = Supervisor::new();
    let mut cell = PortCell::new();
    sup.note_spawned();
    let events = vec![stderr("Server running on http://127.0.0.1:54231")];
    let directives = sup.drive(&mut cell, &events);
    assert!(directives.is_empty());
    assert_eq!(cell.read(), None);
    assert!(sup.is_running());
}

#[test]
fn process_error_ends_supervision() {
    let mut sup = Supervisor::new();
    let mut cell = PortCell::new();
    sup.note_spawned();
    let events = vec![
        ChildEvent::ProcessError("broken pipe".to_string()),
        stdout("Server running on http://127.0.0.1:54231"),
    ];
    let directives = sup.drive(&mut cell, &events);
    assert!(directives.is_empty());
    assert!(sup.is_terminated());
    assert_eq!(cell.get_port(), Err(NotReadyError));
}

#[test]
fn spawn_failure_never_starts_supervision() {
    let mut sup = Supervisor::new();
    let cell = PortCell::new();
    sup.note_spawn_failed();
    assert!(sup.spawn_failed());
    assert!(!sup.is_running());
    assert_eq!(sup.port(), None);
    assert_eq!(cell.get_port(), Err(NotReadyError));
}

#[test]
fn events_after_the_terminal_one_are_not_processed() {
    let mut sup = Supervisor::new();
    let mut cell = PortCell::new();
    sup.note_spawned();
    let events = vec![
        terminated(0),
        stdout("Server running on http://127.0.0.1:54231"),
    ];
    let directives = sup.drive(&mut cell, &events);
    assert!(directives.is_empty());
    assert_eq!(cell.read(), None);
}

#[test]
fn port_becomes_known_exactly_at_the_first_match() {
    let mut sup = Supervisor::new();
    let mut cell = PortCell::new();
    sup.note_spawned();
    let before = sup.drive(&mut cell, &vec![stdout("Starting up...")]);
    assert!(before.is_empty());
    assert_eq!(cell.get_port(), Err(NotReadyError));
    let after = sup.drive(&mut cell, &vec![stdout("Server running on http://127.0.0.1:4000")]);
    assert_eq!(after.len(), 1);
    assert_eq!(cell.get_port(), Ok(4000));
}
