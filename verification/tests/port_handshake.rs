//! Handshake parsing and the stdout monitor step.

use sidecar_supervisor::logstore::{LogLevel, LogSource, LogStore};
use sidecar_supervisor::monitor::{on_stderr_line, on_stdout_line, on_stream_end, StdoutOutcome};
use sidecar_supervisor::port::parse_port_line;
use sidecar_supervisor::state::SupervisorState;

#[test]
fn port_line_updates_state() {
    let mut state = SupervisorState::new();
    let mut store = LogStore::new();
    let r = on_stdout_line(&mut state, &mut store, b"SIDECAR_PORT:54321".to_vec());
    assert_eq!(r, StdoutOutcome::PortPublished(54321));
    assert_eq!(state.get_port(), 54321);
    assert!(state.is_ready());
    assert_eq!(store.len(), 0);
}

#[test]
fn malformed_port_line_leaves_state_and_logs_error() {
    let mut state = SupervisorState::new();
    let mut store = LogStore::new();
    state.set_port(1234);
    let r = on_stdout_line(&mut state, &mut store, b"SIDECAR_PORT:notanumber".to_vec());
    assert_eq!(r, StdoutOutcome::MalformedPort);
    assert_eq!(state.get_port(), 1234);
    assert_eq!(store.len(), 1);
    assert_eq!(store.records[0].level, LogLevel::Error);
    assert_eq!(store.records[0].source, LogSource::Stdout);
}

#[test]
fn ordinary_line_is_forwarded() {
    let mut state = SupervisorState::new();
    let mut store = LogStore::new();
    let r = on_stdout_line(&mut state, &mut store, b"listening soon".to_vec());
    assert_eq!(r, StdoutOutcome::Forwarded);
    assert_eq!(state.get_port(), 0);
    assert!(!state.is_ready());
    assert_eq!(store.len(), 1);
    assert_eq!(store.records[0].level, LogLevel::Info);
    assert_eq!(store.records[0].message, b"listening soon".to_vec());
}

#[test]
fn parse_port_line_exact_values() {
    assert_eq!(parse_port_line(&b"SIDECAR_PORT:54321".to_vec()), Some(54321));
    assert_eq!(parse_port_line(&b"SIDECAR_PORT:0".to_vec()), Some(0));
    assert_eq!(parse_port_line(&b"SIDECAR_PORT:65535".to_vec()), Some(65535));
    assert_eq!(parse_port_line(&b"SIDECAR_PORT:0054321".to_vec()), Some(54321));
}

#[test]
fn parse_port_line_rejects_malformed() {
    assert_eq!(parse_port_line(&b"SIDECAR_PORT:".to_vec()), None);
    assert_eq!(parse_port_line(&b"SIDECAR_PORT:65536".to_vec()), None);
    assert_eq!(parse_port_line(&b"SIDECAR_PORT:99999999999999".to_vec()), None);
    assert_eq!(parse_port_line(&b"SIDECAR_PORT:12x3".to_vec()), None);
    assert_eq!(parse_port_line(&b"SIDECAR_PORT 1234".to_vec()), None);
    assert_eq!(parse_port_line(&b"sidecar_port:1234".to_vec()), None);
    assert_eq!(parse_port_line(&b"".to_vec()), None);
    assert_eq!(parse_port_line(&b"ready".to_vec()), None);
}

#[test]
fn last_published_port_wins() {
    let mut state = SupervisorState::new();
    let mut store = LogStore::new();
    on_stdout_line(&mut state, &mut store, b"SIDECAR_PORT:1000".to_vec());
    on_stdout_line(&mut state, &mut store, b"SIDECAR_PORT:2000".to_vec());
    assert_eq!(state.get_port(), 2000);
}

#[test]
fn stderr_lines_are_logged() {
    let mut store = LogStore::new();
    on_stderr_line(&mut store, b"something failed".to_vec());
    assert_eq!(store.len(), 1);
    assert_eq!(store.records[0].source, LogSource::Stderr);
    assert_eq!(store.records[0].level, LogLevel::Error);
    assert_eq!(store.records[0].message, b"something failed".to_vec());
}

#[test]
fn stream_end_is_a_warning() {
    let mut store = LogStore::new();
    on_stream_end(&mut store, LogSource::Stdout, b"stdout closed".to_vec());
    assert_eq!(store.len(), 1);
    assert_eq!(store.records[0].level, LogLevel::Warn);
}
