//! Supervisor state: diagnostics snapshots and the stop lifecycle.

use sidecar_supervisor::state::SupervisorState;

#[test]
fn diagnostics_safe_before_any_launch() {
    let state = SupervisorState::new();
    let d = state.get_diagnostics();
    assert_eq!(d.port, 0);
    assert!(!d.ready);
    assert!(d.startup_error.is_none());
    assert!(!d.process_running);
    assert!(d.config_dir.is_none());
    assert!(d.log_file_path.is_none());
}

#[test]
fn stop_resets_port_and_handle_regardless_of_prior_state() {
    let mut state = SupervisorState::new();
    state.record_spawn(7);
    state.set_port(54321);
    assert!(state.is_ready());
    let had = state.stop();
    assert_eq!(had, Some(7));
    assert_eq!(state.get_port(), 0);
    assert!(!state.is_ready());
    assert!(!state.get_diagnostics().process_running);
}

#[test]
fn stop_is_idempotent() {
    let mut state = SupervisorState::new();
    let had = state.stop();
    assert_eq!(had, None);
    assert_eq!(state.get_port(), 0);
    assert!(!state.is_ready());
    let had = state.stop();
    assert_eq!(had, None);
    assert_eq!(state.get_port(), 0);
}

#[test]
fn startup_error_clears_port_and_handle() {
    let mut state = SupervisorState::new();
    state.record_spawn(9);
    state.set_port(8080);
    state.record_startup_error("no worker artifact found".to_string());
    let d = state.get_diagnostics();
    assert_eq!(d.port, 0);
    assert!(!d.ready);
    assert!(!d.process_running);
    assert_eq!(d.startup_error.as_deref(), Some("no worker artifact found"));
}

#[test]
fn spawn_clears_previous_error() {
    let mut state = SupervisorState::new();
    state.record_startup_error("transient".to_string());
    state.record_spawn(3);
    let d = state.get_diagnostics();
    assert!(d.process_running);
    assert!(d.startup_error.is_none());
}

#[test]
fn published_fields_reach_diagnostics() {
    let mut state = SupervisorState::new();
    state.set_config_dir("/home/me/.worker".to_string());
    state.set_log_file_path("/home/me/.worker/log.txt".to_string());
    state.set_runtime_desc("python 3.12".to_string());
    let d = state.get_diagnostics();
    assert_eq!(d.config_dir.as_deref(), Some("/home/me/.worker"));
    assert_eq!(d.log_file_path.as_deref(), Some("/home/me/.worker/log.txt"));
    assert_eq!(d.runtime_desc.as_deref(), Some("python 3.12"));
    assert_eq!(state.get_config_dir().as_deref(), Some("/home/me/.worker"));
}
