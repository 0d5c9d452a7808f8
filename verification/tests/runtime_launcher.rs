//! Runtime discovery, path splitting and joining, launch-command building,
//! and the log store.

use sidecar_supervisor::errors::SupervisorError;
use sidecar_supervisor::launcher::{build_command, config_dir_flag, Platform};
use sidecar_supervisor::locator::ArtifactKind;
use sidecar_supervisor::logstore::{should_rotate, LogLevel, LogRecord, LogSource, LogStore};
use sidecar_supervisor::paths::{join_components, split_separated};
use sidecar_supervisor::runtime::{concat_candidates, select_runtime};

#[test]
fn search_path_splits_on_the_separator() {
    let parts = split_separated(&b"/usr/local/bin:/usr/bin:/bin".to_vec(), b':');
    assert_eq!(
        parts,
        vec![b"/usr/local/bin".to_vec(), b"/usr/bin".to_vec(), b"/bin".to_vec()]
    );
}

#[test]
fn empty_search_path_is_one_empty_entry() {
    let parts = split_separated(&b"".to_vec(), b':');
    assert_eq!(parts, vec![b"".to_vec()]);
}

#[test]
fn windows_style_separator_works_too() {
    let parts = split_separated(&b"C,D,E".to_vec(), b',');
    assert_eq!(parts, vec![b"C".to_vec(), b"D".to_vec(), b"E".to_vec()]);
}

#[test]
fn components_join_with_the_separator() {
    let components = vec![b"opt".to_vec(), b"app".to_vec(), b"worker-bin".to_vec()];
    assert_eq!(join_components(&components, b'/'), b"opt/app/worker-bin".to_vec());
    assert_eq!(join_components(&Vec::new(), b'/'), b"".to_vec());
}

#[test]
fn split_and_join_round_trip() {
    let parts = vec![b"usr".to_vec(), b"local".to_vec(), b"bin".to_vec()];
    let joined = join_components(&parts, b':');
    assert_eq!(split_separated(&joined, b':'), parts);
}

#[test]
fn first_working_runtime_wins() {
    let candidates = concat_candidates(
        &vec![b"/opt/python/bin/python3".to_vec()],
        &vec![b"/usr/bin/python3".to_vec(), b"/usr/local/bin/python3".to_vec()],
    );
    // The well-known path does not exist; the first search-path entry exists
    // but fails its version probe; the second one works.
    let exists = vec![false, true, true];
    let probe_ok = vec![true, false, true];
    let (i, path) = select_runtime(&candidates, &exists, &probe_ok).expect("a runtime works");
    assert_eq!(i, 2);
    assert_eq!(path, b"/usr/local/bin/python3".to_vec());
}

#[test]
fn no_working_runtime_is_its_own_error() {
    let candidates = vec![b"/usr/bin/python3".to_vec()];
    let r = select_runtime(&candidates, &vec![true], &vec![false]);
    assert_eq!(r.err(), Some(SupervisorError::RuntimeNotFound));
}

#[test]
fn standalone_command_invokes_the_artifact() {
    let cmd = build_command(
        &b"/opt/app/worker-bin".to_vec(),
        ArtifactKind::Standalone,
        &None,
        &b"/home/me/.worker".to_vec(),
        &b"/opt/app".to_vec(),
        Platform::Unix,
    )
    .expect("standalone artifacts need no runtime");
    assert_eq!(cmd.program, b"/opt/app/worker-bin".to_vec());
    assert_eq!(cmd.args, vec![b"--config-dir".to_vec(), b"/home/me/.worker".to_vec()]);
    assert_eq!(cmd.working_dir, b"/opt/app".to_vec());
    assert_eq!(cmd.env_var, b"SIDECAR_CONFIG_DIR".to_vec());
    assert_eq!(cmd.env_value, b"/home/me/.worker".to_vec());
    assert!(!cmd.no_window);
}

#[test]
fn script_command_runs_runtime_then_script() {
    let cmd = build_command(
        &b"/opt/app/worker.js".to_vec(),
        ArtifactKind::ScriptRequiringRuntime,
        &Some(b"/usr/bin/node".to_vec()),
        &b"/home/me/.worker".to_vec(),
        &b"/opt/app".to_vec(),
        Platform::Windows,
    )
    .expect("a runtime was resolved");
    assert_eq!(cmd.program, b"/usr/bin/node".to_vec());
    assert_eq!(
        cmd.args,
        vec![
            b"/opt/app/worker.js".to_vec(),
            b"--config-dir".to_vec(),
            b"/home/me/.worker".to_vec()
        ]
    );
    assert!(cmd.no_window);
}

#[test]
fn script_without_runtime_fails_to_launch() {
    let r = build_command(
        &b"/opt/app/worker.js".to_vec(),
        ArtifactKind::ScriptRequiringRuntime,
        &None,
        &b"/home/me/.worker".to_vec(),
        &b"/opt/app".to_vec(),
        Platform::Unix,
    );
    assert_eq!(r.err(), Some(SupervisorError::RuntimeNotFound));
}

#[test]
fn config_dir_flag_spelling() {
    assert_eq!(config_dir_flag(), b"--config-dir".to_vec());
}

#[test]
fn recent_messages_returns_the_tail_oldest_first() {
    let mut store = LogStore::new();
    for n in 0..5u8 {
        store.append(LogRecord {
            source: LogSource::Stdout,
            level: LogLevel::Info,
            message: vec![b'0' + n],
        });
    }
    let tail = store.recent_messages(3);
    assert_eq!(tail, vec![b"2".to_vec(), b"3".to_vec(), b"4".to_vec()]);
    let all = store.recent_messages(99);
    assert_eq!(all.len(), 5);
    assert_eq!(all[0], b"0".to_vec());
}

#[test]
fn rotation_threshold_is_five_megabytes() {
    assert!(!should_rotate(0));
    assert!(!should_rotate(5 * 1024 * 1024 - 1));
    assert!(should_rotate(5 * 1024 * 1024));
    assert!(should_rotate(u64::MAX));
}
