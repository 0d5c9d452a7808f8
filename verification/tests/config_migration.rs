//! Config-directory resolution and the one-time legacy migration.

use sidecar_supervisor::config_dir::{
    apply_migration, choose_config_dir, migration_items, plan_migration, ConfigDirChoice,
};
use sidecar_supervisor::errors::SupervisorError;

#[test]
fn stable_directory_is_preferred() {
    assert_eq!(choose_config_dir(true, true), Ok(ConfigDirChoice::Stable));
    assert_eq!(choose_config_dir(true, false), Ok(ConfigDirChoice::Stable));
}

#[test]
fn fallback_only_when_stable_unwritable() {
    assert_eq!(choose_config_dir(false, true), Ok(ConfigDirChoice::Fallback));
}

#[test]
fn no_writable_location_is_a_resolution_error() {
    assert_eq!(choose_config_dir(false, false), Err(SupervisorError::ResolutionFailed));
}

#[test]
fn known_migration_items() {
    let items = migration_items();
    assert_eq!(items, vec!["config.jsonc", "autosave.xml", "scripts"]);
}

#[test]
fn migration_copies_only_missing_items() {
    // config.jsonc exists only at the legacy source; autosave.xml exists on
    // both sides; scripts exists only at the destination.
    let legacy = vec![true, true, false];
    let dest = vec![false, true, true];
    let copy = plan_migration(true, true, &legacy, &dest);
    assert_eq!(copy, vec![true, false, false]);
}

#[test]
fn existing_destination_is_never_overwritten() {
    let legacy = vec![true, true, true];
    let dest = vec![true, true, true];
    let copy = plan_migration(true, true, &legacy, &dest);
    assert_eq!(copy, vec![false, false, false]);
}

#[test]
fn migration_runs_only_when_stable_directory_is_new() {
    let legacy = vec![true, true, true];
    let dest = vec![false, false, false];
    assert_eq!(plan_migration(false, true, &legacy, &dest), vec![false, false, false]);
    assert_eq!(plan_migration(true, false, &legacy, &dest), vec![false, false, false]);
}

#[test]
fn running_migration_twice_copies_nothing_more() {
    let legacy = vec![true, false, true];
    let dest = vec![false, false, true];
    let first = plan_migration(true, true, &legacy, &dest);
    assert_eq!(first, vec![true, false, false]);
    let after = apply_migration(&dest, &first);
    assert_eq!(after, vec![true, false, true]);
    // A second run — even one that again believes the stable directory to be
    // newly created — copies nothing and changes nothing.
    let second = plan_migration(true, true, &legacy, &after);
    assert_eq!(second, vec![false, false, false]);
    let after_second = apply_migration(&after, &second);
    assert_eq!(after_second, after);
}
