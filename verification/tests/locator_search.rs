//! The sidecar locator: search order, priority, and the not-found bound.

use sidecar_supervisor::errors::SupervisorError;
use sidecar_supervisor::locator::{
    build_plan, locate, ArtifactKind, LocatorConfig, Probe, ProbeRule,
};

fn test_config() -> LocatorConfig {
    LocatorConfig {
        binary_name: b"worker-bin".to_vec(),
        bundle_dir: b"bundle".to_vec(),
        script_name: b"worker.js".to_vec(),
        dev_dir: b"src".to_vec(),
    }
}

fn root(components: &[&str]) -> Vec<Vec<u8>> {
    components.iter().map(|c| c.as_bytes().to_vec()).collect()
}

fn path_of(probe: &Probe) -> Vec<Vec<u8>> {
    probe.path.clone()
}

#[test]
fn empty_search_fails_after_the_whole_plan() {
    let cfg = test_config();
    let roots = vec![root(&["opt", "app", "resources"]), root(&["home", "me", "app"])];
    let plan = build_plan(&cfg, &roots);
    // 2 roots x 6 levels x 4 rules: the full bound, no more.
    assert_eq!(plan.len(), 2 * 6 * 4);
    let present = vec![false; plan.len()];
    let r = locate(&plan, &present);
    assert_eq!(r.err(), Some(SupervisorError::ArtifactNotFound));
}

#[test]
fn standalone_binary_beats_bundled_script_at_same_level() {
    let cfg = test_config();
    let roots = vec![root(&["opt", "app"])];
    let plan = build_plan(&cfg, &roots);
    let mut present = vec![false; plan.len()];
    // Level 0 of the only root: both the standalone binary (rule 0) and the
    // bundled script (rule 2) exist.
    present[0] = true;
    present[2] = true;
    let artifact = locate(&plan, &present).expect("an artifact exists");
    assert_eq!(artifact.kind, ArtifactKind::Standalone);
    assert_eq!(artifact.path, root(&["opt", "app", "worker-bin"]));
    assert_eq!(artifact.working_root, root(&["opt", "app"]));
}

#[test]
fn plan_probes_in_priority_order_per_level() {
    let cfg = test_config();
    let roots = vec![root(&["opt", "app"])];
    let plan = build_plan(&cfg, &roots);
    assert_eq!(plan[0].rule, ProbeRule::DirectBinary);
    assert_eq!(plan[1].rule, ProbeRule::BundledBinary);
    assert_eq!(plan[2].rule, ProbeRule::BundledScript);
    assert_eq!(plan[3].rule, ProbeRule::DevScript);
    assert_eq!(path_of(&plan[0]), root(&["opt", "app", "worker-bin"]));
    assert_eq!(path_of(&plan[1]), root(&["opt", "app", "bundle", "worker-bin"]));
    assert_eq!(path_of(&plan[2]), root(&["opt", "app", "worker.js"]));
    assert_eq!(path_of(&plan[3]), root(&["opt", "app", "src", "worker.js"]));
}

#[test]
fn walk_goes_upward_level_by_level() {
    let cfg = test_config();
    let roots = vec![root(&["a", "b", "c"])];
    let plan = build_plan(&cfg, &roots);
    // Level 1 begins at probe 4: the parent directory.
    assert_eq!(plan[4].level, 1);
    assert_eq!(path_of(&plan[4]), root(&["a", "b", "worker-bin"]));
    // Level 3 walks past the root of the path: empty directory prefix.
    assert_eq!(path_of(&plan[3 * 4]), root(&["worker-bin"]));
    assert_eq!(path_of(&plan[4 * 4]), root(&["worker-bin"]));
}

#[test]
fn earlier_root_wins_over_later_root() {
    let cfg = test_config();
    let roots = vec![root(&["first"]), root(&["second"])];
    let plan = build_plan(&cfg, &roots);
    let mut present = vec![false; plan.len()];
    // The standalone binary exists at level 0 of both roots.
    present[0] = true;
    present[24] = true;
    let artifact = locate(&plan, &present).expect("an artifact exists");
    assert_eq!(artifact.path, root(&["first", "worker-bin"]));
}

#[test]
fn script_artifact_requires_a_runtime() {
    let cfg = test_config();
    let roots = vec![root(&["opt", "app"])];
    let plan = build_plan(&cfg, &roots);
    let mut present = vec![false; plan.len()];
    // Only the development script, one directory deeper, exists at level 0.
    present[3] = true;
    let artifact = locate(&plan, &present).expect("an artifact exists");
    assert_eq!(artifact.kind, ArtifactKind::ScriptRequiringRuntime);
    assert_eq!(artifact.path, root(&["opt", "app", "src", "worker.js"]));
    assert_eq!(artifact.working_root, root(&["opt", "app"]));
}
