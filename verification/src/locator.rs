//! Sidecar locator: an upward directory-walk over a bounded set of candidate
//! roots, probing each level for a worker artifact in strict priority order —
//! standalone binary, bundled binary, bundled script, development script.
//!
//! The locator is split from the filesystem: `build_plan` lays out every probe
//! path in search order, the caller answers which of those paths exist, and
//! `locate` picks the first hit. Paths are component lists; the caller joins
//! them with its platform's separator.

use vstd::prelude::*;
use crate::errors::SupervisorError;

verus! {

/// Levels walked upward from each root, the root itself included.
pub const SEARCH_DEPTH: usize = 6;

/// How a located artifact is to be executed.
#[derive(Clone, Copy, Debug, PartialEq, Eq, Structural)]
pub enum ArtifactKind {
    /// A binary that embeds its own runtime.
    Standalone,
    /// A script that must be run by a separately located runtime.
    ScriptRequiringRuntime,
}

/// The artifact shapes probed at each directory level, in priority order.
#[derive(Clone, Copy, Debug, PartialEq, Eq, Structural)]
pub enum ProbeRule {
    /// The platform-named binary directly in the directory.
    DirectBinary,
    /// The same binary inside the bundle subdirectory.
    BundledBinary,
    /// The pre-bundled script file in the directory.
    BundledScript,
    /// The unbundled development script one directory deeper.
    DevScript,
}

/// Names that shape the probes: the platform-named binary, the bundle
/// subdirectory, the script file, and the development subdirectory.
pub struct LocatorConfig {
    pub binary_name: Vec<u8>,
    pub bundle_dir: Vec<u8>,
    pub script_name: Vec<u8>,
    pub dev_dir: Vec<u8>,
}

/// One probe of the search plan: the path to test for existence, the
/// directory level it belongs to (the working root on a hit), and its place
/// in the search order.
pub struct Probe {
    /// Path components of the file to probe.
    pub path: Vec<Vec<u8>>,
    /// Path components of the directory level being examined.
    pub working_root: Vec<Vec<u8>>,
    /// Which candidate root this probe belongs to.
    pub root_index: usize,
    /// How many levels were walked upward from that root.
    pub level: usize,
    /// Which artifact shape is probed.
    pub rule: ProbeRule,
}

/// A located worker artifact: its path, the directory the child will run in,
/// and how it is to be executed.
pub struct SidecarArtifact {
    pub path: Vec<Vec<u8>>,
    pub working_root: Vec<Vec<u8>>,
    pub kind: ArtifactKind,
}

/// The rule probed in position `k` of a level, 0 through 3 in priority order.
pub open spec fn rule_of(k: int) -> ProbeRule {
    if k == 0 {
        ProbeRule::DirectBinary
    } else if k == 1 {
        ProbeRule::BundledBinary
    } else if k == 2 {
        ProbeRule::BundledScript
    } else {
        ProbeRule::DevScript
    }
}

/// How an artifact found by a rule is executed: the binary rules yield
/// standalone artifacts, the script rules need a runtime.
pub open spec fn rule_kind(rule: ProbeRule) -> ArtifactKind {
    match rule {
        ProbeRule::DirectBinary => ArtifactKind::Standalone,
        ProbeRule::BundledBinary => ArtifactKind::Standalone,
        ProbeRule::BundledScript => ArtifactKind::ScriptRequiringRuntime,
        ProbeRule::DevScript => ArtifactKind::ScriptRequiringRuntime,
    }
}

/// Components appended to the level directory by each rule.
pub open spec fn rule_suffix(cfg: LocatorConfig, rule: ProbeRule) -> Seq<Seq<u8>> {
    match rule {
        ProbeRule::DirectBinary => seq![cfg.binary_name@],
        ProbeRule::BundledBinary => seq![cfg.bundle_dir@, cfg.binary_name@],
        ProbeRule::BundledScript => seq![cfg.script_name@],
        ProbeRule::DevScript => seq![cfg.dev_dir@, cfg.script_name@],
    }
}

/// The directory `level` steps above the root: its first components. A walk
/// past the top of the path stays empty.
pub open spec fn ancestor(root: Seq<Seq<u8>>, level: int) -> Seq<Seq<u8>> {
    if level <= root.len() {
        root.take(root.len() - level)
    } else {
        Seq::empty()
    }
}

/// The probe that position `i` of a plan over these roots must hold: probes
/// are ordered root-major, then by level, then by rule priority.
pub open spec fn probe_ok(cfg: LocatorConfig, roots: Seq<Seq<Seq<u8>>>, p: Probe, i: int) -> bool {
    let r = i / 24;
    let l = (i % 24) / 4;
    let k = i % 4;
    &&& p.root_index == r
    &&& p.level == l
    &&& p.rule == rule_of(k)
    &&& p.working_root.deep_view() == ancestor(roots[r], l)
    &&& p.path.deep_view() == ancestor(roots[r], l) + rule_suffix(cfg, rule_of(k))
}

/// A full search plan for these roots: 6 levels of 4 probes for each root, in
/// search order.
pub open spec fn is_plan(cfg: LocatorConfig, roots: Seq<Seq<Seq<u8>>>, plan: Seq<Probe>) -> bool {
    &&& plan.len() == roots.len() * 24
    &&& forall|i: int| 0 <= i < plan.len() ==> probe_ok(cfg, roots, #[trigger] plan[i], i)
}

/// Index of the first set flag, or -1 when none is set.
pub open spec fn first_hit(s: Seq<bool>) -> int
    decreases s.len(),
{
    if s.len() == 0 {
        -1
    } else if s[0] {
        0
    } else {
        let r = first_hit(s.drop_first());
        if r == -1 {
            -1
        } else {
            r + 1
        }
    }
}

/// What `first_hit` returns: -1 exactly when no flag is set; otherwise the
/// position of a set flag with none set before it.
pub proof fn lemma_first_hit_props(s: Seq<bool>)
    ensures
        first_hit(s) == -1 ==> forall|j: int| 0 <= j < s.len() ==> !s[j],
        first_hit(s) != -1 ==> 0 <= first_hit(s) < s.len() && s[first_hit(s)] && forall|j: int|
            0 <= j < first_hit(s) ==> !s[j],
    decreases s.len(),
{
    if s.len() == 0 {
    } else if s[0] {
    } else {
        lemma_first_hit_props(s.drop_first());
        assert(forall|j: int| 1 <= j < s.len() ==> s[j] == s.drop_first()[j - 1]);
    }
}

/// A set flag bounds `first_hit` from above.
pub proof fn lemma_first_hit_min(s: Seq<bool>, i: int)
    requires
        0 <= i < s.len(),
        s[i],
    ensures
        0 <= first_hit(s) <= i,
    decreases s.len(),
{
    if s[0] {
    } else {
        assert(s.drop_first()[i - 1] == s[i]);
        lemma_first_hit_min(s.drop_first(), i - 1);
    }
}

/// First set flag in a vector of flags, scanned in order.
pub fn first_true(flags: &Vec<bool>) -> (r: Option<usize>)
    ensures
        match r {
            Some(i) => i == first_hit(flags@),
            None => first_hit(flags@) == -1,
        },
{
    let mut i: usize = 0;
    while i < flags.len()
        invariant
            0 <= i <= flags@.len(),
            forall|j: int| 0 <= j < i ==> !flags@[j],
        decreases flags@.len() - i,
    {
        if flags[i] {
            proof {
                lemma_first_hit_min(flags@, i as int);
                lemma_first_hit_props(flags@);
            }
            return Some(i);
        }
        i += 1;
    }
    proof {
        lemma_first_hit_props(flags@);
        if first_hit(flags@) != -1 {
            assert(flags@[first_hit(flags@)]);
        }
    }
    None
}

/// Copy a component path, preserving its components.
pub fn clone_path(p: &Vec<Vec<u8>>) -> (r: Vec<Vec<u8>>)
    ensures
        r.deep_view() == p.deep_view(),
{
    let mut r: Vec<Vec<u8>> = Vec::new();
    let mut i: usize = 0;
    while i < p.len()
        invariant
            0 <= i <= p@.len(),
            r@.len() == i,
            forall|j: int| 0 <= j < i ==> (#[trigger] r@[j])@ == p@[j]@,
        decreases p@.len() - i,
    {
        let c = p[i].clone();
        proof {
            assert(c@ =~= p@[i as int]@);
        }
        r.push(c);
        i += 1;
    }
    proof {
        assert(r.deep_view() =~~= p.deep_view());
    }
    r
}

/// The bound `24 = 6 levels × 4 rules` splits a plan index into root, level
/// and rule.
proof fn lemma_probe_index(r: int, l: int, k: int)
    requires
        r >= 0,
        0 <= l < 6,
        0 <= k < 4,
    ensures
        (r * 24 + l * 4 + k) / 24 == r,
        ((r * 24 + l * 4 + k) % 24) / 4 == l,
        (r * 24 + l * 4 + k) % 4 == k,
{
    assert((r * 24 + l * 4 + k) / 24 == r && ((r * 24 + l * 4 + k) % 24) / 4 == l && (r * 24 + l
        * 4 + k) % 4 == k) by (nonlinear_arith)
        requires
            r >= 0,
            0 <= l < 6,
            0 <= k < 4,
    ;
}

/// Lay out the full search plan for the candidate roots: for each root in
/// order, walk upward through 6 levels, and at each level probe the four
/// artifact shapes in priority order.
pub fn build_plan(cfg: &LocatorConfig, roots: &Vec<Vec<Vec<u8>>>) -> (plan: Vec<Probe>)
    requires
        roots@.len() * 24 <= usize::MAX,
    ensures
        is_plan(*cfg, roots.deep_view(), plan@),
{
    let mut plan: Vec<Probe> = Vec::new();
    let mut r: usize = 0;
    while r < roots.len()
        invariant
            0 <= r <= roots@.len(),
            roots@.len() * 24 <= usize::MAX,
            plan@.len() == r * 24,
            forall|i: int|
                0 <= i < plan@.len() ==> probe_ok(*cfg, roots.deep_view(), #[trigger] plan@[i], i),
        decreases roots@.len() - r,
    {
        let root = &roots[r];
        proof {
            assert(roots.deep_view()[r as int] =~~= root.deep_view());
            assert(r * 24 + 24 <= roots@.len() * 24) by (nonlinear_arith)
                requires r < roots@.len();
        }
        let mut l: usize = 0;
        while l < SEARCH_DEPTH
            invariant
                0 <= l <= 6,
                r < roots@.len(),
                plan@.len() == r * 24 + l * 4 * 1,
                r * 24 + 24 <= usize::MAX,
                roots.deep_view()[r as int] == root.deep_view(),
                forall|i: int|
                    0 <= i < plan@.len() ==> probe_ok(
                        *cfg,
                        roots.deep_view(),
                        #[trigger] plan@[i],
                        i,
                    ),
            decreases 6 - l,
        {
            let keep = if l <= root.len() {
                root.len() - l
            } else {
                0
            };
            let mut dir: Vec<Vec<u8>> = Vec::new();
            let mut j: usize = 0;
            while j < keep
                invariant
                    0 <= j <= keep,
                    keep <= root@.len(),
                    dir@.len() == j,
                    forall|t: int| 0 <= t < j ==> (#[trigger] dir@[t])@ == root@[t]@,
                decreases keep - j,
            {
                let c = root[j].clone();
                proof {
                    assert(c@ =~= root@[j as int]@);
                }
                dir.push(c);
                j += 1;
            }
            proof {
                assert(dir.deep_view() =~~= ancestor(root.deep_view(), l as int));
            }
            let ghost anc = dir.deep_view();

            // Rule 1: the platform-named binary directly at this level.
            let mut p0 = clone_path(&dir);
            p0.push(cfg.binary_name.clone());
            proof {
                assert(p0.deep_view() =~~= anc + rule_suffix(*cfg, ProbeRule::DirectBinary));
                lemma_probe_index(r as int, l as int, 0);
            }
            plan.push(Probe {
                path: p0,
                working_root: clone_path(&dir),
                root_index: r,
                level: l,
                rule: ProbeRule::DirectBinary,
            });

            // Rule 2: the same binary inside the bundle subdirectory.
            let mut p1 = clone_path(&dir);
            p1.push(cfg.bundle_dir.clone());
            p1.push(cfg.binary_name.clone());
            proof {
                assert(p1.deep_view() =~~= anc + rule_suffix(*cfg, ProbeRule::BundledBinary));
                lemma_probe_index(r as int, l as int, 1);
            }
            plan.push(Probe {
                path: p1,
                working_root: clone_path(&dir),
                root_index: r,
                level: l,
                rule: ProbeRule::BundledBinary,
            });

            // Rule 3: the pre-bundled script at this level.
            let mut p2 = clone_path(&dir);
            p2.push(cfg.script_name.clone());
            proof {
                assert(p2.deep_view() =~~= anc + rule_suffix(*cfg, ProbeRule::BundledScript));
                lemma_probe_index(r as int, l as int, 2);
            }
            plan.push(Probe {
                path: p2,
                working_root: clone_path(&dir),
                root_index: r,
                level: l,
                rule: ProbeRule::BundledScript,
            });

            // Rule 4: the unbundled development script one directory deeper.
            let mut p3 = clone_path(&dir);
            p3.push(cfg.dev_dir.clone());
            p3.push(cfg.script_name.clone());
            proof {
                assert(p3.deep_view() =~~= anc + rule_suffix(*cfg, ProbeRule::DevScript));
                lemma_probe_index(r as int, l as int, 3);
            }
            plan.push(Probe {
                path: p3,
                working_root: dir,
                root_index: r,
                level: l,
                rule: ProbeRule::DevScript,
            });

            l += 1;
        }
        r += 1;
    }
    plan
}

/// The artifact a probe yields on a hit: its path, the directory of the level
/// it was found at, and the execution kind its rule implies.
pub open spec fn artifact_matches_probe(a: SidecarArtifact, p: Probe) -> bool {
    &&& a.path.deep_view() == p.path.deep_view()
    &&& a.working_root.deep_view() == p.working_root.deep_view()
    &&& a.kind == rule_kind(p.rule)
}

/// Pick the located artifact: the first probe of the plan whose path exists.
/// `present` answers, probe by probe, whether the probed path exists. Fails
/// with `ArtifactNotFound` exactly when no probe hit — after the whole plan,
/// all roots and all levels, was examined.
pub fn locate(plan: &Vec<Probe>, present: &Vec<bool>) -> (r: Result<
    SidecarArtifact,
    SupervisorError,
>)
    requires
        present@.len() == plan@.len(),
    ensures
        match r {
            Ok(a) => {
                &&& first_hit(present@) != -1
                &&& artifact_matches_probe(a, plan@[first_hit(present@)])
            },
            Err(e) => {
                &&& e == SupervisorError::ArtifactNotFound
                &&& first_hit(present@) == -1
                &&& forall|j: int| 0 <= j < present@.len() ==> !present@[j]
            },
        },
{
    match first_true(present) {
        Some(i) => {
            proof {
                lemma_first_hit_props(present@);
            }
            let probe = &plan[i];
            let kind = match probe.rule {
                ProbeRule::DirectBinary => ArtifactKind::Standalone,
                ProbeRule::BundledBinary => ArtifactKind::Standalone,
                ProbeRule::BundledScript => ArtifactKind::ScriptRequiringRuntime,
                ProbeRule::DevScript => ArtifactKind::ScriptRequiringRuntime,
            };
            Ok(SidecarArtifact {
                path: clone_path(&probe.path),
                working_root: clone_path(&probe.working_root),
                kind,
            })
        },
        None => {
            proof {
                lemma_first_hit_props(present@);
            }
            Err(SupervisorError::ArtifactNotFound)
        },
    }
}

/// When no probe of the plan hits, the search fails only after examining the
/// whole plan: 4 probes at each of 6 levels for every candidate root, and
/// nothing beyond them.
pub proof fn lemma_locate_exhausts(
    cfg: LocatorConfig,
    roots: Seq<Seq<Seq<u8>>>,
    plan: Seq<Probe>,
    present: Seq<bool>,
)
    requires
        is_plan(cfg, roots, plan),
        present.len() == plan.len(),
        forall|j: int| 0 <= j < present.len() ==> !present[j],
    ensures
        first_hit(present) == -1,
        plan.len() == roots.len() * 6 * 4,
        forall|i: int| 0 <= i < plan.len() ==> 0 <= (#[trigger] plan[i]).root_index < roots.len()
            && plan[i].level < 6,
{
    lemma_first_hit_props(present);
    if first_hit(present) != -1 {
        assert(present[first_hit(present)]);
    }
    assert(roots.len() * 24 == roots.len() * 6 * 4) by (nonlinear_arith);
    assert forall|i: int| 0 <= i < plan.len() implies 0 <= (#[trigger] plan[i]).root_index
        < roots.len() && plan[i].level < 6 by {
        assert(probe_ok(cfg, roots, plan[i], i));
        assert(0 <= i / 24 < roots.len() && 0 <= (i % 24) / 4 < 6) by (nonlinear_arith)
            requires 0 <= i < roots.len() * 24;
    }
}

/// At any root and level that holds the standalone binary, the binary is
/// preferred: the search never resolves to the bundled or development script
/// of that same root and level, whatever else exists.
pub proof fn lemma_standalone_preferred(
    cfg: LocatorConfig,
    roots: Seq<Seq<Seq<u8>>>,
    plan: Seq<Probe>,
    present: Seq<bool>,
    r: int,
    l: int,
)
    requires
        is_plan(cfg, roots, plan),
        present.len() == plan.len(),
        0 <= r < roots.len(),
        0 <= l < 6,
        present[r * 24 + l * 4],
    ensures
        0 <= first_hit(present) <= r * 24 + l * 4,
        plan[first_hit(present)].root_index == r && plan[first_hit(present)].level == l
            ==> rule_kind(plan[first_hit(present)].rule) == ArtifactKind::Standalone,
{
    assert(0 <= r * 24 + l * 4 < plan.len()) by (nonlinear_arith)
        requires 0 <= r < roots.len(), 0 <= l < 6, plan.len() == roots.len() * 24;
    lemma_first_hit_min(present, r * 24 + l * 4);
    let fh = first_hit(present);
    assert(probe_ok(cfg, roots, plan[fh], fh));
    if plan[fh].root_index == r && plan[fh].level == l {
        assert(fh / 24 == r && (fh % 24) / 4 == l);
        assert(fh >= r * 24 + l * 4) by (nonlinear_arith)
            requires fh / 24 == r, (fh % 24) / 4 == l, fh >= 0;
        assert(fh == r * 24 + l * 4);
        assert(fh % 4 == 0) by (nonlinear_arith)
            requires fh == r * 24 + l * 4, r >= 0, l >= 0;
        assert(plan[fh].rule == rule_of(0));
    }
}

} // verus!
