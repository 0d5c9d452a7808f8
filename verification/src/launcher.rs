//! Launch planning: the exact command, arguments, working directory,
//! environment entry, and platform creation flag for the child process.
//! Spawning itself is I/O and happens at the edge; everything the spawn uses
//! is fixed here.

use vstd::prelude::*;
use crate::errors::SupervisorError;
use crate::locator::ArtifactKind;

verus! {

/// The platforms the launcher distinguishes: only process-creation flags and
/// path separators differ.
#[derive(Clone, Copy, Debug, PartialEq, Eq, Structural)]
pub enum Platform {
    Windows,
    Unix,
}

/// The `--config-dir` argument that precedes the config directory path.
pub open spec fn spec_config_dir_flag() -> Seq<u8> {
    seq![45u8, 45, 99, 111, 110, 102, 105, 103, 45, 100, 105, 114]
}

/// The environment variable that carries the config directory path.
pub open spec fn spec_config_env_var() -> Seq<u8> {
    seq![83u8, 73, 68, 69, 67, 65, 82, 95, 67, 79, 78, 70, 73, 71, 95, 68, 73, 82]
}

/// The `--config-dir` flag as bytes.
pub fn config_dir_flag() -> (r: Vec<u8>)
    ensures
        r@ == spec_config_dir_flag(),
{
    let r: Vec<u8> = vec![45, 45, 99, 111, 110, 102, 105, 103, 45, 100, 105, 114];
    proof {
        assert(r@ =~= spec_config_dir_flag());
    }
    r
}

/// The config-directory environment variable name as bytes.
pub fn config_env_var() -> (r: Vec<u8>)
    ensures
        r@ == spec_config_env_var(),
{
    let r: Vec<u8> = vec![83, 73, 68, 69, 67, 65, 82, 95, 67, 79, 78, 70, 73, 71, 95, 68, 73, 82];
    proof {
        assert(r@ =~= spec_config_env_var());
    }
    r
}

/// Name of the sentinel file, written next to the executable, whose content
/// is the resolved config directory's absolute path.
pub fn sentinel_file_name() -> (s: &'static str)
    ensures
        s@ == "config-dir.txt"@,
{
    "config-dir.txt"
}

/// Everything a spawn needs: program, arguments in order, working directory,
/// one environment entry, and the no-window creation flag.
pub struct LaunchCommand {
    /// Executable to invoke: the artifact itself, or the script runtime.
    pub program: Vec<u8>,
    /// Arguments, in order.
    pub args: Vec<Vec<u8>>,
    /// Working directory: the located project root.
    pub working_dir: Vec<u8>,
    /// Name of the environment variable set for the child.
    pub env_var: Vec<u8>,
    /// Value of that variable: the config directory path.
    pub env_value: Vec<u8>,
    /// Whether to apply the platform's no-console-window creation flag.
    pub no_window: bool,
}

/// Build the launch command. A standalone artifact is invoked directly; a
/// script artifact is invoked as `<runtime> <script>`, and fails with
/// `RuntimeNotFound` when no runtime was resolved. Either way the command
/// appends `--config-dir <path>`, runs in the located project root, carries
/// the config directory in the environment, and suppresses a console window
/// exactly on the platform that would open one.
pub fn build_command(
    artifact_path: &Vec<u8>,
    kind: ArtifactKind,
    runtime: &Option<Vec<u8>>,
    config_dir: &Vec<u8>,
    working_dir: &Vec<u8>,
    platform: Platform,
) -> (r: Result<LaunchCommand, SupervisorError>)
    ensures
        r is Ok <==> (kind == ArtifactKind::Standalone || runtime is Some),
        match r {
            Ok(cmd) => {
                &&& kind == ArtifactKind::Standalone ==> {
                    &&& cmd.program@ == artifact_path@
                    &&& cmd.args.deep_view() == seq![spec_config_dir_flag(), config_dir@]
                }
                &&& kind == ArtifactKind::ScriptRequiringRuntime ==> {
                    &&& runtime is Some
                    &&& cmd.program@ == runtime->0@
                    &&& cmd.args.deep_view() == seq![
                        artifact_path@,
                        spec_config_dir_flag(),
                        config_dir@,
                    ]
                }
                &&& cmd.working_dir@ == working_dir@
                &&& cmd.env_var@ == spec_config_env_var()
                &&& cmd.env_value@ == config_dir@
                &&& cmd.no_window == (platform == Platform::Windows)
            },
            Err(e) => {
                &&& e == SupervisorError::RuntimeNotFound
                &&& kind == ArtifactKind::ScriptRequiringRuntime
                &&& runtime is None
            },
        },
{
    let no_window = match platform {
        Platform::Windows => true,
        Platform::Unix => false,
    };
    match kind {
        ArtifactKind::Standalone => {
            let mut args: Vec<Vec<u8>> = Vec::new();
            args.push(config_dir_flag());
            let dir = config_dir.clone();
            proof {
                assert(dir@ =~= config_dir@);
            }
            args.push(dir);
            proof {
                assert(args.deep_view() =~~= seq![spec_config_dir_flag(), config_dir@]);
            }
            let program = artifact_path.clone();
            let wd = working_dir.clone();
            let ev = config_dir.clone();
            proof {
                assert(program@ =~= artifact_path@);
                assert(wd@ =~= working_dir@);
                assert(ev@ =~= config_dir@);
            }
            Ok(LaunchCommand {
                program,
                args,
                working_dir: wd,
                env_var: config_env_var(),
                env_value: ev,
                no_window,
            })
        },
        ArtifactKind::ScriptRequiringRuntime => {
            match runtime {
                Some(rt) => {
                    let mut args: Vec<Vec<u8>> = Vec::new();
                    let script = artifact_path.clone();
                    proof {
                        assert(script@ =~= artifact_path@);
                    }
                    args.push(script);
                    args.push(config_dir_flag());
                    let dir = config_dir.clone();
                    proof {
                        assert(dir@ =~= config_dir@);
                    }
                    args.push(dir);
                    proof {
                        assert(args.deep_view() =~~= seq![
                            artifact_path@,
                            spec_config_dir_flag(),
                            config_dir@,
                        ]);
                    }
                    let program = rt.clone();
                    let wd = working_dir.clone();
                    let ev = config_dir.clone();
                    proof {
                        assert(program@ =~= rt@);
                        assert(wd@ =~= working_dir@);
                        assert(ev@ =~= config_dir@);
                    }
                    Ok(LaunchCommand {
                        program,
                        args,
                        working_dir: wd,
                        env_var: config_env_var(),
                        env_value: ev,
                        no_window,
                    })
                },
                None => Err(SupervisorError::RuntimeNotFound),
            }
        },
    }
}

} // verus!
