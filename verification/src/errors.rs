//! Error kinds of the supervisor. Every failure a launch attempt can surface
//! is one of these; none of them ever aborts the host application.

use vstd::prelude::*;

verus! {

/// What went wrong during a launch attempt or on one of the streams.
#[derive(Clone, Copy, Debug, PartialEq, Eq, Structural)]
pub enum SupervisorError {
    /// No writable config directory exists, neither stable nor fallback.
    ResolutionFailed,
    /// No worker artifact was found within the search bound.
    ArtifactNotFound,
    /// The artifact needs a script runtime and no working one was found.
    RuntimeNotFound,
    /// Spawning the child process failed.
    LaunchFailed,
    /// A malformed handshake or message line; recovered locally.
    ProtocolError,
    /// A log or sentinel file write failed; recovered locally.
    IoError,
}

impl SupervisorError {
    /// Stable description of the error, for diagnostics and user messages.
    pub fn describe(&self) -> (s: &'static str)
        ensures
            s@.len() > 0,
            s@ == match *self {
                SupervisorError::ResolutionFailed => "no writable config directory"@,
                SupervisorError::ArtifactNotFound => "no worker artifact found"@,
                SupervisorError::RuntimeNotFound => "no working script runtime found"@,
                SupervisorError::LaunchFailed => "failed to spawn the worker process"@,
                SupervisorError::ProtocolError => "malformed line on the control channel"@,
                SupervisorError::IoError => "a log or sentinel file write failed"@,
            },
    {
        let s = match self {
            SupervisorError::ResolutionFailed => "no writable config directory",
            SupervisorError::ArtifactNotFound => "no worker artifact found",
            SupervisorError::RuntimeNotFound => "no working script runtime found",
            SupervisorError::LaunchFailed => "failed to spawn the worker process",
            SupervisorError::ProtocolError => "malformed line on the control channel",
            SupervisorError::IoError => "a log or sentinel file write failed",
        };
        proof {
            reveal_strlit("no writable config directory");
            reveal_strlit("no worker artifact found");
            reveal_strlit("no working script runtime found");
            reveal_strlit("failed to spawn the worker process");
            reveal_strlit("malformed line on the control channel");
            reveal_strlit("a log or sentinel file write failed");
        }
        s
    }
}

} // verus!
