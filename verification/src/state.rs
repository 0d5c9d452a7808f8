//! Process-wide supervisor state: the discovered port, the resolved config
//! directory, the child-process handle, the last startup error, and the log
//! file path, together with the read-only diagnostics snapshot derived from
//! them.

use vstd::prelude::*;

verus! {

/// State published by the supervisor and read by the UI layer. Readiness is a
/// derived view of the port: the worker is ready exactly when a nonzero port
/// has been extracted from its output.
pub struct SupervisorState {
    /// Port announced by the worker's handshake line; 0 means unassigned.
    pub port: u16,
    /// Resolved config directory, once the resolver has run.
    pub config_dir: Option<String>,
    /// Identifier of the spawned child process, present exactly while a child
    /// is recorded as running.
    pub child_id: Option<u32>,
    /// Description of the last startup failure, if any.
    pub startup_error: Option<String>,
    /// Path of the current log file, once logging is set up.
    pub log_file_path: Option<String>,
    /// Description of the resolved script runtime, when one was needed.
    pub runtime_desc: Option<String>,
}

/// Read-only aggregate snapshot of the supervisor state.
pub struct Diagnostics {
    pub port: u16,
    pub ready: bool,
    pub config_dir: Option<String>,
    pub process_running: bool,
    pub runtime_desc: Option<String>,
    pub startup_error: Option<String>,
    pub log_file_path: Option<String>,
}

impl SupervisorState {
    /// Whether the state says the worker is ready: a nonzero port is known.
    pub open spec fn spec_ready(self) -> bool {
        self.port != 0
    }

    /// Fresh state before any launch attempt: no port, no child, no error.
    pub fn new() -> (s: SupervisorState)
        ensures
            s.port == 0,
            s.config_dir is None,
            s.child_id is None,
            s.startup_error is None,
            s.log_file_path is None,
            s.runtime_desc is None,
    {
        SupervisorState {
            port: 0,
            config_dir: None,
            child_id: None,
            startup_error: None,
            log_file_path: None,
            runtime_desc: None,
        }
    }

    /// Port currently published; 0 while unassigned.
    pub fn get_port(&self) -> (p: u16)
        ensures
            p == self.port,
    {
        self.port
    }

    /// The worker is ready exactly when a nonzero port has been published.
    pub fn is_ready(&self) -> (r: bool)
        ensures
            r == self.spec_ready(),
    {
        self.port != 0
    }

    /// Resolved config directory, if the resolver has published one.
    pub fn get_config_dir(&self) -> (d: &Option<String>)
        ensures
            d == &self.config_dir,
    {
        &self.config_dir
    }

    /// Publish a port extracted from the worker's handshake line. Idempotent;
    /// the last published value wins.
    pub fn set_port(&mut self, port: u16)
        ensures
            *final(self) == (SupervisorState { port, ..*old(self) }),
    {
        self.port = port;
    }

    /// Publish the resolved config directory.
    pub fn set_config_dir(&mut self, dir: String)
        ensures
            *final(self) == (SupervisorState { config_dir: Some(dir), ..*old(self) }),
    {
        self.config_dir = Some(dir);
    }

    /// Publish the log file path.
    pub fn set_log_file_path(&mut self, path: String)
        ensures
            *final(self) == (SupervisorState { log_file_path: Some(path), ..*old(self) }),
    {
        self.log_file_path = Some(path);
    }

    /// Publish the description of the resolved script runtime.
    pub fn set_runtime_desc(&mut self, desc: String)
        ensures
            *final(self) == (SupervisorState { runtime_desc: Some(desc), ..*old(self) }),
    {
        self.runtime_desc = Some(desc);
    }

    /// Record a successful spawn: the child handle is present and any earlier
    /// startup error is cleared.
    pub fn record_spawn(&mut self, child_id: u32)
        ensures
            *final(self) == (SupervisorState {
                child_id: Some(child_id),
                startup_error: None,
                ..*old(self)
            }),
    {
        self.child_id = Some(child_id);
        self.startup_error = None;
    }

    /// Record a startup failure. The worker stays unavailable: no child handle
    /// and no port are published.
    pub fn record_startup_error(&mut self, message: String)
        ensures
            *final(self) == (SupervisorState {
                port: 0,
                child_id: None,
                startup_error: Some(message),
                ..*old(self)
            }),
    {
        self.port = 0;
        self.child_id = None;
        self.startup_error = Some(message);
    }

    /// Tear down the published worker state: the child handle is cleared and
    /// the port is reset to 0, whatever they held before. Idempotent.
    pub fn stop(&mut self) -> (had_child: Option<u32>)
        ensures
            *final(self) == (SupervisorState { port: 0, child_id: None, ..*old(self) }),
            had_child == old(self).child_id,
            !final(self).spec_ready(),
    {
        let had_child = self.child_id;
        self.child_id = None;
        self.port = 0;
        had_child
    }

    /// Aggregate snapshot of the current state. Pure read: the state is not
    /// changed, and every field of the snapshot mirrors the state.
    pub fn get_diagnostics(&self) -> (d: Diagnostics)
        ensures
            d.port == self.port,
            d.ready == self.spec_ready(),
            d.config_dir == self.config_dir,
            d.process_running == (self.child_id is Some),
            d.runtime_desc == self.runtime_desc,
            d.startup_error == self.startup_error,
            d.log_file_path == self.log_file_path,
    {
        Diagnostics {
            port: self.port,
            ready: self.port != 0,
            config_dir: clone_opt_string(&self.config_dir),
            process_running: self.child_id.is_some(),
            runtime_desc: clone_opt_string(&self.runtime_desc),
            startup_error: clone_opt_string(&self.startup_error),
            log_file_path: clone_opt_string(&self.log_file_path),
        }
    }
}

/// Clone an optional string, preserving its contents.
fn clone_opt_string(s: &Option<String>) -> (r: Option<String>)
    ensures
        r == *s,
{
    match s {
        Some(v) => Some(v.clone()),
        None => None,
    }
}

} // verus!
