//! Supervisor for a long-running local helper process (the sidecar): locating
//! its executable across install layouts, planning its launch, extracting the
//! readiness port from its output, bridging newline-delimited JSON messages,
//! and exposing diagnostics.

pub mod bridge;
pub mod config_dir;
pub mod errors;
pub mod launcher;
pub mod locator;
pub mod logstore;
pub mod monitor;
pub mod paths;
pub mod port;
pub mod runtime;
pub mod state;
