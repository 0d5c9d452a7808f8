//! Output monitor steps: what one line from the child's stdout or stderr does
//! to the supervisor state and the log store. The readers themselves live at
//! the I/O edge; each line they produce is handed to these functions.

use vstd::prelude::*;
use crate::logstore::{LogLevel, LogRecord, LogSource, LogStore};
use crate::port::{
    digits_value, has_port_prefix, is_valid_port_line, parse_port_line, port_digits,
    starts_with_port_prefix,
};
use crate::state::SupervisorState;

verus! {

/// What a stdout line turned out to be.
#[derive(Clone, Copy, Debug, PartialEq, Eq, Structural)]
pub enum StdoutOutcome {
    /// A well-formed handshake line: the port it announced was published.
    PortPublished(u16),
    /// A line with the handshake prefix but no valid port: logged as an
    /// error, state untouched.
    MalformedPort,
    /// Any other line: forwarded to the log sink, state untouched.
    Forwarded,
}

/// Consume one line of the child's stdout. A valid `SIDECAR_PORT:<digits>`
/// line publishes its port into the state (last value wins) and is not
/// forwarded; a prefixed but malformed line is logged as an error and leaves
/// the state unchanged; every other line is forwarded to the log sink tagged
/// stdout, also leaving the state unchanged.
pub fn on_stdout_line(state: &mut SupervisorState, store: &mut LogStore, line: Vec<u8>) -> (r:
    StdoutOutcome)
    ensures
        is_valid_port_line(line@) ==> {
            &&& r == StdoutOutcome::PortPublished((digits_value(port_digits(line@)) as u16))
            &&& *final(state) == (SupervisorState {
                port: (digits_value(port_digits(line@)) as u16),
                ..*old(state)
            })
            &&& final(store).records@ == old(store).records@
        },
        !is_valid_port_line(line@) && has_port_prefix(line@) ==> {
            &&& r == StdoutOutcome::MalformedPort
            &&& *final(state) == *old(state)
            &&& final(store).records@ == old(store).records@.push(LogRecord {
                source: LogSource::Stdout,
                level: LogLevel::Error,
                message: line,
            })
        },
        !has_port_prefix(line@) ==> {
            &&& r == StdoutOutcome::Forwarded
            &&& *final(state) == *old(state)
            &&& final(store).records@ == old(store).records@.push(LogRecord {
                source: LogSource::Stdout,
                level: LogLevel::Info,
                message: line,
            })
        },
{
    match parse_port_line(&line) {
        Some(port) => {
            state.set_port(port);
            StdoutOutcome::PortPublished(port)
        },
        None => {
            if starts_with_port_prefix(&line) {
                store.append(LogRecord {
                    source: LogSource::Stdout,
                    level: LogLevel::Error,
                    message: line,
                });
                StdoutOutcome::MalformedPort
            } else {
                store.append(LogRecord {
                    source: LogSource::Stdout,
                    level: LogLevel::Info,
                    message: line,
                });
                StdoutOutcome::Forwarded
            }
        },
    }
}

/// Consume one line of the child's stderr: it is forwarded to the log sink
/// tagged stderr; nothing else changes.
pub fn on_stderr_line(store: &mut LogStore, line: Vec<u8>)
    ensures
        final(store).records@ == old(store).records@.push(LogRecord {
            source: LogSource::Stderr,
            level: LogLevel::Error,
            message: line,
        }),
{
    store.append(LogRecord { source: LogSource::Stderr, level: LogLevel::Error, message: line });
}

/// Note the end of one of the child's streams: a warning record, not a crash
/// signal. The supervisor state is untouched.
pub fn on_stream_end(store: &mut LogStore, source: LogSource, message: Vec<u8>)
    ensures
        final(store).records@ == old(store).records@.push(LogRecord {
            source,
            level: LogLevel::Warn,
            message,
        }),
{
    store.append(LogRecord { source, level: LogLevel::Warn, message });
}

} // verus!
