//! In-memory log store: an ordered sequence of tagged records, a tail query
//! for the UI, and the size-based rotation decision for the persisted file.

use vstd::prelude::*;

verus! {

/// Rotation threshold of the persisted log file, in bytes.
pub const LOG_ROTATE_THRESHOLD: u64 = 5 * 1024 * 1024;

/// Which stream or component a log record came from.
#[derive(Clone, Copy, Debug, PartialEq, Eq, Structural)]
pub enum LogSource {
    Stdout,
    Stderr,
    Internal,
}

/// Severity of a log record.
#[derive(Clone, Copy, Debug, PartialEq, Eq, Structural)]
pub enum LogLevel {
    Info,
    Warn,
    Error,
}

/// One log line: its origin, severity, and raw message bytes.
pub struct LogRecord {
    pub source: LogSource,
    pub level: LogLevel,
    pub message: Vec<u8>,
}

/// Ordered, append-only store of log records.
pub struct LogStore {
    pub records: Vec<LogRecord>,
}

impl LogStore {
    /// Empty store.
    pub fn new() -> (s: LogStore)
        ensures
            s.records@ == Seq::<LogRecord>::empty(),
    {
        LogStore { records: Vec::new() }
    }

    /// Append one record; earlier records are untouched.
    pub fn append(&mut self, record: LogRecord)
        ensures
            final(self).records@ == old(self).records@.push(record),
    {
        self.records.push(record);
    }

    /// Number of records held.
    pub fn len(&self) -> (n: usize)
        ensures
            n == self.records@.len(),
    {
        self.records.len()
    }

    /// The message bytes of the last `limit` records, oldest first. When
    /// fewer records exist, all of them are returned.
    pub fn recent_messages(&self, limit: usize) -> (r: Vec<Vec<u8>>)
        ensures
            r@.len() == if limit <= self.records@.len() {
                limit as int
            } else {
                self.records@.len() as int
            },
            forall|i: int|
                0 <= i < r@.len() ==> (#[trigger] r@[i])@ == self.records@[self.records@.len()
                    - r@.len() + i].message@,
    {
        let n = self.records.len();
        let count = if limit <= n {
            limit
        } else {
            n
        };
        let start = n - count;
        let mut r: Vec<Vec<u8>> = Vec::new();
        let mut i: usize = start;
        while i < n
            invariant
                start <= i <= n,
                n == self.records@.len(),
                start == n - count,
                count <= n,
                r@.len() == i - start,
                forall|j: int|
                    0 <= j < r@.len() ==> (#[trigger] r@[j])@ == self.records@[start + j].message@,
            decreases n - i,
        {
            let m = self.records[i].message.clone();
            proof {
                assert(m@ =~= self.records@[i as int].message@);
            }
            r.push(m);
            i += 1;
        }
        r
    }
}

/// Whether the persisted log file must rotate before a further write: it has
/// reached the size threshold.
pub fn should_rotate(current_file_size: u64) -> (r: bool)
    ensures
        r == (current_file_size >= LOG_ROTATE_THRESHOLD),
{
    current_file_size >= LOG_ROTATE_THRESHOLD
}

} // verus!
