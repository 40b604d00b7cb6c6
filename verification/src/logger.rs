//! The log entries that the backends store, and the field limits of the database schema.

use vstd::prelude::*;

verus! {

/// Maximum length, in bytes, of the `hostname` column.
pub const LOG_ENTRY_MAX_HOSTNAME_LENGTH: usize = 64;

/// Maximum length, in bytes, of the `module` column.
pub const LOG_ENTRY_MAX_MODULE_LENGTH: usize = 64;

/// Maximum length, in bytes, of the `filename` column.
pub const LOG_ENTRY_MAX_FILENAME_LENGTH: usize = 256;

/// Maximum length, in bytes, of the `message` column.
pub const LOG_ENTRY_MAX_MESSAGE_LENGTH: usize = 1024;

/// One log record as the backends store it.
pub struct LogEntry<'a, 'b> {
    /// When the record was emitted, in nanoseconds since the Unix epoch (UTC).
    pub timestamp: i128,
    /// Name of the machine that emitted the record.
    pub hostname: String,
    /// Severity as the `log` crate numbers it: 1 for errors up to 5 for traces.
    pub level: u8,
    /// Module that emitted the record, if known.
    pub module: Option<&'a str>,
    /// Source file that emitted the record, if known.
    pub filename: Option<&'b str>,
    /// Line in `filename` that emitted the record, if known.
    pub line: Option<u32>,
    /// Free-form text of the record.
    pub message: String,
}

} // verus!
