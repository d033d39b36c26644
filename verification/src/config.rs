//! Configuration values the core consumes.
//!
//! Loading and saving configuration files is host work; the library
//! holds the value types the core reads, their defaults, and the
//! validation rules that do not depend on the host.

use vstd::prelude::*;
use vstd::string::StringExecFns;
use crate::text::chars_eq;
use crate::text::str_chars;

verus! {

/// File handling configuration.
#[derive(Clone, Debug)]
pub struct FileConfig {
    /// Default files to try loading, in order.
    pub default_files: Vec<String>,
    /// Supported file extensions, without dots.
    pub supported_extensions: Vec<String>,
}

impl Default for FileConfig {
    fn default() -> (c: Self)
        ensures
            c.default_files@.len() == 2,
            c.default_files@[0]@ == "README.md"@,
            c.default_files@[1]@ == "TODO.md"@,
            c.supported_extensions@.len() == 3,
            c.supported_extensions@[0]@ == "md"@,
            c.supported_extensions@[1]@ == "markdown"@,
            c.supported_extensions@[2]@ == "txt"@,
    {
        let mut default_files: Vec<String> = Vec::new();
        default_files.push(String::from_str("README.md"));
        default_files.push(String::from_str("TODO.md"));
        let mut supported_extensions: Vec<String> = Vec::new();
        supported_extensions.push(String::from_str("md"));
        supported_extensions.push(String::from_str("markdown"));
        supported_extensions.push(String::from_str("txt"));
        FileConfig { default_files, supported_extensions }
    }
}

/// File watcher configuration.
#[derive(Clone, Copy, Debug, PartialEq, Eq, Structural)]
pub struct FileWatcherConfig {
    /// Whether files are watched and reloaded automatically.
    pub enabled: bool,
    /// Debounce window for change notifications, in milliseconds.
    pub debounce_ms: u64,
}

impl Default for FileWatcherConfig {
    fn default() -> (c: Self)
        ensures
            c.enabled,
            c.debounce_ms == 100,
    {
        FileWatcherConfig { enabled: true, debounce_ms: 100 }
    }
}

/// Logging configuration.
#[derive(Clone, Debug)]
pub struct LoggingConfig {
    /// Default log level: trace, debug, info, warn or error.
    pub default_level: String,
    /// Whether log output also goes to a file.
    pub enable_file_logging: bool,
}

impl Default for LoggingConfig {
    fn default() -> (c: Self)
        ensures
            c.default_level@ == "info"@,
            !c.enable_file_logging,
    {
        LoggingConfig { default_level: String::from_str("info"), enable_file_logging: false }
    }
}

/// The level names accepted for logging configuration.
pub open spec fn valid_log_level(level: Seq<char>) -> bool {
    level == "trace"@ || level == "debug"@ || level == "info"@ || level == "warn"@ || level
        == "error"@
}

/// Check a configured log level against the accepted names.
pub fn is_valid_log_level(level: &str) -> (r: bool)
    ensures
        r == valid_log_level(level@),
{
    let chars = str_chars(level);
    let t = str_chars("trace");
    let d = str_chars("debug");
    let i = str_chars("info");
    let w = str_chars("warn");
    let e = str_chars("error");
    chars_eq(chars.as_slice(), t.as_slice()) || chars_eq(chars.as_slice(), d.as_slice())
        || chars_eq(chars.as_slice(), i.as_slice()) || chars_eq(chars.as_slice(), w.as_slice())
        || chars_eq(chars.as_slice(), e.as_slice())
}

/// Events reported by the file watcher.
#[derive(Clone, Debug)]
pub enum FileWatcherEvent {
    /// The watched file was modified.
    Modified,
    /// The watched file was deleted.
    Deleted,
    /// Watching failed; the text describes how.
    Error(String),
}

} // verus!
