//! Settings of the log file and the rule by which it is rotated.

use vstd::prelude::*;
use vstd::string::StringExecFns;
use crate::text::lowercase;
use crate::text::str_equal;
use crate::text::to_lowercase;

verus! {

/// How much is logged.
#[derive(Debug, Clone, Copy, PartialEq, Eq, Structural)]
pub enum LogLevel {
    Error,
    Warn,
    Info,
    Debug,
    Trace,
}

/// Settings of the log.
#[derive(Debug, Clone)]
pub struct LogConfig {
    /// Whether anything is logged.
    pub enabled: bool,
    /// Size of the log file, in MiB, at which it is rotated.
    pub max_size_mb: u32,
    /// One of `error`, `warn`, `info`, `debug`, `trace`.
    pub level: String,
}

impl Default for LogConfig {
    fn default() -> (r: LogConfig)
        ensures
            r.enabled,
            r.max_size_mb == 5,
            r.level@ == "info"@,
    {
        LogConfig { enabled: true, max_size_mb: 5, level: String::from_str("info") }
    }
}

/// The level that a lowercase name stands for; an unknown name stands for
/// `Info`.
pub open spec fn level_of_name(name: Seq<char>) -> LogLevel {
    if name == "error"@ {
        LogLevel::Error
    } else if name == "warn"@ {
        LogLevel::Warn
    } else if name == "debug"@ {
        LogLevel::Debug
    } else if name == "trace"@ {
        LogLevel::Trace
    } else {
        LogLevel::Info
    }
}

impl LogConfig {
    /// The level of the configuration; its name counts in any case of letters.
    pub fn tracing_level(&self) -> (level: LogLevel)
        ensures
            level == level_of_name(lowercase(self.level@)),
    {
        let name = to_lowercase(self.level.as_str());
        if str_equal(name.as_str(), "error") {
            LogLevel::Error
        } else if str_equal(name.as_str(), "warn") {
            LogLevel::Warn
        } else if str_equal(name.as_str(), "debug") {
            LogLevel::Debug
        } else if str_equal(name.as_str(), "trace") {
            LogLevel::Trace
        } else {
            LogLevel::Info
        }
    }

    /// The size of the log file, in bytes, at which it is rotated.
    pub fn max_size_bytes(&self) -> (bytes: u64)
        ensures
            bytes == self.max_size_mb * 1048576,
    {
        (self.max_size_mb as u64) * 1048576
    }
}

/// Whether a log file of `size` bytes is rotated: it is once it has
/// reached `max_size` bytes.
pub fn needs_rotation(size: u64, max_size: u64) -> (b: bool)
    ensures
        b == (size >= max_size),
{
    size >= max_size
}

/// The name of the log file.
pub fn log_file_name() -> (s: String)
    ensures
        s@ == "app.log"@,
{
    String::from_str("app.log")
}

/// The name under which the rotated log file is kept.
pub fn rotated_file_name() -> (s: String)
    ensures
        s@ == "app.log.old"@,
{
    String::from_str("app.log.old")
}

/// Smallest size of the log file that can be set, in MiB.
pub const MIN_LOG_SIZE_MB: u32 = 1;

/// Largest size of the log file that can be set, in MiB.
pub const MAX_LOG_SIZE_MB: u32 = 100;

/// Whether a lowercase text names a level.
pub open spec fn is_level_name(name: Seq<char>) -> bool {
    name == "error"@ || name == "warn"@ || name == "info"@ || name == "debug"@ || name == "trace"@
}

/// A size of the log file brought into the range that can be set.
pub open spec fn clamped_log_size(mb: u32) -> u32 {
    if mb < MIN_LOG_SIZE_MB {
        MIN_LOG_SIZE_MB
    } else if mb > MAX_LOG_SIZE_MB {
        MAX_LOG_SIZE_MB
    } else {
        mb
    }
}

impl LogConfig {
    /// Changes what is given. The size is brought into the range from 1 to
    /// 100 MiB; the level is kept in lowercase. A text that names no level
    /// is refused, and then nothing is changed.
    pub fn apply_update(&mut self, enabled: Option<bool>, max_size_mb: Option<u32>, level: Option<&str>) -> (r:
        Result<(), String>)
        ensures
            match r {
                Ok(()) => {
                    &&& level is Some ==> is_level_name(lowercase(level->0@))
                    &&& final(self).enabled == match enabled {
                        Some(e) => e,
                        None => old(self).enabled,
                    }
                    &&& final(self).max_size_mb == match max_size_mb {
                        Some(s) => clamped_log_size(s),
                        None => old(self).max_size_mb,
                    }
                    &&& final(self).level@ == match level {
                        Some(l) => lowercase(l@),
                        None => old(self).level@,
                    }
                },
                Err(e) => {
                    &&& level is Some
                    &&& !is_level_name(lowercase(level->0@))
                    &&& e@ == "无效的日志级别: "@ + level->0@
                    &&& *final(self) == *old(self)
                },
            },
    {
        match level {
            Some(l) => {
                let name = to_lowercase(l);
                let known = str_equal(name.as_str(), "error") || str_equal(name.as_str(), "warn")
                    || str_equal(name.as_str(), "info") || str_equal(name.as_str(), "debug")
                    || str_equal(name.as_str(), "trace");
                if !known {
                    return Err(String::from_str("无效的日志级别: ").concat(l));
                }
                self.level = name;
            },
            None => {},
        }
        match enabled {
            Some(e) => {
                self.enabled = e;
            },
            None => {},
        }
        match max_size_mb {
            Some(s) => {
                self.max_size_mb = if s < MIN_LOG_SIZE_MB {
                    MIN_LOG_SIZE_MB
                } else if s > MAX_LOG_SIZE_MB {
                    MAX_LOG_SIZE_MB
                } else {
                    s
                };
            },
            None => {},
        }
        Ok(())
    }
}

} // verus!
