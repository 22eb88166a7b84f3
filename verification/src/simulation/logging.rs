//! Configuration of the simulation's logging.

use vstd::prelude::*;
use vstd::string::StringExecFns;

verus! {

/// How much is logged, from the most detailed level to the least.
#[derive(Clone, Copy, Debug, PartialEq, Eq, Hash, Structural)]
pub enum LogLevel {
    /// Very fine detail.
    Trace,
    /// Detail useful when debugging.
    Debug,
    /// Normal operation.
    Info,
    /// Something unexpected that the simulation can go on after.
    Warn,
    /// A failure.
    Error,
}

/// How the simulation logs: level, format, destination and decoration.
#[derive(Clone, Debug)]
pub struct LoggingConfig {
    /// Least severe level that is logged.
    pub level: LogLevel,
    /// Whether records are written as JSON.
    pub json_format: bool,
    /// Whether records are also written to files.
    pub log_to_file: bool,
    /// Directory of the log files, when logging to files.
    pub log_directory: Option<String>,
    /// Name prefix of the log files.
    pub log_file_prefix: String,
    /// Whether span events are logged.
    pub enable_span_events: bool,
    /// Whether console output is coloured with ANSI codes.
    pub enable_ansi: bool,
    /// A filter in the syntax of the environment filter, when one is set.
    pub env_filter: Option<String>,
}

/// Whether `c` is the default configuration: level info, console only, plain
/// text with colours, no span events, no filter, files prefixed
/// `badge-access-simulator`.
pub open spec fn is_default_config(c: LoggingConfig) -> bool {
    &&& c.level == LogLevel::Info
    &&& !c.json_format
    &&& !c.log_to_file
    &&& c.log_directory.is_none()
    &&& c.log_file_prefix@ == "badge-access-simulator"@
    &&& !c.enable_span_events
    &&& c.enable_ansi
    &&& c.env_filter.is_none()
}

impl Default for LoggingConfig {
    /// The default configuration.
    fn default() -> (c: Self)
        ensures
            is_default_config(c),
    {
        LoggingConfig {
            level: LogLevel::Info,
            json_format: false,
            log_to_file: false,
            log_directory: None,
            log_file_prefix: String::from_str("badge-access-simulator"),
            enable_span_events: false,
            enable_ansi: true,
            env_filter: None,
        }
    }
}

impl LoggingConfig {
    /// The default configuration.
    pub fn new() -> (c: Self)
        ensures
            is_default_config(c),
    {
        LoggingConfig::default()
    }

    /// The same configuration at another level.
    pub fn with_level(self, level: LogLevel) -> (c: Self)
        ensures
            c == (LoggingConfig { level, ..self }),
    {
        LoggingConfig { level, ..self }
    }

    /// The same configuration writing JSON.
    pub fn with_json_format(self) -> (c: Self)
        ensures
            c == (LoggingConfig { json_format: true, ..self }),
    {
        LoggingConfig { json_format: true, ..self }
    }

    /// The same configuration also writing files to `directory`.
    pub fn with_file_logging(self, directory: &str) -> (c: Self)
        ensures
            c.log_to_file,
            c.log_directory matches Some(d) && d@ == directory@,
            c.level == self.level,
            c.json_format == self.json_format,
            c.log_file_prefix == self.log_file_prefix,
            c.enable_span_events == self.enable_span_events,
            c.enable_ansi == self.enable_ansi,
            c.env_filter == self.env_filter,
    {
        LoggingConfig { log_to_file: true, log_directory: Some(String::from_str(directory)), ..self }
    }

    /// The same configuration naming its files with another prefix.
    pub fn with_file_prefix(self, prefix: &str) -> (c: Self)
        ensures
            c.log_file_prefix@ == prefix@,
            c.level == self.level,
            c.json_format == self.json_format,
            c.log_to_file == self.log_to_file,
            c.log_directory == self.log_directory,
            c.enable_span_events == self.enable_span_events,
            c.enable_ansi == self.enable_ansi,
            c.env_filter == self.env_filter,
    {
        LoggingConfig { log_file_prefix: String::from_str(prefix), ..self }
    }

    /// The same configuration logging span events.
    pub fn with_span_events(self) -> (c: Self)
        ensures
            c == (LoggingConfig { enable_span_events: true, ..self }),
    {
        LoggingConfig { enable_span_events: true, ..self }
    }

    /// The same configuration without ANSI colours.
    pub fn without_ansi(self) -> (c: Self)
        ensures
            c == (LoggingConfig { enable_ansi: false, ..self }),
    {
        LoggingConfig { enable_ansi: false, ..self }
    }

    /// The same configuration with an explicit filter.
    pub fn with_env_filter(self, filter: &str) -> (c: Self)
        ensures
            c.env_filter matches Some(f) && f@ == filter@,
            c.level == self.level,
            c.json_format == self.json_format,
            c.log_to_file == self.log_to_file,
            c.log_directory == self.log_directory,
            c.log_file_prefix == self.log_file_prefix,
            c.enable_span_events == self.enable_span_events,
            c.enable_ansi == self.enable_ansi,
    {
        LoggingConfig { env_filter: Some(String::from_str(filter)), ..self }
    }

    /// The configuration for development: debug level with span events.
    pub fn dev_config() -> (c: Self)
        ensures
            is_default_config(LoggingConfig { level: LogLevel::Info, enable_span_events: false, ..c }),
            c.level == LogLevel::Debug,
            c.enable_span_events,
    {
        LoggingConfig::new().with_level(LogLevel::Debug).with_span_events()
    }

    /// The configuration for production: info level, JSON, files in
    /// `log_dir`, no colours.
    pub fn prod_config(log_dir: &str) -> (c: Self)
        ensures
            c.level == LogLevel::Info,
            c.json_format,
            c.log_to_file,
            c.log_directory matches Some(d) && d@ == log_dir@,
            c.log_file_prefix@ == "badge-access-simulator"@,
            !c.enable_span_events,
            !c.enable_ansi,
            c.env_filter.is_none(),
    {
        LoggingConfig::new().with_level(LogLevel::Info).with_json_format().with_file_logging(log_dir).without_ansi()
    }

    /// The configuration for tests: warnings only, no colours.
    pub fn test_config() -> (c: Self)
        ensures
            is_default_config(LoggingConfig { level: LogLevel::Info, enable_ansi: true, ..c }),
            c.level == LogLevel::Warn,
            !c.enable_ansi,
    {
        LoggingConfig::new().with_level(LogLevel::Warn).without_ansi()
    }

    /// The verbose configuration: info level with span events.
    pub fn verbose_config() -> (c: Self)
        ensures
            is_default_config(LoggingConfig { enable_span_events: false, ..c }),
            c.level == LogLevel::Info,
            c.enable_span_events,
    {
        LoggingConfig::new().with_level(LogLevel::Info).with_span_events()
    }

    /// The debugging configuration: debug level with span events.
    pub fn debug_config() -> (c: Self)
        ensures
            is_default_config(LoggingConfig { level: LogLevel::Info, enable_span_events: false, ..c }),
            c.level == LogLevel::Debug,
            c.enable_span_events,
    {
        LoggingConfig::new().with_level(LogLevel::Debug).with_span_events()
    }
}

} // verus!
