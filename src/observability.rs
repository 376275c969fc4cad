//! How structured logging is to be set up: output format, level, and which
//! source locations each event shows.

use vstd::prelude::*;

verus! {

/// The verbosity of logged events, from the most verbose.
#[allow(non_camel_case_types)]
#[derive(Clone, Copy, Debug, PartialEq, Eq, Structural)]
pub enum Level {
    TRACE,
    DEBUG,
    INFO,
    WARN,
    ERROR,
}

/// A level's name, as a filter directive writes it.
pub open spec fn level_name(l: Level) -> Seq<char> {
    match l {
        Level::TRACE => "TRACE"@,
        Level::DEBUG => "DEBUG"@,
        Level::INFO => "INFO"@,
        Level::WARN => "WARN"@,
        Level::ERROR => "ERROR"@,
    }
}

impl Level {
    /// The level's name.
    pub fn as_str(&self) -> (r: &'static str)
        ensures
            r@ == level_name(*self),
    {
        match self {
            Level::TRACE => "TRACE",
            Level::DEBUG => "DEBUG",
            Level::INFO => "INFO",
            Level::WARN => "WARN",
            Level::ERROR => "ERROR",
        }
    }
}

/// Logging settings, built up by chained calls.
#[derive(Clone, Debug)]
pub struct TracingConfig {
    pub json: bool,
    pub level: Level,
    pub with_target: bool,
    pub with_file: bool,
    pub with_line_number: bool,
}

impl Default for TracingConfig {
    /// Human-readable output at `INFO`, showing targets but not files or
    /// line numbers.
    fn default() -> (r: TracingConfig)
        ensures
            !r.json,
            r.level == Level::INFO,
            r.with_target,
            !r.with_file,
            !r.with_line_number,
    {
        TracingConfig {
            json: false,
            level: Level::INFO,
            with_target: true,
            with_file: false,
            with_line_number: false,
        }
    }
}

impl TracingConfig {
    /// The default settings.
    pub fn new() -> (r: TracingConfig)
        ensures
            !r.json,
            r.level == Level::INFO,
            r.with_target,
            !r.with_file,
            !r.with_line_number,
    {
        TracingConfig::default()
    }

    /// Switches to JSON output.
    pub fn json(self) -> (r: TracingConfig)
        ensures
            r == (TracingConfig { json: true, ..self }),
    {
        TracingConfig { json: true, ..self }
    }

    /// Sets the level.
    pub fn level(self, level: Level) -> (r: TracingConfig)
        ensures
            r == (TracingConfig { level, ..self }),
    {
        TracingConfig { level, ..self }
    }

    /// Shows or hides each event's target.
    pub fn with_target(self, enabled: bool) -> (r: TracingConfig)
        ensures
            r == (TracingConfig { with_target: enabled, ..self }),
    {
        TracingConfig { with_target: enabled, ..self }
    }

    /// Shows or hides each event's source file.
    pub fn with_file(self, enabled: bool) -> (r: TracingConfig)
        ensures
            r == (TracingConfig { with_file: enabled, ..self }),
    {
        TracingConfig { with_file: enabled, ..self }
    }

    /// Shows or hides each event's line number.
    pub fn with_line_number(self, enabled: bool) -> (r: TracingConfig)
        ensures
            r == (TracingConfig { with_line_number: enabled, ..self }),
    {
        TracingConfig { with_line_number: enabled, ..self }
    }

    /// The filter directive used when the environment gives none.
    pub fn default_filter(&self) -> (r: &'static str)
        ensures
            r@ == level_name(self.level),
    {
        self.level.as_str()
    }
}

} // verus!
