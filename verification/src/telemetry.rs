//! Telemetry configuration: which log format and level suit each
//! deployment environment.  The actual log sinks are wired up by the
//! embedding application.

use vstd::prelude::*;

verus! {

use crate::arguments_parser::{LogFormat, LogLevel};
use crate::strutil::str_eq;

/// Configuration for telemetry in different environments.
#[derive(Debug, Clone)]
pub struct TelemetryConfig {
    pub service_name: String,
    pub service_version: String,
    pub environment: String,
}

/// Whether an environment name denotes production.
pub open spec fn spec_is_production(e: Seq<char>) -> bool {
    e == "production"@ || e == "prod"@
}

/// Whether an environment name denotes staging.
pub open spec fn spec_is_staging(e: Seq<char>) -> bool {
    e == "staging"@ || e == "stage"@
}

impl TelemetryConfig {
    /// Builds a telemetry configuration from plain values.
    pub fn new(service_name: String, service_version: String, environment: String) -> (r: Self)
        ensures
            r.service_name@ == service_name@,
            r.service_version@ == service_version@,
            r.environment@ == environment@,
    {
        TelemetryConfig { service_name, service_version, environment }
    }

    /// True exactly for the production environment names.
    pub fn is_production(&self) -> (r: bool)
        ensures
            r == spec_is_production(self.environment@),
    {
        str_eq(self.environment.as_str(), "production") || str_eq(
            self.environment.as_str(),
            "prod",
        )
    }

    /// Production logs as JSON; everything else pretty-prints.
    pub fn recommended_log_format(&self) -> (r: LogFormat)
        ensures
            r == (if spec_is_production(self.environment@) {
                LogFormat::Json
            } else {
                LogFormat::Pretty
            }),
    {
        if self.is_production() {
            LogFormat::Json
        } else {
            LogFormat::Pretty
        }
    }

    /// Production logs at info level; staging and everything else at
    /// debug level.
    pub fn recommended_log_level(&self) -> (r: LogLevel)
        ensures
            r == (if spec_is_production(self.environment@) {
                LogLevel::Info
            } else {
                LogLevel::Debug
            }),
    {
        if self.is_production() {
            LogLevel::Info
        } else {
            LogLevel::Debug
        }
    }
}

/// The spelling of each log level, as a logging filter expects it.
pub open spec fn spec_level_str(l: LogLevel) -> Seq<char> {
    match l {
        LogLevel::Trace => "trace"@,
        LogLevel::Debug => "debug"@,
        LogLevel::Info => "info"@,
        LogLevel::Warn => "warn"@,
        LogLevel::Error => "error"@,
    }
}

/// The spelling of a log level, as a logging filter expects it.
pub fn level_to_str(level: &LogLevel) -> (r: &'static str)
    ensures
        r@ == spec_level_str(*level),
{
    match level {
        LogLevel::Trace => "trace",
        LogLevel::Debug => "debug",
        LogLevel::Info => "info",
        LogLevel::Warn => "warn",
        LogLevel::Error => "error",
    }
}

} // verus!
