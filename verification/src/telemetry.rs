//! The two choices that the set-up of logging and tracing makes from its
//! environment.

use vstd::prelude::*;

verus! {

/// The shape of the log lines.
#[derive(Debug, Clone, Copy, PartialEq, Eq, Structural)]
pub enum LogFormat {
    /// One JSON object per line.
    Json,
    /// Text for a reader.
    Plain,
}

/// The environment that traces are tagged with: the configured one, or
/// else the kind of build.
pub open spec fn environment_of(configured: Option<String>, debug_build: bool) -> Seq<char> {
    match configured {
        Some(name) => name@,
        None => if debug_build {
            "debug"@
        } else {
            "release"@
        },
    }
}

/// The log format that a setting asks for: JSON for the setting `json`,
/// text for any other and for none.
pub open spec fn format_of(setting: Option<String>) -> LogFormat {
    match setting {
        Some(s) => if s@ == "json"@ {
            LogFormat::Json
        } else {
            LogFormat::Plain
        },
        None => LogFormat::Plain,
    }
}

/// Chooses the environment that traces are tagged with.
pub fn environment_name(configured: Option<String>, debug_build: bool) -> (name: String)
    ensures
        name@ == environment_of(configured, debug_build),
{
    match configured {
        Some(name) => name,
        None => if debug_build {
            "debug".to_owned()
        } else {
            "release".to_owned()
        },
    }
}

/// Chooses the shape of the log lines.
pub fn log_format(setting: Option<String>) -> (format: LogFormat)
    ensures
        format == format_of(setting),
{
    match setting {
        Some(s) => {
            let json = "json".to_owned();
            if s == json {
                LogFormat::Json
            } else {
                LogFormat::Plain
            }
        },
        None => LogFormat::Plain,
    }
}

} // verus!
