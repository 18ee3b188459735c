//! Configuration vocabulary: logging levels and deployment environments,
//! each parsed case-insensitively from text.

use vstd::prelude::*;

verus! {

/// What `str::to_lowercase` returns: the lowercase form of a string,
/// a function of its characters alone.
pub uninterp spec fn lower_of(s: Seq<char>) -> Seq<char>;

/// Relies on `str::to_lowercase`: the result depends on the characters of
/// the input alone.
#[verifier::external_body]
fn lowercase(s: &str) -> (r: String)
    ensures
        r@ == lower_of(s@),
{
    s.to_lowercase()
}

/// A logging verbosity level.
#[derive(Clone, Copy, Debug, PartialEq, Eq, PartialOrd, Ord, Structural)]
pub enum LogLevel {
    Error,
    Warn,
    Info,
    Debug,
    Trace,
}

/// The level a lowercased name denotes, if any.
pub open spec fn log_level_of(t: Seq<char>) -> Option<LogLevel> {
    if t == "error"@ {
        Some(LogLevel::Error)
    } else if t == "warn"@ {
        Some(LogLevel::Warn)
    } else if t == "info"@ {
        Some(LogLevel::Info)
    } else if t == "debug"@ {
        Some(LogLevel::Debug)
    } else if t == "trace"@ {
        Some(LogLevel::Trace)
    } else {
        None
    }
}

/// The lowercase name of a level.
pub open spec fn log_level_name(l: LogLevel) -> Seq<char> {
    match l {
        LogLevel::Error => "error"@,
        LogLevel::Warn => "warn"@,
        LogLevel::Info => "info"@,
        LogLevel::Debug => "debug"@,
        LogLevel::Trace => "trace"@,
    }
}

impl LogLevel {
    /// Parse a level name, case-insensitively.
    pub fn from_str(s: &str) -> (r: Option<LogLevel>)
        ensures
            r == log_level_of(lower_of(s@)),
    {
        let t = lowercase(s);
        if t == "error".to_owned() {
            Some(LogLevel::Error)
        } else if t == "warn".to_owned() {
            Some(LogLevel::Warn)
        } else if t == "info".to_owned() {
            Some(LogLevel::Info)
        } else if t == "debug".to_owned() {
            Some(LogLevel::Debug)
        } else if t == "trace".to_owned() {
            Some(LogLevel::Trace)
        } else {
            None
        }
    }

    /// The level's lowercase name.
    pub fn name(self) -> (r: &'static str)
        ensures
            r@ == log_level_name(self),
    {
        match self {
            LogLevel::Error => "error",
            LogLevel::Warn => "warn",
            LogLevel::Info => "info",
            LogLevel::Debug => "debug",
            LogLevel::Trace => "trace",
        }
    }
}

/// A deployment environment.
#[derive(Clone, Copy, Debug, PartialEq, Eq, PartialOrd, Ord, Structural)]
pub enum Environment {
    Development,
    Preview,
    Staging,
    Production,
}

/// The environment a lowercased name denotes, long or short form.
pub open spec fn environment_of(t: Seq<char>) -> Option<Environment> {
    if t == "development"@ || t == "dev"@ {
        Some(Environment::Development)
    } else if t == "preview"@ || t == "beta"@ {
        Some(Environment::Preview)
    } else if t == "staging"@ || t == "stage"@ {
        Some(Environment::Staging)
    } else if t == "production"@ || t == "prod"@ {
        Some(Environment::Production)
    } else {
        None
    }
}

/// The lowercase name of an environment.
pub open spec fn environment_name(e: Environment) -> Seq<char> {
    match e {
        Environment::Development => "development"@,
        Environment::Preview => "preview"@,
        Environment::Staging => "staging"@,
        Environment::Production => "production"@,
    }
}

impl Environment {
    /// Parse an environment name, case-insensitively, long or short form.
    pub fn from_str(s: &str) -> (r: Option<Environment>)
        ensures
            r == environment_of(lower_of(s@)),
    {
        let t = lowercase(s);
        if t == "development".to_owned() || t == "dev".to_owned() {
            Some(Environment::Development)
        } else if t == "preview".to_owned() || t == "beta".to_owned() {
            Some(Environment::Preview)
        } else if t == "staging".to_owned() || t == "stage".to_owned() {
            Some(Environment::Staging)
        } else if t == "production".to_owned() || t == "prod".to_owned() {
            Some(Environment::Production)
        } else {
            None
        }
    }

    /// The environment's lowercase name.
    pub fn name(self) -> (r: &'static str)
        ensures
            r@ == environment_name(self),
    {
        match self {
            Environment::Development => "development",
            Environment::Preview => "preview",
            Environment::Staging => "staging",
            Environment::Production => "production",
        }
    }
}

} // verus!
