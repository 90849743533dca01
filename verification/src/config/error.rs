//! Errors of configuration operations, and their messages.
use vstd::prelude::*;
use crate::text::{append_string, owned};

verus! {

/// Every error a configuration operation can report.
#[derive(Debug, Clone, PartialEq, Eq)]
pub enum ConfigError {
    /// A required configuration file was not found at the expected path.
    FileNotFound { path: String },
    /// A configuration file could not be parsed.
    ParseError { component: String, path: String, reason: String },
    /// A configuration value failed validation.
    ValidationError { field: String, reason: String },
    /// A configuration file could not be written (`source` is the
    /// operating system's message).
    WriteError { path: String, source: String },
    /// A service could not be reloaded after a change.
    ReloadError { service: String, reason: String },
    /// Any other I/O failure, by its message.
    Io(String),
}

/// A `ValidationError` with the given field and reason, as views.
pub open spec fn is_validation(e: ConfigError, field: Seq<char>, reason: Seq<char>) -> bool {
    e matches ConfigError::ValidationError { field: f, reason: r } && f@ == field && r@ == reason
}

/// The text of an error, as its `Display` renders it.
pub open spec fn config_error_text(e: ConfigError) -> Seq<char> {
    match e {
        ConfigError::FileNotFound { path } => "config file not found: "@ + path@,
        ConfigError::ParseError { component, path, reason } => "failed to parse "@ + component@
            + " config at "@ + path@ + ": "@ + reason@,
        ConfigError::ValidationError { field, reason } => "invalid "@ + field@ + ": "@ + reason@,
        ConfigError::WriteError { path, source } => "failed to write "@ + path@ + ": "@ + source@,
        ConfigError::ReloadError { service, reason } => "failed to reload "@ + service@ + ": "@
            + reason@,
        ConfigError::Io(message) => message@,
    }
}

impl ConfigError {
    /// The human-readable message of this error.
    pub fn message(&self) -> (r: String)
        ensures
            r@ == config_error_text(*self),
    {
        match self {
            ConfigError::FileNotFound { path } => {
                let mut s = owned("config file not found: ");
                append_string(&mut s, path);
                s
            },
            ConfigError::ParseError { component, path, reason } => {
                let mut s = owned("failed to parse ");
                append_string(&mut s, component);
                s.append(" config at ");
                append_string(&mut s, path);
                s.append(": ");
                append_string(&mut s, reason);
                s
            },
            ConfigError::ValidationError { field, reason } => {
                let mut s = owned("invalid ");
                append_string(&mut s, field);
                s.append(": ");
                append_string(&mut s, reason);
                s
            },
            ConfigError::WriteError { path, source } => {
                let mut s = owned("failed to write ");
                append_string(&mut s, path);
                s.append(": ");
                append_string(&mut s, source);
                s
            },
            ConfigError::ReloadError { service, reason } => {
                let mut s = owned("failed to reload ");
                append_string(&mut s, service);
                s.append(": ");
                append_string(&mut s, reason);
                s
            },
            ConfigError::Io(message) => message.clone(),
        }
    }
}

/// A validation error for `field` with `reason`.
pub fn validation_error(field: &str, reason: String) -> (e: ConfigError)
    ensures
        is_validation(e, field@, reason@),
{
    ConfigError::ValidationError { field: owned(field), reason }
}

} // verus!
