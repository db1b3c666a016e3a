//! Error taxonomy of the adapter.
//!
//! Every failure is returned as a typed value; nothing is logged and
//! swallowed. None of these conditions is retryable at this layer.

use vstd::prelude::*;

verus! {

/// A structurally invalid configuration. The payload names the offending
/// field(s) so that callers can present an actionable message.
#[derive(Debug)]
pub enum ConfigError {
    Invalid(String),
}

impl ConfigError {
    /// The message naming the offending field(s).
    pub fn message(&self) -> (r: &String)
        ensures
            self == ConfigError::Invalid(*r),
    {
        match self {
            ConfigError::Invalid(m) => m,
        }
    }
}

/// A failure of the assembly pipeline.
#[derive(Debug)]
pub enum AssemblyError {
    /// Malformed or unsupported URL shape.
    UrlParse(String),
    /// Unrecognized, contradictory or missing configuration.
    Config(ConfigError),
    /// The underlying client could not be constructed.
    ClientInit(String),
}

} // verus!
