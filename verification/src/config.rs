//! Configuration building: validating and completing normalized options
//! into a self-consistent provider configuration.
//!
//! Provider rules, applied in this order:
//! 1. A service account path and inline service account key material are
//!    mutually exclusive; setting both is rejected.
//! 2. The unsigned-requests flag, when set, must hold a boolean-like value.
//! 3. Exactly one credential mechanism is resolved, by fixed precedence:
//!    bearer token, then service account path, then service account key,
//!    then application credentials. A configuration with no credential at
//!    all is rejected here, even though the provider's own builder would
//!    fall back to ambient credentials (an application-default file or the
//!    instance metadata service): requiring an explicit mechanism keeps a
//!    built configuration independent of the runtime environment.

use vstd::prelude::*;

use crate::error::ConfigError;
use crate::options::NormalizedOptions;
use crate::options::OptionsView;
use crate::options::lower_eq;
use crate::options::lower_seq;
use crate::options::view_opt;

verus! {

/// The credential mechanism a configuration resolved to.
#[derive(Clone, Debug)]
pub enum GcpCredential {
    /// A bearer token used directly for authorization.
    Bearer(String),
    /// Path to a service account file.
    ServiceAccountPath(String),
    /// Inline service account key material.
    ServiceAccountKey(String),
    /// Path to an application credentials file.
    ApplicationCredentials(String),
}

/// A validated, internally consistent provider configuration.
#[derive(Clone, Debug)]
pub struct ResolvedConfig {
    /// The resolved credential mechanism.
    pub credential: GcpCredential,
    /// The bucket, when given as an option (the URL may supply it instead).
    pub bucket: Option<String>,
    /// Endpoint override for the provider API, when given.
    pub base_url: Option<String>,
    /// Whether requests are sent unsigned. Defaults to false.
    pub skip_signature: bool,
}

/// The boolean a configuration value stands for, if any
/// (ASCII-case-insensitive).
pub open spec fn bool_of(s: Seq<char>) -> Option<bool> {
    let l = lower_seq(s);
    if l == "1"@ || l == "true"@ || l == "on"@ || l == "yes"@ || l == "y"@ {
        Some(true)
    } else if l == "0"@ || l == "false"@ || l == "off"@ || l == "no"@ || l == "n"@ {
        Some(false)
    } else {
        None
    }
}

/// Parses a boolean-like configuration value.
pub fn parse_bool(s: &str) -> (r: Option<bool>)
    ensures
        r == bool_of(s@),
{
    if lower_eq(s, "1") || lower_eq(s, "true")
        || lower_eq(s, "on") || lower_eq(s, "yes")
        || lower_eq(s, "y") {
        Some(true)
    } else if lower_eq(s, "0") || lower_eq(s, "false")
        || lower_eq(s, "off") || lower_eq(s, "no")
        || lower_eq(s, "n") {
        Some(false)
    } else {
        None
    }
}

/// Both a service account path and inline key material are set.
pub open spec fn has_conflict(n: OptionsView) -> bool {
    n.service_account is Some && n.service_account_key is Some
}

/// The unsigned-requests flag is set but holds no boolean-like value.
pub open spec fn has_bad_flag(n: OptionsView) -> bool {
    match n.skip_signature {
        Some(s) => bool_of(s) is None,
        None => false,
    }
}

/// No credential mechanism is configured at all.
pub open spec fn missing_credential(n: OptionsView) -> bool {
    n.bearer_token is None && n.service_account is None && n.service_account_key is None
        && n.application_credentials is None
}

/// The normalized options build into a configuration.
pub open spec fn buildable(n: OptionsView) -> bool {
    !has_conflict(n) && !has_bad_flag(n) && !missing_credential(n)
}

/// The credential that precedence resolves to: bearer token over service
/// account path over inline key over application credentials.
pub open spec fn credential_resolved(c: GcpCredential, n: OptionsView) -> bool {
    match c {
        GcpCredential::Bearer(t) => n.bearer_token == Some(t@),
        GcpCredential::ServiceAccountPath(p) => n.bearer_token is None && n.service_account
            == Some(p@),
        GcpCredential::ServiceAccountKey(k) => n.bearer_token is None && n.service_account is None
            && n.service_account_key == Some(k@),
        GcpCredential::ApplicationCredentials(p) => n.bearer_token is None
            && n.service_account is None && n.service_account_key is None
            && n.application_credentials == Some(p@),
    }
}

/// The unsigned-requests setting a configuration resolves to; unset means
/// signed requests.
pub open spec fn skip_resolved(n: OptionsView) -> bool {
    match n.skip_signature {
        Some(s) => bool_of(s) == Some(true),
        None => false,
    }
}

/// The message of the error that `build` reports, for options that do not
/// build.
pub open spec fn spec_error_message(n: OptionsView) -> Seq<char> {
    if has_conflict(n) {
        "google_service_account and google_service_account_key are mutually exclusive"@
    } else if has_bad_flag(n) {
        "google_skip_signature must be a boolean value"@
    } else {
        "missing credential: set google_service_account, google_service_account_key, google_application_credentials or google_bearer_token"@
    }
}

/// Validates and completes normalized options into a configuration.
///
/// Identical options always yield an identical configuration or an
/// identical error. The error names the offending field(s).
pub fn build(n: &NormalizedOptions) -> (r: Result<ResolvedConfig, ConfigError>)
    ensures
        match r {
            Ok(c) => buildable(n@) && credential_resolved(c.credential, n@) && view_opt(c.bucket)
                == n@.bucket && view_opt(c.base_url) == n@.base_url && c.skip_signature
                == skip_resolved(n@),
            Err(e) => !buildable(n@) && match e {
                ConfigError::Invalid(m) => m@ == spec_error_message(n@),
            },
        },
{
    if n.service_account.is_some() && n.service_account_key.is_some() {
        return Err(
            ConfigError::Invalid(
                "google_service_account and google_service_account_key are mutually exclusive".to_owned(),
            ),
        );
    }
    let skip_signature: bool = match &n.skip_signature {
        Some(s) => {
            match parse_bool(s.as_str()) {
                Some(b) => b,
                None => {
                    return Err(
                        ConfigError::Invalid("google_skip_signature must be a boolean value".to_owned()),
                    );
                },
            }
        },
        None => false,
    };
    let credential: GcpCredential = if let Some(t) = &n.bearer_token {
        GcpCredential::Bearer(t.clone())
    } else if let Some(p) = &n.service_account {
        GcpCredential::ServiceAccountPath(p.clone())
    } else if let Some(k) = &n.service_account_key {
        GcpCredential::ServiceAccountKey(k.clone())
    } else if let Some(p) = &n.application_credentials {
        GcpCredential::ApplicationCredentials(p.clone())
    } else {
        return Err(
            ConfigError::Invalid(
                "missing credential: set google_service_account, google_service_account_key, google_application_credentials or google_bearer_token".to_owned(),
            ),
        );
    };
    Ok(
        ResolvedConfig {
            credential,
            bucket: match &n.bucket {
                Some(b) => Some(b.clone()),
                None => None,
            },
            base_url: match &n.base_url {
                Some(b) => Some(b.clone()),
                None => None,
            },
            skip_signature,
        },
    )
}

} // verus!
