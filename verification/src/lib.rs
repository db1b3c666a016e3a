//! Google Cloud Storage adapter for a table-storage engine.
//!
//! The crate turns a case-insensitive string option bag plus a storage URL
//! into a validated provider configuration and a fully decorated store
//! handle: the raw client is scoped to the root path parsed out of the URL
//! and bounded by a concurrency limiter.

use vstd::prelude::*;

pub mod client;
pub mod config;
pub mod error;
pub mod limits;
pub mod options;
pub mod path;
pub mod registry;
pub mod storage;

verus! {

/// Factory that builds Google Cloud Storage handles from a URL and an
/// option bag.
#[derive(Clone, Copy, Default, Debug)]
pub struct GcpFactory {}

/// Registers this adapter for the common Google Cloud URL scheme.
///
/// Re-registration is tolerated: an entry already present for the scheme is
/// overwritten, never an error.
pub fn register_handlers(
    registry: &mut registry::SchemeRegistry<GcpFactory>,
    _additional_prefixes: Option<url::Url>,
)
    ensures
        final (registry)@ == old(registry)@.insert("gs"@, GcpFactory {}),
{
    registry.register("gs".to_owned(), GcpFactory {});
}

} // verus!
