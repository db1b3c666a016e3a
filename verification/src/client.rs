//! Client construction: the one place the adapter touches the provider SDK.
//!
//! Everything here either is pure decision logic with an exact contract
//! (`plan`, the scheme check) or wraps exactly one outside call whose
//! behaviour the contract states as far as its source shows it.

use vstd::prelude::*;

use crate::GcpFactory;
use crate::config::ResolvedConfig;
use crate::config::GcpCredential;
use crate::config::build;
use crate::config::buildable;
use crate::config::credential_resolved;
use crate::config::skip_resolved;
use crate::config::spec_error_message;
use crate::error::AssemblyError;
use crate::error::ConfigError;
use crate::limits::MAX_IN_FLIGHT_BOUND;
use crate::limits::concurrency_limit;
use crate::limits::retries;
use crate::limits::spec_limit;
use crate::limits::spec_retries;
use crate::options::GcpConfigKey;
use crate::options::StorageOptions;
use crate::options::normalize;
use crate::options::normalized_of;
use crate::options::view_opt;
use crate::path::RootPath;
use crate::path::lemma_render_parse;
use crate::path::parse_url_root;
use crate::path::spec_root;
use crate::path::spec_url_error_message;
use crate::path::spec_url_root;
use vstd::string::StringSliceAdditionalSpecFns;

verus! {

#[verifier::external_type_specification]
#[verifier::external_body]
pub struct ExUrl(url::Url);

#[verifier::external_type_specification]
#[verifier::external_body]
pub struct ExGoogleCloudStorageBuilder(object_store::gcp::GoogleCloudStorageBuilder);

#[verifier::external_type_specification]
#[verifier::external_body]
pub struct ExGoogleCloudStorage(object_store::gcp::GoogleCloudStorage);

#[verifier::external_type_specification]
#[verifier::external_body]
pub struct ExObjectStoreError(object_store::Error);

#[verifier::external_type_specification]
#[verifier::external_body]
#[verifier::reject_recursive_types(T)]
pub struct ExPrefixStore<T>(object_store::prefix::PrefixStore<T>);

/// Relies on url::Url::scheme: the scheme of the URL as a lowercase ASCII
/// string.
#[verifier::external_body]
fn url_scheme(u: &url::Url) -> &str {
    u.scheme()
}

/// Relies on url::Url::path: the path portion of the URL.
#[verifier::external_body]
fn url_path(u: &url::Url) -> &str {
    u.path()
}

/// Relies on url::Url::as_str: the serialization of the URL.
#[verifier::external_body]
fn url_as_str(u: &url::Url) -> &str {
    u.as_str()
}

/// Relies on GoogleCloudStorageBuilder::new: a builder with nothing set.
#[verifier::external_body]
fn builder_new() -> object_store::gcp::GoogleCloudStorageBuilder {
    object_store::gcp::GoogleCloudStorageBuilder::new()
}

/// Relies on GoogleCloudStorageBuilder::with_url: records the URL whose
/// host names the bucket.
#[verifier::external_body]
fn builder_with_url(
    b: object_store::gcp::GoogleCloudStorageBuilder,
    url: &str,
) -> object_store::gcp::GoogleCloudStorageBuilder {
    b.with_url(url)
}

/// Relies on GoogleCloudStorageBuilder::with_config: records the value for
/// one recognized configuration key.
#[verifier::external_body]
fn builder_with_config(
    b: object_store::gcp::GoogleCloudStorageBuilder,
    key: GcpConfigKey,
    value: &str,
) -> object_store::gcp::GoogleCloudStorageBuilder {
    let k = match key {
        GcpConfigKey::ServiceAccount => object_store::gcp::GoogleConfigKey::ServiceAccount,
        GcpConfigKey::ServiceAccountKey => object_store::gcp::GoogleConfigKey::ServiceAccountKey,
        GcpConfigKey::ApplicationCredentials => {
            object_store::gcp::GoogleConfigKey::ApplicationCredentials
        },
        GcpConfigKey::BearerToken => object_store::gcp::GoogleConfigKey::BearerToken,
        GcpConfigKey::Bucket => object_store::gcp::GoogleConfigKey::Bucket,
        GcpConfigKey::BaseUrl => object_store::gcp::GoogleConfigKey::BaseUrl,
        GcpConfigKey::SkipSignature => object_store::gcp::GoogleConfigKey::SkipSignature,
    };
    b.with_config(k, value)
}

/// Relies on GoogleCloudStorageBuilder::with_retry: records the retry
/// policy, here the default policy with the given attempt bound.
#[verifier::external_body]
fn builder_with_retry(
    b: object_store::gcp::GoogleCloudStorageBuilder,
    max_retries: usize,
) -> object_store::gcp::GoogleCloudStorageBuilder {
    b.with_retry(object_store::RetryConfig { max_retries, ..Default::default() })
}

/// Relies on GoogleCloudStorageBuilder::build: constructs the raw client,
/// failing on an inconsistent bucket or credential configuration or on
/// unreadable credential material.
#[verifier::external_body]
fn builder_build(b: object_store::gcp::GoogleCloudStorageBuilder) -> Result<
    object_store::gcp::GoogleCloudStorage,
    object_store::Error,
> {
    b.build()
}

/// Relies on the Display impl of object_store::Error: a human-readable
/// message for the failure.
#[verifier::external_body]
fn error_message(e: &object_store::Error) -> String {
    format!("{e}")
}

/// Relies on Path::parse and PrefixStore::new: every operation on the
/// returned store runs against the prefix joined with the operation's
/// relative location (the library's `resolve` states that join exactly).
/// The requires clause admits only prefixes that parse (the round-trip law
/// supplies them), so the conversion cannot fail.
#[verifier::external_body]
fn wrap_prefix(store: object_store::gcp::GoogleCloudStorage, prefix: &str) -> object_store::prefix::PrefixStore<
    object_store::gcp::GoogleCloudStorage,
>
    requires
        spec_root(prefix@) is Some,
{
    let path = object_store::path::Path::parse(prefix).unwrap_or_default();
    object_store::prefix::PrefixStore::new(store, path)
}

/// The fully decorated store handle: the raw client, scoped under the root
/// path, bounded by the in-flight limiter. Shareable and opaque; its one
/// field is the limiter around the scoped client, held behind this struct
/// because the limiter's type declaration carries a trait bound.
#[verifier::external_body]
pub struct StoreHandle {
    /// The decorated store.
    pub inner: object_store::limit::LimitStore<
        object_store::prefix::PrefixStore<object_store::gcp::GoogleCloudStorage>,
    >,
}

/// Relies on LimitStore::new: bounds the number of in-flight operations
/// issued through the store. The requires clause keeps the bound below the
/// largest one the limiter can be built with.
#[verifier::external_body]
fn wrap_limit(
    store: object_store::prefix::PrefixStore<object_store::gcp::GoogleCloudStorage>,
    bound: usize,
) -> StoreHandle
    requires
        bound <= MAX_IN_FLIGHT_BOUND,
{
    StoreHandle { inner: object_store::limit::LimitStore::new(store, bound) }
}

/// Accepts exactly the scheme this adapter is registered for.
pub fn scheme_supported(s: &str) -> (r: bool)
    ensures
        r == (s@ == "gs"@),
{
    proof {
        reveal_strlit("gs");
    }
    let n = s.unicode_len();
    if n != 2 {
        return false;
    }
    let r = s.get_char(0) == 'g' && s.get_char(1) == 's';
    proof {
        if r {
            assert(s@ =~= "gs"@);
        }
    }
    r
}

/// Everything the pipeline decides before it touches the provider SDK.
pub struct AssemblyPlan {
    /// The validated configuration.
    pub config: ResolvedConfig,
    /// The root path parsed out of the URL.
    pub root: RootPath,
    /// The bound handed to the in-flight limiter.
    pub in_flight_bound: usize,
    /// The attempt bound handed to the retry policy, when configured.
    pub max_retries: Option<usize>,
}

/// Decides the whole assembly from plain values, in the assembler's order:
/// the URL's shape first (scheme, then the percent-decoded root path), the
/// option bag second (configuration resolution), then the tuning knobs.
/// Exact over every input; the only step it leaves open is the provider's
/// own client construction.
pub fn plan(scheme: &str, path: &str, options: &StorageOptions) -> (r: Result<
    AssemblyPlan,
    AssemblyError,
>)
    ensures
        ({
            let nv = normalized_of(options.pairs());
            let ur = spec_url_root(path.spec_bytes());
            match r {
                Ok(p) => scheme@ == "gs"@ && ur == Some(p.root@) && p.root.wf() && buildable(nv)
                    && credential_resolved(p.config.credential, nv) && view_opt(p.config.bucket)
                    == nv.bucket && view_opt(p.config.base_url) == nv.base_url
                    && p.config.skip_signature == skip_resolved(nv) && p.in_flight_bound
                    == spec_limit(options.pairs()) && p.in_flight_bound <= MAX_IN_FLIGHT_BOUND
                    && p.max_retries == spec_retries(options.pairs()),
                Err(e) => match e {
                    AssemblyError::UrlParse(m) => (scheme@ != "gs"@ && m@
                        == "unsupported url scheme for this adapter"@) || (scheme@ == "gs"@
                        && ur is None && m@ == spec_url_error_message(path.spec_bytes())),
                    AssemblyError::Config(ce) => scheme@ == "gs"@ && ur is Some && !buildable(nv)
                        && match ce {
                        ConfigError::Invalid(m) => m@ == spec_error_message(nv),
                    },
                    AssemblyError::ClientInit(_) => false,
                },
            }
        }),
{
    if !scheme_supported(scheme) {
        return Err(AssemblyError::UrlParse("unsupported url scheme for this adapter".to_owned()));
    }
    let root = match parse_url_root(path) {
        Ok(rp) => rp,
        Err(e) => {
            return Err(e);
        },
    };
    let normalized = normalize(options);
    let config = match build(&normalized) {
        Ok(c) => c,
        Err(e) => {
            return Err(AssemblyError::Config(e));
        },
    };
    let in_flight_bound = concurrency_limit(options);
    let max_retries = retries(options);
    Ok(AssemblyPlan { config, root, in_flight_bound, max_retries })
}

impl GcpFactory {
    /// Builds the decorated store handle and the root path for a storage
    /// URL and an option bag.
    ///
    /// The URL's shape is checked first: a foreign scheme or a malformed
    /// path fails as a URL error before the options are looked at. Options
    /// that do not build are then rejected with the configuration error
    /// that names the offending field(s). On success the returned root
    /// path is well formed; what the URL contributed is fixed by `plan`,
    /// which this method follows once the scheme and path strings are read
    /// out of the URL.
    pub fn parse_url_opts(&self, url: &url::Url, options: &StorageOptions) -> (r: Result<
        (StoreHandle, RootPath),
        AssemblyError,
    >)
        ensures
            ({
                let nv = normalized_of(options.pairs());
                match r {
                    Ok((h, root)) => buildable(nv) && root.wf(),
                    Err(e) => match e {
                        AssemblyError::Config(ce) => !buildable(nv) && match ce {
                            ConfigError::Invalid(m) => m@ == spec_error_message(nv),
                        },
                        AssemblyError::UrlParse(_) => true,
                        AssemblyError::ClientInit(_) => buildable(nv),
                    },
                }
            }),
    {
        let scheme = url_scheme(url);
        let path = url_path(url);
        let p = match plan(scheme, path, options) {
            Ok(p) => p,
            Err(e) => {
                return Err(e);
            },
        };
        let mut builder = builder_new();
        builder = builder_with_url(builder, url_as_str(url));
        match &p.config.credential {
            GcpCredential::Bearer(t) => {
                builder = builder_with_config(builder, GcpConfigKey::BearerToken, t.as_str());
            },
            GcpCredential::ServiceAccountPath(sp) => {
                builder = builder_with_config(builder, GcpConfigKey::ServiceAccount, sp.as_str());
            },
            GcpCredential::ServiceAccountKey(k) => {
                builder = builder_with_config(builder, GcpConfigKey::ServiceAccountKey, k.as_str());
            },
            GcpCredential::ApplicationCredentials(ap) => {
                builder = builder_with_config(
                    builder,
                    GcpConfigKey::ApplicationCredentials,
                    ap.as_str(),
                );
            },
        }
        if let Some(b) = &p.config.bucket {
            builder = builder_with_config(builder, GcpConfigKey::Bucket, b.as_str());
        }
        if let Some(b) = &p.config.base_url {
            builder = builder_with_config(builder, GcpConfigKey::BaseUrl, b.as_str());
        }
        if p.config.skip_signature {
            builder = builder_with_config(builder, GcpConfigKey::SkipSignature, "true");
        }
        if let Some(m) = p.max_retries {
            builder = builder_with_retry(builder, m);
        }
        let client = match builder_build(builder) {
            Ok(c) => c,
            Err(e) => {
                return Err(AssemblyError::ClientInit(error_message(&e)));
            },
        };
        let prefix = p.root.as_string();
        proof {
            lemma_render_parse(p.root@);
        }
        let scoped = wrap_prefix(client, prefix.as_str());
        let handle = wrap_limit(scoped, p.in_flight_bound);
        Ok((handle, p.root))
    }
}

} // verus!
