use deltalake_gcp::config::{build, GcpCredential};
use deltalake_gcp::error::ConfigError;
use deltalake_gcp::options::{normalize, parse_key, GcpConfigKey, StorageOptions};

fn bag(pairs: &[(&str, &str)]) -> StorageOptions {
    StorageOptions(
        pairs.iter().map(|(k, v)| (k.to_string(), v.to_string())).collect(),
    )
}

#[test]
fn unrecognized_keys_are_dropped() {
    let raw = bag(&[
        ("GOOGLE_SERVICE_ACCOUNT", "/tmp/sa.json"),
        ("some_other_provider_key", "x"),
        ("AWS_ACCESS_KEY_ID", "y"),
    ]);
    let n = normalize(&raw);
    assert_eq!(n.service_account, Some("/tmp/sa.json".to_string()));
    assert_eq!(n.service_account_key, None);
    assert_eq!(n.application_credentials, None);
    assert_eq!(n.bearer_token, None);
    assert_eq!(n.bucket, None);
    assert_eq!(n.base_url, None);
    assert_eq!(n.skip_signature, None);
}

#[test]
fn keys_are_case_insensitive_and_last_wins() {
    let raw = bag(&[
        ("Google_Bucket", "first"),
        ("BUCKET_NAME", "second"),
        ("bucket", "third"),
    ]);
    let n = normalize(&raw);
    assert_eq!(n.bucket, Some("third".to_string()));
}

#[test]
fn normalizing_twice_changes_nothing() {
    let raw = bag(&[
        ("GOOGLE_SERVICE_ACCOUNT", "/tmp/sa.json"),
        ("unknown", "x"),
        ("GOOGLE_BUCKET", "b"),
    ]);
    let once = normalize(&raw);
    let twice = normalize(&once.to_raw());
    assert_eq!(once.service_account, twice.service_account);
    assert_eq!(once.service_account_key, twice.service_account_key);
    assert_eq!(once.application_credentials, twice.application_credentials);
    assert_eq!(once.bearer_token, twice.bearer_token);
    assert_eq!(once.bucket, twice.bucket);
    assert_eq!(once.base_url, twice.base_url);
    assert_eq!(once.skip_signature, twice.skip_signature);
}

#[test]
fn rendering_uses_canonical_key_names() {
    let n = normalize(&bag(&[("BUCKET", "b"), ("Bearer_Token", "tok")]));
    let raw = n.to_raw();
    assert_eq!(
        raw.0,
        vec![
            ("google_bearer_token".to_string(), "tok".to_string()),
            ("google_bucket".to_string(), "b".to_string()),
        ]
    );
}

#[test]
fn parse_key_recognizes_all_aliases() {
    assert_eq!(parse_key("google_service_account"), Some(GcpConfigKey::ServiceAccount));
    assert_eq!(parse_key("SERVICE_ACCOUNT_PATH"), Some(GcpConfigKey::ServiceAccount));
    assert_eq!(parse_key("service_account_key"), Some(GcpConfigKey::ServiceAccountKey));
    assert_eq!(
        parse_key("google_application_credentials"),
        Some(GcpConfigKey::ApplicationCredentials)
    );
    assert_eq!(parse_key("Bearer_Token"), Some(GcpConfigKey::BearerToken));
    assert_eq!(parse_key("google_bucket_name"), Some(GcpConfigKey::Bucket));
    assert_eq!(parse_key("base_url"), Some(GcpConfigKey::BaseUrl));
    assert_eq!(parse_key("SKIP_SIGNATURE"), Some(GcpConfigKey::SkipSignature));
    assert_eq!(parse_key("not_a_key"), None);
    assert_eq!(parse_key(""), None);
}

#[test]
fn build_fails_without_credential_naming_the_field() {
    let n = normalize(&bag(&[("GOOGLE_BUCKET", "mybucket")]));
    match build(&n) {
        Err(ConfigError::Invalid(m)) => {
            assert_eq!(
                m,
                "missing credential: set google_service_account, google_service_account_key, \
                 google_application_credentials or google_bearer_token"
            );
        }
        Ok(_) => panic!("build accepted options with no credential"),
    }
}

#[test]
fn build_rejects_path_and_key_together() {
    let n = normalize(&bag(&[
        ("google_service_account", "/tmp/sa.json"),
        ("google_service_account_key", "{}"),
    ]));
    match build(&n) {
        Err(ConfigError::Invalid(m)) => {
            assert_eq!(
                m,
                "google_service_account and google_service_account_key are mutually exclusive"
            );
        }
        Ok(_) => panic!("build accepted mutually exclusive credentials"),
    }
}

#[test]
fn build_rejects_non_boolean_flag() {
    let n = normalize(&bag(&[
        ("google_service_account", "/tmp/sa.json"),
        ("google_skip_signature", "definitely"),
    ]));
    match build(&n) {
        Err(e) => {
            assert_eq!(e.message().as_str(), "google_skip_signature must be a boolean value");
        }
        Ok(_) => panic!("build accepted a non-boolean flag"),
    }
}

#[test]
fn build_resolves_fields_and_flags() {
    let n = normalize(&bag(&[
        ("GOOGLE_SERVICE_ACCOUNT", "/tmp/sa.json"),
        ("GOOGLE_BUCKET", "mybucket"),
        ("google_base_url", "https://example.example"),
        ("skip_signature", "TRUE"),
    ]));
    let c = build(&n).expect("options should build");
    match &c.credential {
        GcpCredential::ServiceAccountPath(p) => assert_eq!(p, "/tmp/sa.json"),
        _ => panic!("wrong credential mechanism"),
    }
    assert_eq!(c.bucket, Some("mybucket".to_string()));
    assert_eq!(c.base_url, Some("https://example.example".to_string()));
    assert!(c.skip_signature);
}

#[test]
fn bearer_token_takes_precedence() {
    let n = normalize(&bag(&[
        ("google_service_account", "/tmp/sa.json"),
        ("google_bearer_token", "tok"),
    ]));
    let c = build(&n).expect("options should build");
    match &c.credential {
        GcpCredential::Bearer(t) => assert_eq!(t, "tok"),
        _ => panic!("bearer token should win precedence"),
    }
}

#[test]
fn application_credentials_are_the_fallback() {
    let n = normalize(&bag(&[("google_application_credentials", "/tmp/adc.json")]));
    let c = build(&n).expect("options should build");
    match &c.credential {
        GcpCredential::ApplicationCredentials(p) => assert_eq!(p, "/tmp/adc.json"),
        _ => panic!("wrong credential mechanism"),
    }
}
