use deltalake_gcp::client::{plan, scheme_supported};
use deltalake_gcp::error::AssemblyError;
use deltalake_gcp::limits::{concurrency_limit, parse_usize, retries, MAX_IN_FLIGHT_BOUND};
use deltalake_gcp::options::StorageOptions;
use deltalake_gcp::path::parse_root_path;
use deltalake_gcp::GcpFactory;

fn bag(pairs: &[(&str, &str)]) -> StorageOptions {
    StorageOptions(
        pairs.iter().map(|(k, v)| (k.to_string(), v.to_string())).collect(),
    )
}

#[test]
fn root_path_round_trip() {
    let root = parse_root_path("/a/b/c").expect("path should parse");
    assert_eq!(root.as_string(), "a/b/c");
    assert_eq!(root.segment_count(), 3);
    assert_eq!(root.resolve("d"), "a/b/c/d");
    let again = parse_root_path(&root.as_string()).expect("rendered path should parse");
    assert_eq!(again.as_string(), "a/b/c");
}

#[test]
fn empty_and_lone_delimiter_paths_yield_the_empty_root() {
    let root = parse_root_path("").expect("empty path");
    assert_eq!(root.segment_count(), 0);
    assert_eq!(root.as_string(), "");
    assert_eq!(root.resolve("d"), "d");
    let root = parse_root_path("/").expect("lone delimiter");
    assert_eq!(root.segment_count(), 0);
}

#[test]
fn trailing_delimiter_is_ignored() {
    let root = parse_root_path("/_delta_log/").expect("path should parse");
    assert_eq!(root.as_string(), "_delta_log");
}

#[test]
fn bad_paths_are_rejected() {
    for p in ["/a//b", "/a/../b", "/a/./b", "//", "/a/\u{7}"] {
        match parse_root_path(p) {
            Err(AssemblyError::UrlParse(m)) => {
                assert_eq!(m, "url path holds an empty, relative or control segment");
            }
            _ => panic!("path {p:?} should be rejected"),
        }
    }
}

#[test]
fn only_the_gs_scheme_is_supported() {
    assert!(scheme_supported("gs"));
    assert!(!scheme_supported("s3"));
    assert!(!scheme_supported("gsx"));
    assert!(!scheme_supported(""));
}

#[test]
fn numbers_parse_exactly() {
    assert_eq!(parse_usize("0"), Some(0));
    assert_eq!(parse_usize("42"), Some(42));
    assert_eq!(parse_usize("18446744073709551615"), Some(usize::MAX));
    assert_eq!(parse_usize("18446744073709551616"), None);
    assert_eq!(parse_usize(""), None);
    assert_eq!(parse_usize("4x2"), None);
    assert_eq!(parse_usize("-1"), None);
}

#[test]
fn tuning_knobs_come_from_the_bag() {
    let opts = bag(&[
        ("OBJECT_STORE_CONCURRENCY_LIMIT", "17"),
        ("max_retries", "3"),
    ]);
    assert_eq!(concurrency_limit(&opts), 17);
    assert_eq!(retries(&opts), Some(3));
    let opts = bag(&[]);
    assert_eq!(concurrency_limit(&opts), MAX_IN_FLIGHT_BOUND);
    assert_eq!(retries(&opts), None);
    let opts = bag(&[("object_store_concurrency_limit", "not a number")]);
    assert_eq!(concurrency_limit(&opts), MAX_IN_FLIGHT_BOUND);
    let opts = bag(&[("object_store_concurrency_limit", "9223372036854775807")]);
    assert_eq!(concurrency_limit(&opts), MAX_IN_FLIGHT_BOUND);
}

#[test]
fn example_scenario_builds_with_delta_log_root() {
    let opts = bag(&[
        ("GOOGLE_SERVICE_ACCOUNT", "/tmp/sa.json"),
        ("GOOGLE_BUCKET", "mybucket"),
    ]);
    let p = plan("gs", "/_delta_log/", &opts).expect("plan should succeed");
    assert_eq!(p.root.as_string(), "_delta_log");
    assert_eq!(p.config.bucket, Some("mybucket".to_string()));
}

#[test]
fn plan_rejects_foreign_schemes() {
    let opts = bag(&[("google_bearer_token", "tok")]);
    match plan("s3", "/a", &opts) {
        Err(AssemblyError::UrlParse(m)) => {
            assert_eq!(m, "unsupported url scheme for this adapter");
        }
        _ => panic!("foreign scheme should be rejected"),
    }
}

#[test]
fn plan_checks_the_url_before_the_configuration() {
    let opts = bag(&[]);
    match plan("s3", "/a", &opts) {
        Err(AssemblyError::UrlParse(_)) => {}
        _ => panic!("a foreign scheme should fail before the options are looked at"),
    }
    match plan("gs", "/a//b", &opts) {
        Err(AssemblyError::UrlParse(_)) => {}
        _ => panic!("a malformed path should fail before the options are looked at"),
    }
    match plan("gs", "/a", &opts) {
        Err(AssemblyError::Config(_)) => {}
        _ => panic!("with the URL in shape, empty options should fail as a config error"),
    }
}

#[test]
fn percent_escapes_are_decoded_in_the_root_path() {
    let opts = bag(&[("google_bearer_token", "tok")]);
    let p = plan("gs", "/a%20b/", &opts).expect("plan should succeed");
    assert_eq!(p.root.as_string(), "a b");
    let p = plan("gs", "/a%2Fb", &opts).expect("plan should succeed");
    assert_eq!(p.root.segment_count(), 2);
    assert_eq!(p.root.as_string(), "a/b");
    let p = plan("gs", "/caf%C3%A9", &opts).expect("plan should succeed");
    assert_eq!(p.root.as_string(), "caf\u{e9}");
}

#[test]
fn a_stray_percent_passes_through_undecoded() {
    let opts = bag(&[("google_bearer_token", "tok")]);
    let p = plan("gs", "/a%zzb", &opts).expect("plan should succeed");
    assert_eq!(p.root.as_string(), "a%zzb");
}

#[test]
fn escapes_that_are_not_text_are_rejected() {
    let opts = bag(&[("google_bearer_token", "tok")]);
    match plan("gs", "/a%FF", &opts) {
        Err(AssemblyError::UrlParse(m)) => {
            assert_eq!(m, "url path percent-decodes to invalid text");
        }
        _ => panic!("invalid decoded bytes should be rejected"),
    }
}

#[test]
fn parse_url_opts_builds_a_handle_for_a_bearer_token() {
    let factory = GcpFactory::default();
    let url = url::Url::parse("gs://mybucket/a/b").expect("url");
    let opts = bag(&[("google_bearer_token", "tok")]);
    let (_handle, root) = factory.parse_url_opts(&url, &opts).expect("assembly");
    assert_eq!(root.as_string(), "a/b");
    assert_eq!(root.resolve("d"), "a/b/d");
}

#[test]
fn parse_url_opts_decodes_the_url_path() {
    let factory = GcpFactory::default();
    let url = url::Url::parse("gs://mybucket/a b").expect("url");
    assert_eq!(url.path(), "/a%20b");
    let opts = bag(&[("google_bearer_token", "tok")]);
    let (_handle, root) = factory.parse_url_opts(&url, &opts).expect("assembly");
    assert_eq!(root.as_string(), "a b");
}

#[test]
fn parse_url_opts_surfaces_client_init_failures() {
    let factory = GcpFactory::default();
    let url = url::Url::parse("gs://mybucket/a").expect("url");
    let opts = bag(&[("google_service_account", "/nonexistent/sa.json")]);
    match factory.parse_url_opts(&url, &opts) {
        Err(AssemblyError::ClientInit(_)) => {}
        Err(e) => panic!("wrong error kind: {e:?}"),
        Ok(_) => panic!("an unreadable service account file should fail"),
    }
}

#[test]
fn parse_url_opts_propagates_config_errors() {
    let factory = GcpFactory::default();
    let url = url::Url::parse("gs://mybucket/a").expect("url");
    let opts = bag(&[
        ("google_service_account", "/tmp/sa.json"),
        ("google_service_account_key", "{}"),
    ]);
    match factory.parse_url_opts(&url, &opts) {
        Err(AssemblyError::Config(_)) => {}
        _ => panic!("conflicting credentials should fail as a config error"),
    }
}

#[test]
fn parse_url_opts_rejects_bad_paths() {
    let factory = GcpFactory::default();
    let url = url::Url::parse("gs://mybucket/a//b").expect("url");
    let opts = bag(&[("google_bearer_token", "tok")]);
    match factory.parse_url_opts(&url, &opts) {
        Err(AssemblyError::UrlParse(_)) => {}
        _ => panic!("an empty segment should be rejected"),
    }
}
