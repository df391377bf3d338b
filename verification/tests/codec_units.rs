use drift::auth::{check_scope, parse_basic_credentials, scope_covers, user_from_claims, AuthService, User};
use drift::ErrorCode;
use drift::config::{AuthConfig, AuthMode, BasicAuthConfig, Config};
use drift::hashing::digest_of;
use drift::manifest_refs::extract_digest_refs;
use drift::metrics::Metrics;
use drift::names::{validate_digest, validate_repo_name, validate_tag};
use drift::parse::{parse_content_range, parse_dec_u64};
use drift::paths::{
    repo_from_prefix, s3_blob_key, sort_parts, strip_key_prefix, FilesystemStorage,
    GhostBayStorage, MultipartUploadPart,
};
use drift::media::{check_known_media_type, check_push_media_type};
use drift::scope::determine_required_scope;
use drift::strutil::{bytes_to_hex, str_lt, u64_to_dec};

#[test]
fn digest_of_known_bytes() {
    let d = digest_of(&b"hello".to_vec());
    assert_eq!(
        d,
        "sha256:2cf24dba5fb0a30e26e83b2ac5b9e29e1b161e5c1fa7425e73043362938b9824"
    );
    let empty = digest_of(&Vec::new());
    assert_eq!(
        empty,
        "sha256:e3b0c44298fc1c149afbf4c8996fb92427ae41e4649b934ca495991b7852b855"
    );
}

#[test]
fn digest_validation() {
    assert!(validate_digest(
        "sha256:2cf24dba5fb0a30e26e83b2ac5b9e29e1b161e5c1fa7425e73043362938b9824"
    ));
    // upper-case hex is refused
    assert!(!validate_digest(
        "sha256:2CF24DBA5FB0A30E26E83B2AC5B9E29E1B161E5C1FA7425E73043362938B9824"
    ));
    // other algorithms are refused
    assert!(!validate_digest(
        "sha512:2cf24dba5fb0a30e26e83b2ac5b9e29e1b161e5c1fa7425e73043362938b9824"
    ));
    assert!(!validate_digest("sha256:short"));
    assert!(!validate_digest(""));
}

#[test]
fn repo_name_validation() {
    assert!(validate_repo_name("lib/app"));
    assert!(validate_repo_name("a"));
    assert!(validate_repo_name("my-org/my.app/sub_part"));
    assert!(!validate_repo_name(""));
    assert!(!validate_repo_name("Upper"));
    assert!(!validate_repo_name("/leading"));
    assert!(!validate_repo_name("trailing/"));
    assert!(!validate_repo_name("a//b"));
    assert!(!validate_repo_name("a..b"));
    assert!(!validate_repo_name("a:b"));
}

#[test]
fn tag_validation() {
    assert!(validate_tag("latest"));
    assert!(validate_tag("V1.2-rc_3"));
    assert!(validate_tag("_hidden"));
    assert!(!validate_tag(".start"));
    assert!(!validate_tag("-start"));
    assert!(!validate_tag(""));
    assert!(!validate_tag("has:colon"));
}

#[test]
fn content_range_parsing() {
    assert_eq!(parse_content_range("bytes 0-4/5"), (0, 5));
    assert_eq!(parse_content_range("bytes 5-9/20"), (5, 10));
    // a missing total is tolerated
    assert_eq!(parse_content_range("bytes 5-9"), (5, 10));
    assert_eq!(parse_content_range("bytes x-y/5"), (0, 0));
    assert_eq!(parse_content_range("junk"), (0, 0));
    assert_eq!(parse_content_range(""), (0, 0));
}

#[test]
fn decimal_parsing_and_rendering() {
    assert_eq!(parse_dec_u64("0"), Some(0));
    assert_eq!(parse_dec_u64("18446744073709551615"), Some(u64::MAX));
    assert_eq!(parse_dec_u64("18446744073709551616"), None);
    assert_eq!(parse_dec_u64(""), None);
    assert_eq!(parse_dec_u64("12a"), None);
    assert_eq!(u64_to_dec(0), "0");
    assert_eq!(u64_to_dec(90210), "90210");
    assert_eq!(u64_to_dec(u64::MAX), "18446744073709551615");
}

#[test]
fn hex_rendering() {
    assert_eq!(bytes_to_hex(&vec![0x00, 0xff, 0x1a]), "00ff1a");
    assert_eq!(bytes_to_hex(&Vec::new()), "");
}

#[test]
fn string_ordering() {
    assert!(str_lt("a", "b"));
    assert!(str_lt("a", "aa"));
    assert!(!str_lt("b", "a"));
    assert!(!str_lt("a", "a"));
}

#[test]
fn scope_derivation() {
    assert_eq!(determine_required_scope("/v2/_catalog", "GET"), "registry:catalog:*");
    assert_eq!(
        determine_required_scope("/v2/lib/app/manifests/v1", "GET"),
        "repository:lib/app:pull"
    );
    assert_eq!(
        determine_required_scope("/v2/lib/app/manifests/v1", "PUT"),
        "repository:lib/app:push"
    );
    assert_eq!(
        determine_required_scope("/v2/lib/app/blobs/sha256:aa", "DELETE"),
        "repository:lib/app:delete"
    );
    // upload endpoints always need push, even on DELETE
    assert_eq!(
        determine_required_scope("/v2/lib/app/blobs/uploads/u1", "DELETE"),
        "repository:lib/app:push"
    );
    assert_eq!(determine_required_scope("/other", "GET"), "registry:*");
}

#[test]
fn scope_matching() {
    assert!(scope_covers("repository:lib/app:pull", "repository:lib/app:pull"));
    assert!(scope_covers("repository:*", "repository:lib/app:pull"));
    assert!(scope_covers("repository:lib/*", "repository:lib/app:push"));
    assert!(!scope_covers("repository:lib/app:pull", "repository:lib/app:push"));
    assert!(!scope_covers("repository:other:*", "repository:lib:pull"));

    let user = User {
        username: "u".to_string(),
        roles: vec!["user".to_string()],
        scopes: vec!["repository:*:pull".to_string()],
    };
    assert!(check_scope(&user, "repository:*:pull"));
    assert!(!check_scope(&user, "registry:catalog:*"));
}

#[test]
fn basic_authentication() {
    let cfg = AuthConfig {
        mode: AuthMode::Basic,
        jwt_secret: "test-secret".to_string(),
        token_expiry_hours: 24,
        basic: Some(BasicAuthConfig {
            users: vec!["admin:changeme".to_string(), "bad-entry".to_string()],
        }),
        oidc: None,
        oauth: None,
    };
    let svc = AuthService::new(&cfg);
    let user = svc.authenticate("admin", "changeme").unwrap();
    assert_eq!(user.username, "admin");
    assert_eq!(user.scopes, vec!["repository:*:pull", "repository:*:push"]);
    assert!(svc.authenticate("admin", "wrong").is_none());
    assert!(svc.authenticate("ghost", "changeme").is_none());
    assert!(svc.authenticate("bad-entry", "").is_none());
}

#[test]
fn default_config_values() {
    let cfg = Config::default();
    assert_eq!(cfg.server.bind_addr, "0.0.0.0:5000");
    assert_eq!(cfg.registry.max_upload_size_mb, 1000);
    assert!(cfg.validate());
    assert_eq!(cfg.max_upload_bytes(), 1000 * 1024 * 1024);
    let gc = cfg.garbage_collector.unwrap();
    assert_eq!(gc.grace_period_hours, 168);
    assert_eq!(gc.max_blobs_per_run, 1000);
}

#[test]
fn storage_paths_and_keys() {
    let fs = FilesystemStorage::new("/data".to_string());
    assert_eq!(
        fs.blob_path("sha256:2cf2aa"),
        "/data/blobs/sh/sha256:2cf2aa"
    );
    assert_eq!(fs.manifest_path("lib/app", "v1"), "/data/manifests/lib/app/v1");
    assert_eq!(fs.upload_path("u1"), "/data/uploads/u1");

    let gb = GhostBayStorage::new("http://localhost".to_string(), "drift".to_string());
    assert_eq!(gb.blob_key("sha256:ab"), "blobs/sha256/sha256:ab");
    assert_eq!(gb.manifest_key("r", "v"), "manifests/r/v");
    assert_eq!(gb.upload_key("u1"), "uploads/u1");

    assert_eq!(s3_blob_key("sha256:ab"), "blobs/sh/sha256:ab");
    assert_eq!(repo_from_prefix("manifests/lib/"), Some("lib".to_string()));
    assert_eq!(repo_from_prefix("blobs/ab/"), None);
    assert_eq!(strip_key_prefix("manifests/r/v1", "manifests/r/"), Some("v1".to_string()));
    assert_eq!(strip_key_prefix("blobs/x", "manifests/"), None);
}

#[test]
fn multipart_parts_sorting() {
    let parts = vec![
        MultipartUploadPart { part_number: 3, etag: "c".to_string(), size: 1 },
        MultipartUploadPart { part_number: 1, etag: "a".to_string(), size: 2 },
        MultipartUploadPart { part_number: 2, etag: "b".to_string(), size: 3 },
    ];
    let sorted = sort_parts(parts);
    let numbers: Vec<i32> = sorted.iter().map(|p| p.part_number).collect();
    assert_eq!(numbers, vec![1, 2, 3]);
    let etags: Vec<&str> = sorted.iter().map(|p| p.etag.as_str()).collect();
    assert_eq!(etags, vec!["a", "b", "c"]);
}

#[test]
fn digest_reference_extraction() {
    let doc = br#"{"config":{"digest":"sha256:aa"},"layers":[{"digest": "sha256:bb"},{"digest":
        "sha256:cc"}],"manifests":[{"digest":"sha256:dd"}]}"#;
    let refs = extract_digest_refs(&doc.to_vec());
    let as_str: Vec<String> =
        refs.iter().map(|r| String::from_utf8(r.clone()).unwrap()).collect();
    assert_eq!(as_str, vec!["sha256:aa", "sha256:bb", "sha256:cc", "sha256:dd"]);

    assert!(extract_digest_refs(&b"{}".to_vec()).is_empty());
    assert!(extract_digest_refs(&b"not json at all".to_vec()).is_empty());
}

#[test]
fn prometheus_rendering() {
    let mut m = Metrics::new();
    m.increment_requests();
    m.increment_requests();
    m.increment_uploads();
    m.record_request_duration(12);
    let text = m.export_prometheus();
    assert!(text.contains("requests_total 2\n"));
    assert!(text.contains("requests_duration_ms 12\n"));
    assert!(text.contains("registry_uploads_total 1\n"));
    assert!(text.contains("registry_downloads_total 0\n"));
    assert!(text.starts_with("# HELP requests_total"));
}

#[test]
fn error_codes_and_statuses() {
    assert_eq!(ErrorCode::BlobUnknown.http_status(), 404);
    assert_eq!(ErrorCode::Unauthorized.http_status(), 401);
    assert_eq!(ErrorCode::Denied.http_status(), 403);
    assert_eq!(ErrorCode::SizeInvalid.http_status(), 413);
    assert_eq!(ErrorCode::RangeInvalid.http_status(), 416);
    assert_eq!(ErrorCode::Unknown.http_status(), 500);
    assert_eq!(ErrorCode::ManifestInvalid.http_status(), 400);
    assert_eq!(ErrorCode::DigestInvalid.code_str(), "DIGEST_INVALID");
    assert_eq!(ErrorCode::ManifestUnverified.code_str(), "MANIFEST_UNVERIFIED");
}

#[test]
fn recognized_media_types() {
    assert!(check_push_media_type("application/vnd.oci.image.index.v1+json"));
    assert!(check_push_media_type("application/vnd.docker.distribution.manifest.list.v2+json"));
    assert!(!check_push_media_type("application/vnd.docker.distribution.manifest.v1+json"));
    assert!(check_known_media_type("application/vnd.docker.distribution.manifest.v1+json"));
    assert!(!check_known_media_type("text/plain"));
}

#[test]
fn basic_credential_parsing() {
    // "admin:changeme" in the standard base64 alphabet
    let parsed = parse_basic_credentials("YWRtaW46Y2hhbmdlbWU=").unwrap();
    assert_eq!(parsed.0, "admin");
    assert_eq!(parsed.1, "changeme");
    // a password may itself hold a colon; the split is at the first one
    let tricky = parse_basic_credentials("dTpwOnc=").unwrap();
    assert_eq!(tricky.0, "u");
    assert_eq!(tricky.1, "p:w");
    assert!(parse_basic_credentials("!!!not-base64!!!").is_none());
    // no colon at all
    assert!(parse_basic_credentials("dXNlcg==").is_none());
}

#[test]
fn bearer_claims_decision() {
    let user = user_from_claims(
        "someone".to_string(),
        vec!["repository:lib/app:pull".to_string()],
        1001,
        1000,
    )
    .unwrap();
    assert_eq!(user.username, "someone");
    assert_eq!(user.scopes, vec!["repository:lib/app:pull"]);
    assert!(user.roles.is_empty());
    // a token expiring exactly now is already expired
    assert!(user_from_claims("someone".to_string(), Vec::new(), 1000, 1000).is_none());
    assert!(user_from_claims("someone".to_string(), Vec::new(), 999, 1000).is_none());
}
