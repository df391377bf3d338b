use drift::engine::Registry;
use drift::ErrorCode;

const OCI_MANIFEST: &str = "application/vnd.oci.image.manifest.v1+json";

fn body_v1() -> Vec<u8> {
    br#"{"schemaVersion":2,"mediaType":"application/vnd.oci.image.manifest.v1+json","config":{"digest":"sha256:aaaa"},"layers":[]}"#
        .to_vec()
}

#[test]
fn manifest_tag_resolution() {
    let mut reg = Registry::new(1024 * 1024);
    let digest = reg.put_manifest("lib/app", "v1", OCI_MANIFEST, body_v1(), 10).unwrap();
    assert!(digest.starts_with("sha256:"));

    let by_tag = reg.get_manifest("lib/app", "v1").unwrap();
    assert_eq!(by_tag.data, body_v1());
    assert_eq!(by_tag.digest, digest);
    assert_eq!(by_tag.media_type, OCI_MANIFEST);

    let by_digest = reg.get_manifest("lib/app", &digest).unwrap();
    assert_eq!(by_digest.data, body_v1());

    let head = reg.head_manifest("lib/app", "v1").unwrap();
    assert_eq!(head.content_length as usize, body_v1().len());
    assert_eq!(head.digest, digest);
}

#[test]
fn tag_replacement_leaves_history() {
    let mut reg = Registry::new(1024 * 1024);
    let m1 = b"{\"schemaVersion\":2,\"layers\":[1]}".to_vec();
    let m2 = b"{\"schemaVersion\":2,\"layers\":[2]}".to_vec();
    let d1 = reg.put_manifest("x", "latest", OCI_MANIFEST, m1.clone(), 1).unwrap();
    let d2 = reg.put_manifest("x", "latest", OCI_MANIFEST, m2.clone(), 2).unwrap();
    assert_ne!(d1, d2);
    assert_eq!(reg.get_manifest("x", "latest").unwrap().data, m2);
    assert_eq!(reg.get_manifest("x", &d1).unwrap().data, m1);
    assert_eq!(reg.get_manifest("x", &d2).unwrap().data, m2);
}

#[test]
fn repeated_put_is_idempotent() {
    let mut reg = Registry::new(1024 * 1024);
    let d1 = reg.put_manifest("r", "v", OCI_MANIFEST, body_v1(), 1).unwrap();
    let d2 = reg.put_manifest("r", "v", OCI_MANIFEST, body_v1(), 2).unwrap();
    assert_eq!(d1, d2);
    assert_eq!(reg.get_manifest("r", "v").unwrap().data, body_v1());
}

#[test]
fn empty_body_is_invalid() {
    let mut reg = Registry::new(1024 * 1024);
    assert_eq!(
        reg.put_manifest("r", "v", OCI_MANIFEST, Vec::new(), 1).unwrap_err(),
        ErrorCode::ManifestInvalid
    );
}

#[test]
fn unsupported_media_type() {
    let mut reg = Registry::new(1024 * 1024);
    assert_eq!(
        reg.put_manifest("r", "v", "text/plain", body_v1(), 1).unwrap_err(),
        ErrorCode::Unsupported
    );
    // the legacy v1 type is read-only, so a push with it is refused too
    assert_eq!(
        reg.put_manifest(
            "r",
            "v",
            "application/vnd.docker.distribution.manifest.v1+json",
            body_v1(),
            1
        )
        .unwrap_err(),
        ErrorCode::Unsupported
    );
}

#[test]
fn media_type_match_is_case_insensitive() {
    let mut reg = Registry::new(1024 * 1024);
    let d = reg
        .put_manifest("r", "v", "Application/VND.OCI.Image.Manifest.V1+JSON", body_v1(), 1)
        .unwrap();
    // the media type is stored verbatim and served back as uploaded
    let got = reg.get_manifest("r", &d).unwrap();
    assert_eq!(got.media_type, "Application/VND.OCI.Image.Manifest.V1+JSON");
}

#[test]
fn oversized_manifest() {
    let mut reg = Registry::new(8);
    assert_eq!(
        reg.put_manifest("r", "v", OCI_MANIFEST, b"123456789".to_vec(), 1).unwrap_err(),
        ErrorCode::SizeInvalid
    );
}

#[test]
fn digest_reference_must_match_body() {
    let mut reg = Registry::new(1024 * 1024);
    let wrong = "sha256:0000000000000000000000000000000000000000000000000000000000000000";
    assert_eq!(
        reg.put_manifest("r", wrong, OCI_MANIFEST, body_v1(), 1).unwrap_err(),
        ErrorCode::ManifestUnverified
    );
    let right = reg.put_manifest("r", "v", OCI_MANIFEST, body_v1(), 1).unwrap();
    // storing at the correct digest reference succeeds
    let again = reg.put_manifest("r", &right, OCI_MANIFEST, body_v1(), 2).unwrap();
    assert_eq!(right, again);
}

#[test]
fn delete_tag_keeps_manifest() {
    let mut reg = Registry::new(1024 * 1024);
    let d = reg.put_manifest("r", "v", OCI_MANIFEST, body_v1(), 1).unwrap();
    reg.delete_manifest("r", "v").unwrap();
    assert_eq!(reg.get_manifest("r", "v").unwrap_err(), ErrorCode::ManifestUnknown);
    assert_eq!(reg.get_manifest("r", &d).unwrap().data, body_v1());
}

#[test]
fn delete_by_digest_leaves_tag_dangling() {
    let mut reg = Registry::new(1024 * 1024);
    let d = reg.put_manifest("r", "v", OCI_MANIFEST, body_v1(), 1).unwrap();
    reg.delete_manifest("r", &d).unwrap();
    assert_eq!(reg.get_manifest("r", &d).unwrap_err(), ErrorCode::ManifestUnknown);
    // the dangling tag no longer reads
    assert_eq!(reg.get_manifest("r", "v").unwrap_err(), ErrorCode::ManifestUnknown);
}

#[test]
fn unknown_manifest_reported() {
    let reg = Registry::new(1024);
    assert_eq!(reg.get_manifest("r", "missing").unwrap_err(), ErrorCode::ManifestUnknown);
    assert_eq!(reg.head_manifest("r", "missing").unwrap_err(), ErrorCode::ManifestUnknown);
}

#[test]
fn bad_reference_on_put() {
    let mut reg = Registry::new(1024);
    assert_eq!(
        reg.put_manifest("r", "bad:ref", OCI_MANIFEST, body_v1(), 1).unwrap_err(),
        ErrorCode::TagInvalid
    );
}
