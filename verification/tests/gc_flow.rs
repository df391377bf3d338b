use drift::config::GarbageCollectorConfig;
use drift::engine::Registry;
use drift::hashing::digest_of;
use drift::ErrorCode;

const OCI_MANIFEST: &str = "application/vnd.oci.image.manifest.v1+json";

fn gc_cfg(grace_hours: u64, dry_run: bool) -> GarbageCollectorConfig {
    GarbageCollectorConfig {
        enabled: true,
        interval_hours: 24,
        grace_period_hours: grace_hours,
        dry_run,
        max_blobs_per_run: 1000,
    }
}

#[test]
fn grace_period_shields_young_blobs() {
    let mut reg = Registry::new(1024 * 1024);
    let data = b"unreferenced-bytes".to_vec();
    let digest = digest_of(&data);
    reg.upload_monolithic("r", &digest, data.clone(), 1000).unwrap();

    // one hour later: the orphan is found but too young to die
    let m = reg.run_gc(&gc_cfg(24, false), 1000 + 3600);
    assert_eq!(m.orphaned_blobs_found, 1);
    assert_eq!(m.blobs_deleted, 0);
    assert_eq!(reg.get_blob(&digest).unwrap().as_slice(), data.as_slice());

    // twenty-five hours later: it is collected
    let m2 = reg.run_gc(&gc_cfg(24, false), 1000 + 25 * 3600);
    assert_eq!(m2.blobs_deleted, 1);
    assert_eq!(m2.bytes_freed, data.len() as u64);
    assert_eq!(reg.get_blob(&digest).unwrap_err(), ErrorCode::BlobUnknown);
}

#[test]
fn referenced_blobs_survive() {
    let mut reg = Registry::new(1024 * 1024);
    let layer = b"layer-bytes".to_vec();
    let layer_digest = digest_of(&layer);
    reg.upload_monolithic("r", &layer_digest, layer.clone(), 10).unwrap();

    let manifest = format!(
        "{{\"schemaVersion\":2,\"layers\":[{{\"digest\":\"{}\"}}]}}",
        layer_digest
    )
    .into_bytes();
    reg.put_manifest("r", "latest", OCI_MANIFEST, manifest, 10).unwrap();

    let m = reg.run_gc(&gc_cfg(0, false), 10_000_000);
    assert_eq!(m.orphaned_blobs_found, 0);
    assert_eq!(m.blobs_deleted, 0);
    assert_eq!(reg.get_blob(&layer_digest).unwrap().as_slice(), layer.as_slice());
}

#[test]
fn dry_run_deletes_nothing() {
    let mut reg = Registry::new(1024 * 1024);
    let data = b"soon-gone".to_vec();
    let digest = digest_of(&data);
    reg.upload_monolithic("r", &digest, data, 0).unwrap();

    let m = reg.run_gc(&gc_cfg(0, true), 10_000_000);
    assert_eq!(m.orphaned_blobs_found, 1);
    assert_eq!(m.blobs_deleted, 1);
    // the dry run accounts the bytes it would have freed
    assert_eq!(m.bytes_freed, b"soon-gone".len() as u64);
    // counted and accounted, but still readable
    assert!(reg.get_blob(&digest).is_ok());
}

#[test]
fn deletion_bound_per_run() {
    let mut reg = Registry::new(1024 * 1024);
    for i in 0..3u8 {
        let data = vec![i; 4];
        let digest = digest_of(&data);
        reg.upload_monolithic("r", &digest, data, 0).unwrap();
    }
    let mut cfg = gc_cfg(0, false);
    cfg.max_blobs_per_run = 2;
    let m = reg.run_gc(&cfg, 10_000_000);
    assert_eq!(m.orphaned_blobs_found, 3);
    assert_eq!(m.blobs_deleted, 2);
    let m2 = reg.run_gc(&cfg, 10_000_000);
    assert_eq!(m2.blobs_deleted, 1);
}

#[test]
fn untagged_manifests_are_collected() {
    let mut reg = Registry::new(1024 * 1024);
    let body = b"{\"schemaVersion\":2}".to_vec();
    let tagged = reg.put_manifest("r", "keep", OCI_MANIFEST, body.clone(), 0).unwrap();

    let other = b"{\"schemaVersion\":2,\"layers\":[]}".to_vec();
    let other_digest = digest_of(&other);
    // stored only under its digest: no tag points at it
    reg.put_manifest("r", &other_digest, OCI_MANIFEST, other, 0).unwrap();

    let m = reg.run_gc(&gc_cfg(0, false), 10_000_000);
    assert_eq!(m.orphaned_manifests_found, 1);
    assert_eq!(m.manifests_deleted, 1);
    assert!(reg.get_manifest("r", &tagged).is_ok());
    assert_eq!(reg.get_manifest("r", &other_digest).unwrap_err(), ErrorCode::ManifestUnknown);
}

#[test]
fn sub_manifest_references_count() {
    let mut reg = Registry::new(1024 * 1024);
    let blob = b"config-bytes".to_vec();
    let blob_digest = digest_of(&blob);
    reg.upload_monolithic("r", &blob_digest, blob, 0).unwrap();

    // an index manifest referencing the digest under "manifests"
    let index = format!(
        "{{\"schemaVersion\":2,\"manifests\":[{{\"digest\": \"{}\",\"platform\":{{}}}}]}}",
        blob_digest
    )
    .into_bytes();
    reg.put_manifest("r", "idx", OCI_MANIFEST, index, 0).unwrap();

    let m = reg.run_gc(&gc_cfg(0, false), 10_000_000);
    assert_eq!(m.blobs_deleted, 0);
    assert!(reg.get_blob(&blob_digest).is_ok());
}

#[test]
fn mark_covers_untagged_manifests() {
    let mut reg = Registry::new(1024 * 1024);
    let blob = b"held-by-untagged".to_vec();
    let blob_digest = digest_of(&blob);
    reg.upload_monolithic("r", &blob_digest, blob, 0).unwrap();

    let manifest =
        format!("{{\"schemaVersion\":2,\"config\":{{\"digest\":\"{}\"}}}}", blob_digest)
            .into_bytes();
    let manifest_digest = digest_of(&manifest);
    // stored by digest only: no tag protects the manifest itself
    reg.put_manifest("r", &manifest_digest, OCI_MANIFEST, manifest, 0).unwrap();

    // the first run marks through the untagged manifest, so the blob stays,
    // while the manifest itself is collected
    let m = reg.run_gc(&gc_cfg(0, false), 10_000_000);
    assert_eq!(m.blobs_deleted, 0);
    assert_eq!(m.manifests_deleted, 1);
    assert!(reg.get_blob(&blob_digest).is_ok());

    // with its referent gone, the next run collects the blob
    let m2 = reg.run_gc(&gc_cfg(0, false), 10_000_000);
    assert_eq!(m2.blobs_deleted, 1);
}
