use drift::engine::Registry;

const OCI_MANIFEST: &str = "application/vnd.oci.image.manifest.v1+json";

fn registry_with_repos(names: &[&str]) -> Registry {
    let mut reg = Registry::new(1024 * 1024);
    for name in names {
        reg.put_manifest(name, "latest", OCI_MANIFEST, b"{\"schemaVersion\":2}".to_vec(), 1)
            .unwrap();
    }
    reg
}

#[test]
fn catalog_pagination() {
    let reg = registry_with_repos(&["a", "b", "c", "d", "e"]);

    let (page1, link1) = reg.catalog(2, None);
    assert_eq!(page1, vec!["a".to_string(), "b".to_string()]);
    assert_eq!(link1.unwrap(), "</v2/_catalog?n=2&last=b>; rel=\"next\"");

    let (page2, link2) = reg.catalog(2, Some("b"));
    assert_eq!(page2, vec!["c".to_string(), "d".to_string()]);
    assert_eq!(link2.unwrap(), "</v2/_catalog?n=2&last=d>; rel=\"next\"");

    let (page3, link3) = reg.catalog(2, Some("d"));
    assert_eq!(page3, vec!["e".to_string()]);
    assert!(link3.is_none());
}

#[test]
fn catalog_is_sorted_regardless_of_insertion_order() {
    let reg = registry_with_repos(&["zeta", "alpha", "mid"]);
    let (page, link) = reg.catalog(100, None);
    assert_eq!(page, vec!["alpha".to_string(), "mid".to_string(), "zeta".to_string()]);
    assert!(link.is_none());
}

#[test]
fn tags_pagination() {
    let mut reg = Registry::new(1024 * 1024);
    for t in ["t1", "t2", "t3"] {
        reg.put_manifest("lib/app", t, OCI_MANIFEST, b"{\"schemaVersion\":2}".to_vec(), 1)
            .unwrap();
    }
    let (tags, link) = reg.tags_list("lib/app", 2, None);
    assert_eq!(tags, vec!["t1".to_string(), "t2".to_string()]);
    assert_eq!(link.unwrap(), "</v2/lib/app/tags/list?n=2&last=t2>; rel=\"next\"");

    let (rest, link2) = reg.tags_list("lib/app", 2, Some("t2"));
    assert_eq!(rest, vec!["t3".to_string()]);
    assert!(link2.is_none());
}

#[test]
fn tags_of_unknown_repository_are_empty() {
    let reg = Registry::new(1024);
    let (tags, link) = reg.tags_list("ghost", 10, None);
    assert!(tags.is_empty());
    assert!(link.is_none());
}

#[test]
fn seek_past_everything_is_empty() {
    let reg = registry_with_repos(&["a", "b"]);
    let (page, link) = reg.catalog(10, Some("z"));
    assert!(page.is_empty());
    assert!(link.is_none());
}
