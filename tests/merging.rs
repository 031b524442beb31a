use cargo2port::{dedup_checksummed, resolve_lockfile_packages, Package};

fn pkg(name: &str, version: &str, checksum: Option<&str>) -> Package {
    Package::new(name.to_string(), version.to_string(), checksum.map(|c| c.to_string()))
}

fn ids(ps: &[Package]) -> Vec<(String, String)> {
    ps.iter().map(|p| (p.name.clone(), p.version.clone())).collect()
}

#[test]
fn same_package_in_two_documents_appears_once() {
    let a = vec![pkg("foo", "1.0", Some("c")), pkg("bar", "2.0", Some("d"))];
    let b = vec![pkg("foo", "1.0", Some("c")), pkg("baz", "3.0", Some("e"))];
    let merged = resolve_lockfile_packages(&vec![a, b]);
    assert_eq!(
        ids(&merged),
        vec![
            ("foo".to_string(), "1.0".to_string()),
            ("bar".to_string(), "2.0".to_string()),
            ("baz".to_string(), "3.0".to_string()),
        ]
    );
    assert_eq!(merged.iter().filter(|p| p.name == "foo").count(), 1);
}

#[test]
fn packages_without_checksum_are_dropped() {
    let a = vec![pkg("local", "0.1.0", None), pkg("foo", "1.0", Some("c"))];
    let merged = resolve_lockfile_packages(&vec![a]);
    assert_eq!(ids(&merged), vec![("foo".to_string(), "1.0".to_string())]);
    assert!(merged.iter().all(|p| p.checksum.is_some()));
}

#[test]
fn versions_of_one_name_are_distinct_packages() {
    let a = vec![pkg("foo", "1.0", Some("c")), pkg("foo", "2.0", Some("d"))];
    let merged = dedup_checksummed(&a);
    assert_eq!(merged.len(), 2);
    assert_eq!(merged[1].checksum.as_deref(), Some("d"));
}

#[test]
fn first_occurrence_decides() {
    let a = vec![pkg("foo", "1.0", Some("first")), pkg("foo", "1.0", Some("second"))];
    let merged = dedup_checksummed(&a);
    assert_eq!(merged.len(), 1);
    assert_eq!(merged[0].checksum.as_deref(), Some("first"));
    // deduplication comes before the checksum filter
    let b = vec![pkg("foo", "1.0", None), pkg("foo", "1.0", Some("later"))];
    assert!(dedup_checksummed(&b).is_empty());
}

#[test]
fn no_documents_merge_to_nothing() {
    assert!(resolve_lockfile_packages(&vec![]).is_empty());
    assert!(resolve_lockfile_packages(&vec![vec![], vec![]]).is_empty());
}
