use cargo2port::{classify_source, parse_crate_spec, Error, SourceKind};

#[test]
fn crate_spec_splits_name_and_version() {
    let (name, version) = parse_crate_spec("serde@1.0.0").unwrap();
    assert_eq!(name, "serde");
    assert_eq!(version, "1.0.0");
}

#[test]
fn crate_spec_without_separator_is_refused() {
    match parse_crate_spec("serde") {
        Err(Error::Spec(s)) => assert_eq!(s, "serde"),
        other => panic!("unexpected {:?}", other),
    }
}

#[test]
fn crate_spec_extra_parts_are_ignored() {
    let (name, version) = parse_crate_spec("a@b@c").unwrap();
    assert_eq!(name, "a");
    assert_eq!(version, "b");
}

#[test]
fn crate_spec_parts_may_be_empty() {
    let (name, version) = parse_crate_spec("@").unwrap();
    assert_eq!(name, "");
    assert_eq!(version, "");
}

#[test]
fn sources_are_classified_by_syntax() {
    assert_eq!(classify_source("-"), SourceKind::Stdin);
    assert_eq!(classify_source("serde@1.0.0"), SourceKind::Remote);
    assert_eq!(classify_source("dir/Cargo.lock"), SourceKind::Path);
    assert_eq!(classify_source("--"), SourceKind::Path);
    assert_eq!(classify_source(""), SourceKind::Path);
}
