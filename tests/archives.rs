use std::io::Write;

use cargo2port::{
    extract_cargo_lock_from_pkg, find_manifest_entry, lockfile_from_crate_archive,
    lockfile_from_str, path_names_manifest, Error,
};

const LOCK_TEXT: &str = "version = 3\n\n[[package]]\nname = \"foo\"\nversion = \"1.0.0\"\nsource = \"registry+https://github.com/rust-lang/crates.io-index\"\nchecksum = \"00112233445566778899aabbccddeeff00112233445566778899aabbccddeeff\"\n\n[[package]]\nname = \"local\"\nversion = \"0.1.0\"\n";

fn archive(entries: &[(&str, &str)]) -> Vec<u8> {
    let enc = flate2::write::GzEncoder::new(Vec::new(), flate2::Compression::default());
    let mut builder = tar::Builder::new(enc);
    for (path, text) in entries {
        let mut header = tar::Header::new_gnu();
        header.set_size(text.len() as u64);
        header.set_mode(0o644);
        header.set_cksum();
        builder.append_data(&mut header, path, text.as_bytes()).unwrap();
    }
    let mut enc = builder.into_inner().unwrap();
    enc.flush().unwrap();
    enc.finish().unwrap()
}

#[test]
fn archive_without_lockfile_is_missing_lockfile() {
    let pkg = archive(&[("foo-1.0.0/Cargo.toml", "[package]"), ("foo-1.0.0/src/lib.rs", "")]);
    assert!(matches!(extract_cargo_lock_from_pkg(&pkg), Err(Error::MissingLockfile)));
}

#[test]
fn lockfile_is_found_at_any_position() {
    let pkg = archive(&[
        ("foo-1.0.0/Cargo.toml", "[package]"),
        ("foo-1.0.0/src/lib.rs", ""),
        ("foo-1.0.0/Cargo.lock", "the lock"),
    ]);
    assert_eq!(extract_cargo_lock_from_pkg(&pkg).unwrap(), "the lock");
    let pkg = archive(&[("foo-1.0.0/Cargo.lock", "first"), ("foo-1.0.0/README", "x")]);
    assert_eq!(extract_cargo_lock_from_pkg(&pkg).unwrap(), "first");
}

#[test]
fn first_of_several_lockfiles_is_taken() {
    let pkg = archive(&[("a/Cargo.lock", "one"), ("b/Cargo.lock", "two")]);
    assert_eq!(extract_cargo_lock_from_pkg(&pkg).unwrap(), "one");
}

#[test]
fn bytes_that_are_no_archive_fail_with_io_kind() {
    assert!(matches!(extract_cargo_lock_from_pkg(b"not gzip at all"), Err(Error::Tar(_))));
}

#[test]
fn manifest_paths_match_whole_components() {
    let yes = ["Cargo.lock", "a/Cargo.lock", "a/b/Cargo.lock/", "./Cargo.lock", "a/Cargo.lock/."];
    let no = ["", "/", "fooCargo.lock", "a/Cargo.lock.bak", "Cargo.lock/..", "a/cargo.lock"];
    for p in yes {
        assert!(path_names_manifest(&p.as_bytes().to_vec()), "{}", p);
    }
    for p in no {
        assert!(!path_names_manifest(&p.as_bytes().to_vec()), "{}", p);
    }
}

#[test]
fn first_manifest_position() {
    let paths: Vec<Vec<u8>> = ["x/Cargo.toml", "x/Cargo.lock", "y/Cargo.lock"]
        .iter()
        .map(|p| p.as_bytes().to_vec())
        .collect();
    assert_eq!(find_manifest_entry(&paths), Some(1));
    assert_eq!(find_manifest_entry(&paths[..1].to_vec()), None);
}

#[test]
fn lockfile_text_is_parsed() {
    let ps = lockfile_from_str(LOCK_TEXT).unwrap();
    assert_eq!(ps.len(), 2);
    assert_eq!(ps[0].name, "foo");
    assert_eq!(ps[0].version, "1.0.0");
    assert_eq!(
        ps[0].checksum.as_deref(),
        Some("00112233445566778899aabbccddeeff00112233445566778899aabbccddeeff")
    );
    assert_eq!(ps[1].name, "local");
    assert!(ps[1].checksum.is_none());
}

#[test]
fn malformed_lockfile_text_is_refused() {
    assert!(matches!(lockfile_from_str("[[package]]\nname = 3\n"), Err(Error::CargoLock(_))));
}

#[test]
fn crate_archive_lockfile_is_parsed() {
    let pkg = archive(&[("foo-1.0.0/Cargo.toml", "[package]"), ("foo-1.0.0/Cargo.lock", LOCK_TEXT)]);
    let ps = lockfile_from_crate_archive(&pkg).unwrap();
    assert_eq!(ps.len(), 2);
    assert_eq!(ps[0].name, "foo");
    let pkg = archive(&[("foo-1.0.0/Cargo.lock", "not = [toml")]);
    assert!(matches!(lockfile_from_crate_archive(&pkg), Err(Error::CargoLock(_))));
}
