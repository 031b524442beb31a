use std::io::Read;

use vstd::prelude::*;

use crate::error::Error;

verus! {

/// The entry paths of a gzip-compressed tar archive, in archive order, up
/// to the first entry that could not be read, and whether reading stopped
/// at such a failure.
pub uninterp spec fn archive_listing(archive: Seq<u8>) -> (Seq<Seq<u8>>, bool);

/// The text of the entry at `index` of a gzip-compressed tar archive, or
/// `None` where it cannot be read as UTF-8 text.
pub uninterp spec fn archive_entry_text(archive: Seq<u8>, index: nat) -> Option<Seq<char>>;

/// Relies on flate2's `read::GzDecoder` and tar's `Archive::entries` and
/// `Entry::path_bytes`: the entries' paths, in archive order, until the
/// iteration ends or yields an error.
#[verifier::external_body]
fn list_archive_paths(archive: &[u8]) -> (r: (Vec<Vec<u8>>, Option<std::io::ErrorKind>))
    ensures
        archive_listing(archive@) == (r.0@.map_values(|p: Vec<u8>| p@), r.1 is Some),
{
    let mut paths = Vec::new();
    let mut ar = tar::Archive::new(flate2::read::GzDecoder::new(archive));
    let entries = match ar.entries() {
        Ok(entries) => entries,
        Err(e) => return (paths, Some(e.kind())),
    };
    for entry in entries {
        match entry {
            Ok(entry) => paths.push(entry.path_bytes().into_owned()),
            Err(e) => return (paths, Some(e.kind())),
        }
    }
    (paths, None)
}

/// Relies on flate2's `read::GzDecoder`, tar's `Archive::entries` and
/// `Read::read_to_string` on an entry: the text of the entry at `index`.
#[verifier::external_body]
fn read_archive_entry(archive: &[u8], index: usize) -> (r: Result<String, std::io::ErrorKind>)
    ensures
        match r {
            Ok(s) => archive_entry_text(archive@, index as nat) == Some(s@),
            Err(_) => archive_entry_text(archive@, index as nat) is None,
        },
{
    let mut ar = tar::Archive::new(flate2::read::GzDecoder::new(archive));
    let mut entries = ar.entries().map_err(|e| e.kind())?;
    match entries.nth(index) {
        Some(Ok(mut entry)) => {
            let mut text = String::new();
            entry.read_to_string(&mut text).map_err(|e| e.kind())?;
            Ok(text)
        },
        Some(Err(e)) => Err(e.kind()),
        None => Err(std::io::ErrorKind::UnexpectedEof),
    }
}

/// The bytes of the file name `Cargo.lock`.
pub open spec fn manifest_name() -> Seq<u8> {
    seq![67u8, 97u8, 114u8, 103u8, 111u8, 46u8, 108u8, 111u8, 99u8, 107u8]
}

/// A path without the trailing separators and `.` components that do not
/// change what it names.
pub open spec fn trimmed(p: Seq<u8>) -> Seq<u8>
    decreases p.len(),
{
    if p.len() > 0 && p.last() == 47u8 {
        trimmed(p.drop_last())
    } else if p.len() >= 2 && p.last() == 46u8 && p[p.len() - 2] == 47u8 {
        trimmed(p.take(p.len() - 2))
    } else {
        p
    }
}

/// The last component of the path is `Cargo.lock`.
pub open spec fn names_manifest(p: Seq<u8>) -> bool {
    let t = trimmed(p);
    let n = t.len();
    &&& n >= 10
    &&& t.subrange(n - 10, n as int) == manifest_name()
    &&& (n == 10 || t[n - 11] == 47u8)
}

/// The position of the first path that names a `Cargo.lock`.
pub open spec fn first_manifest_entry(paths: Seq<Seq<u8>>) -> Option<int>
    decreases paths.len(),
{
    if paths.len() == 0 {
        None
    } else {
        match first_manifest_entry(paths.drop_last()) {
            Some(i) => Some(i),
            None => if names_manifest(paths.last()) {
                Some(paths.len() - 1)
            } else {
                None
            },
        }
    }
}

/// Tells whether the last component of the path `p` is `Cargo.lock`.
pub fn path_names_manifest(p: &Vec<u8>) -> (r: bool)
    ensures
        r == names_manifest(p@),
{
    let mut e: usize = p.len();
    assert(p@.take(e as int) =~= p@);
    while e > 0 && (p[e - 1] == 47u8 || (e >= 2 && p[e - 1] == 46u8 && p[e - 2] == 47u8))
        invariant
            e <= p.len(),
            trimmed(p@.take(e as int)) == trimmed(p@),
        decreases e,
    {
        let ghost q = p@.take(e as int);
        if p[e - 1] == 47u8 {
            assert(q.drop_last() =~= p@.take(e - 1));
            e = e - 1;
        } else {
            assert(q.take(q.len() - 2) =~= p@.take(e - 2));
            e = e - 2;
        }
    }
    let ghost t = p@.take(e as int);
    assert(trimmed(t) == t);
    if e < 10 {
        return false;
    }
    let name: [u8; 10] = [67u8, 97u8, 114u8, 103u8, 111u8, 46u8, 108u8, 111u8, 99u8, 107u8];
    let mut k: usize = 0;
    while k < 10
        invariant
            10 <= e <= p.len(),
            t == p@.take(e as int),
            trimmed(p@) == t,
            name@ == manifest_name(),
            k <= 10,
            forall|j: int| 0 <= j < k ==> p@[e - 10 + j] == manifest_name()[j],
        decreases 10 - k,
    {
        if p[e - 10 + k] != name[k] {
            assert(t.subrange(e - 10, e as int)[k as int] == p@[e - 10 + k]);
            assert(t.subrange(e - 10, e as int) != manifest_name());
            return false;
        }
        k = k + 1;
    }
    assert(t.subrange(e - 10, e as int) =~= manifest_name());
    e == 10 || p[e - 11] == 47u8
}

/// The position of the first path that names a `Cargo.lock`, if any.
pub fn find_manifest_entry(paths: &Vec<Vec<u8>>) -> (r: Option<usize>)
    ensures
        match first_manifest_entry(paths@.map_values(|p: Vec<u8>| p@)) {
            Some(i) => r == Some(i as usize),
            None => r is None,
        },
{
    let ghost pv = paths@.map_values(|p: Vec<u8>| p@);
    let mut i: usize = 0;
    while i < paths.len()
        invariant
            i <= paths.len(),
            pv == paths@.map_values(|p: Vec<u8>| p@),
            first_manifest_entry(pv.take(i as int)) is None,
        decreases paths.len() - i,
    {
        let hit = path_names_manifest(&paths[i]);
        proof {
            assert(pv.take(i + 1).drop_last() =~= pv.take(i as int));
        }
        if hit {
            proof {
                lemma_first_manifest_prefix(pv, (i + 1) as int);
            }
            return Some(i);
        }
        i = i + 1;
    }
    proof {
        assert(pv.take(i as int) =~= pv);
    }
    None
}

proof fn lemma_first_manifest_in_range(paths: Seq<Seq<u8>>)
    ensures
        first_manifest_entry(paths) matches Some(i) ==> 0 <= i < paths.len(),
    decreases paths.len(),
{
    if paths.len() > 0 {
        lemma_first_manifest_in_range(paths.drop_last());
    }
}

proof fn lemma_first_manifest_prefix(paths: Seq<Seq<u8>>, n: int)
    requires
        0 < n <= paths.len(),
        first_manifest_entry(paths.take(n)) is Some,
    ensures
        first_manifest_entry(paths) == first_manifest_entry(paths.take(n)),
    decreases paths.len() - n,
{
    if n < paths.len() {
        assert(paths.take(n + 1).drop_last() =~= paths.take(n));
        lemma_first_manifest_prefix(paths, n + 1);
    } else {
        assert(paths.take(n) =~= paths);
    }
}

/// Takes the text of the first entry of a crate archive (gzip-compressed
/// tar) whose path names a `Cargo.lock`. Reading stops at that entry, so a
/// failure further on does not matter.
pub fn extract_cargo_lock_from_pkg(pkg: &[u8]) -> (r: Result<String, Error>)
    ensures
        ({
            let (paths, failed) = archive_listing(pkg@);
            match first_manifest_entry(paths) {
                Some(i) => match archive_entry_text(pkg@, i as nat) {
                    Some(text) => r is Ok && r->Ok_0@ == text,
                    None => r is Err && r->Err_0 is Tar,
                },
                None => if failed {
                    r is Err && r->Err_0 is Tar
                } else {
                    r is Err && r->Err_0 is MissingLockfile
                },
            }
        }),
{
    let (paths, failure) = list_archive_paths(pkg);
    proof {
        lemma_first_manifest_in_range(paths@.map_values(|p: Vec<u8>| p@));
    }
    match find_manifest_entry(&paths) {
        Some(i) => match read_archive_entry(pkg, i) {
            Ok(text) => Ok(text),
            Err(kind) => Err(Error::Tar(kind)),
        },
        None => match failure {
            Some(kind) => Err(Error::Tar(kind)),
            None => Err(Error::MissingLockfile),
        },
    }
}

} // verus!
