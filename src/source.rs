use vstd::prelude::*;

use crate::archive::{archive_entry_text, archive_listing, extract_cargo_lock_from_pkg, first_manifest_entry};
use crate::error::Error;
use crate::lockfile::{lockfile_from_str, lockfile_packages};
use crate::package::{packages_view, Package};

verus! {

/// Where a lock file named on the command line comes from.
#[derive(Clone, Copy, Debug, PartialEq, Eq, Structural)]
pub enum SourceKind {
    /// `-`: standard input.
    Stdin,
    /// `name@version`: a crate of the registry.
    Remote,
    /// Anything else: a file, or a directory holding one.
    Path,
}

/// The lock file read when no source is named.
pub const DEFAULT_SOURCE: &'static str = "Cargo.lock";

pub open spec fn source_kind(id: Seq<char>) -> SourceKind {
    if id == seq!['-'] {
        SourceKind::Stdin
    } else if id.contains('@') {
        SourceKind::Remote
    } else {
        SourceKind::Path
    }
}

/// The position of the first `@` in `s`, or its length where there is none.
pub open spec fn at_index(s: Seq<char>) -> int
    decreases s.len(),
{
    if s.len() == 0 {
        0
    } else if s[0] == '@' {
        0
    } else {
        1 + at_index(s.drop_first())
    }
}

/// Name and version of a `name@version` specifier: the text before the
/// first `@` and the text between it and the next `@` (or the end).
pub open spec fn crate_spec_parts(s: Seq<char>) -> Option<(Seq<char>, Seq<char>)> {
    if s.contains('@') {
        let i = at_index(s);
        let rest = s.skip(i + 1);
        Some((s.take(i), rest.take(at_index(rest))))
    } else {
        None
    }
}

proof fn lemma_at_index(s: Seq<char>, i: int)
    requires
        0 <= i <= s.len(),
        forall|j: int| 0 <= j < i ==> s[j] != '@',
        i < s.len() ==> s[i] == '@',
    ensures
        at_index(s) == i,
    decreases i,
{
    if i > 0 {
        lemma_at_index(s.drop_first(), i - 1);
    }
}

/// Tells where a lock file named `id` is to be read from.
pub fn classify_source(id: &str) -> (r: SourceKind)
    ensures
        r == source_kind(id@),
{
    let n = id.unicode_len();
    if n == 1 && id.get_char(0) == '-' {
        assert(id@ =~= seq!['-']);
        return SourceKind::Stdin;
    }
    let i = find_at(id, 0);
    if i < n {
        SourceKind::Remote
    } else {
        SourceKind::Path
    }
}

/// The position of the first `@` in `s` from `from` on, or its length.
fn find_at(s: &str, from: usize) -> (r: usize)
    requires
        from <= s@.len(),
    ensures
        from <= r <= s@.len(),
        forall|j: int| from <= j < r ==> s@[j] != '@',
        r < s@.len() ==> s@[r as int] == '@',
{
    let n = s.unicode_len();
    let mut i = from;
    while i < n
        invariant
            from <= i <= n,
            n == s@.len(),
            forall|j: int| from <= j < i ==> s@[j] != '@',
        decreases n - i,
    {
        if s.get_char(i) == '@' {
            return i;
        }
        i = i + 1;
    }
    i
}

/// Splits a `name@version` specifier; further `@` parts are ignored. A
/// specifier without `@` is refused.
pub fn parse_crate_spec(spec: &str) -> (r: Result<(String, String), Error>)
    ensures
        match crate_spec_parts(spec@) {
            Some(parts) => r is Ok && r->Ok_0.0@ == parts.0 && r->Ok_0.1@ == parts.1,
            None => r matches Err(Error::Spec(t)) && t@ == spec@,
        },
{
    let n = spec.unicode_len();
    let i = find_at(spec, 0);
    if i == n {
        assert(!spec@.contains('@'));
        return Err(Error::Spec(spec.to_owned()));
    }
    let k = find_at(spec, i + 1);
    proof {
        let s = spec@;
        lemma_at_index(s, i as int);
        let rest = s.skip(i + 1);
        assert forall|j: int| 0 <= j < k - (i + 1) implies rest[j] != '@' by {
            assert(rest[j] == s[j + i + 1]);
        }
        lemma_at_index(rest, k - (i + 1));
        assert(rest.take(k - (i + 1)) =~= s.subrange(i + 1, k as int));
    }
    let name = spec.substring_char(0, i).to_owned();
    let version = spec.substring_char(i + 1, k).to_owned();
    Ok((name, version))
}

/// Reads the lock file of a downloaded crate archive.
pub fn lockfile_from_crate_archive(pkg: &[u8]) -> (r: Result<Vec<Package>, Error>)
    ensures
        ({
            let (paths, failed) = archive_listing(pkg@);
            match first_manifest_entry(paths) {
                Some(i) => match archive_entry_text(pkg@, i as nat) {
                    Some(text) => match lockfile_packages(text) {
                        Some(ps) => r is Ok && packages_view(r->Ok_0@) == ps,
                        None => r is Err && r->Err_0 is CargoLock,
                    },
                    None => r is Err && r->Err_0 is Tar,
                },
                None => if failed {
                    r is Err && r->Err_0 is Tar
                } else {
                    r is Err && r->Err_0 is MissingLockfile
                },
            }
        }),
{
    let text = extract_cargo_lock_from_pkg(pkg)?;
    lockfile_from_str(text.as_str())
}

} // verus!
