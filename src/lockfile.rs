use vstd::prelude::*;

use crate::error::Error;
use crate::package::{packages_view, Package, PackageView};

verus! {

/// The packages that `cargo_lock` reads from a lock file's text, in file
/// order, or `None` where the text is no lock file.
pub uninterp spec fn lockfile_packages(text: Seq<char>) -> Option<Seq<PackageView>>;

/// Relies on `<cargo_lock::Lockfile as FromStr>::from_str`, which parses
/// the text alone; each package's name, version and checksum are taken
/// through their `Display`.
#[verifier::external_body]
fn parse_lockfile_text(text: &str) -> (r: Result<Vec<Package>, cargo_lock::Error>)
    ensures
        match r {
            Ok(ps) => lockfile_packages(text@) == Some(packages_view(ps@)),
            Err(_) => lockfile_packages(text@) is None,
        },
{
    text.parse::<cargo_lock::Lockfile>().map(
        |l|
            l.packages.into_iter().map(
                |p|
                    Package {
                        name: p.name.as_str().to_string(),
                        version: p.version.to_string(),
                        checksum: p.checksum.map(|c| c.to_string()),
                    },
            ).collect(),
    )
}

/// Reads the packages of a lock file's text.
pub fn lockfile_from_str(text: &str) -> (r: Result<Vec<Package>, Error>)
    ensures
        r is Ok <==> lockfile_packages(text@) is Some,
        r is Ok ==> lockfile_packages(text@) == Some(packages_view(r->Ok_0@)),
        r is Err ==> r->Err_0 is CargoLock,
{
    match parse_lockfile_text(text) {
        Ok(ps) => Ok(ps),
        Err(e) => Err(Error::CargoLock(e)),
    }
}

} // verus!
