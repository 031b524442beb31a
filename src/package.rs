use vstd::prelude::*;

verus! {

/// What a package is to the contracts: name, version and checksum.
pub type PackageView = (Seq<char>, Seq<char>, Option<Seq<char>>);

/// One locked package.
#[derive(Clone, Debug)]
pub struct Package {
    pub name: String,
    pub version: String,
    pub checksum: Option<String>,
}

impl View for Package {
    type V = PackageView;

    open spec fn view(&self) -> PackageView {
        (
            self.name@,
            self.version@,
            match self.checksum {
                Some(c) => Some(c@),
                None => None,
            },
        )
    }
}

/// The views of a list of packages, in order.
pub open spec fn packages_view(ps: Seq<Package>) -> Seq<PackageView> {
    ps.map_values(|p: Package| p@)
}

impl Package {
    pub fn new(name: String, version: String, checksum: Option<String>) -> (r: Package)
        ensures
            r.name == name,
            r.version == version,
            r.checksum == checksum,
    {
        Package { name, version, checksum }
    }
}

} // verus!
