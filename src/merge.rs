use vstd::prelude::*;

use crate::package::{packages_view, Package, PackageView};

verus! {

/// The packages of several documents, document after document.
pub open spec fn flatten_docs(docs: Seq<Seq<PackageView>>) -> Seq<PackageView>
    decreases docs.len(),
{
    if docs.len() == 0 {
        Seq::empty()
    } else {
        flatten_docs(docs.drop_last()) + docs.last()
    }
}

/// The views of each document of `docs`.
pub open spec fn docs_view(docs: Seq<Vec<Package>>) -> Seq<Seq<PackageView>> {
    docs.map_values(|d: Vec<Package>| packages_view(d@))
}

/// Two packages are the same package when name and version agree.
pub open spec fn same_identity(a: PackageView, b: PackageView) -> bool {
    a.0 == b.0 && a.1 == b.1
}

/// Some package before position `i` has the identity of `ps[i]`.
pub open spec fn seen_before(ps: Seq<PackageView>, i: int) -> bool {
    exists|j: int| 0 <= j < i && same_identity(#[trigger] ps[j], ps[i])
}

/// `ps[i]` is the first of its identity and carries a checksum.
pub open spec fn kept(ps: Seq<PackageView>, i: int) -> bool {
    ps[i].2 is Some && !seen_before(ps, i)
}

/// The first package of each identity, in order, where it has a checksum.
pub open spec fn merged(ps: Seq<PackageView>) -> Seq<PackageView>
    decreases ps.len(),
{
    if ps.len() == 0 {
        Seq::empty()
    } else if kept(ps, ps.len() - 1) {
        merged(ps.drop_last()).push(ps.last())
    } else {
        merged(ps.drop_last())
    }
}

/// The position in `ps` that the `k`-th merged package comes from.
pub open spec fn source_index(ps: Seq<PackageView>, k: int) -> int
    decreases ps.len(),
{
    if ps.len() == 0 {
        0
    } else if kept(ps, ps.len() - 1) && k == merged(ps.drop_last()).len() {
        ps.len() - 1
    } else {
        source_index(ps.drop_last(), k)
    }
}

proof fn lemma_merged_from_input(ps: Seq<PackageView>)
    ensures
        forall|k: int|
            0 <= k < merged(ps).len() ==> {
                let j = #[trigger] source_index(ps, k);
                &&& 0 <= j < ps.len()
                &&& kept(ps, j)
                &&& merged(ps)[k] == ps[j]
            },
    decreases ps.len(),
{
    if ps.len() > 0 {
        let pre = ps.drop_last();
        let last = ps.len() - 1;
        lemma_merged_from_input(pre);
        assert forall|k: int| 0 <= k < merged(ps).len() implies {
            let j = #[trigger] source_index(ps, k);
            &&& 0 <= j < ps.len()
            &&& kept(ps, j)
            &&& merged(ps)[k] == ps[j]
        } by {
            if k < merged(pre).len() {
                let j = source_index(pre, k);
                assert(source_index(ps, k) == j);
                assert(ps[j] == pre[j]);
                if seen_before(ps, j) {
                    let l = choose|l: int| 0 <= l < j && same_identity(#[trigger] ps[l], ps[j]);
                    assert(same_identity(pre[l], pre[j]));
                }
            }
        }
    }
}

/// Every package that comes out of a merge carries a checksum.
pub proof fn lemma_merged_have_checksums(ps: Seq<PackageView>)
    ensures
        forall|k: int| 0 <= k < merged(ps).len() ==> (#[trigger] merged(ps)[k]).2 is Some,
{
    lemma_merged_from_input(ps);
    assert forall|k: int| 0 <= k < merged(ps).len() implies (#[trigger] merged(ps)[k]).2 is Some by {
        let j = source_index(ps, k);
    }
}

/// No two packages that come out of a merge share name and version.
pub proof fn lemma_merged_identities_unique(ps: Seq<PackageView>)
    ensures
        forall|a: int, b: int|
            0 <= a < b < merged(ps).len() ==> !same_identity(
                #[trigger] merged(ps)[a],
                #[trigger] merged(ps)[b],
            ),
    decreases ps.len(),
{
    if ps.len() > 0 {
        let pre = ps.drop_last();
        lemma_merged_identities_unique(pre);
        lemma_merged_from_input(pre);
        if kept(ps, ps.len() - 1) {
            assert forall|a: int, b: int| 0 <= a < b < merged(ps).len() implies !same_identity(
                #[trigger] merged(ps)[a],
                #[trigger] merged(ps)[b],
            ) by {
                if b == merged(pre).len() {
                    let j = source_index(pre, a);
                    assert(ps[j] == merged(ps)[a]);
                    if same_identity(merged(ps)[a], merged(ps)[b]) {
                        assert(same_identity(ps[j], ps[ps.len() - 1]));
                        assert(seen_before(ps, ps.len() - 1));
                    }
                } else {
                    assert(merged(ps)[a] == merged(pre)[a]);
                    assert(merged(ps)[b] == merged(pre)[b]);
                }
            }
        }
    }
}

/// The first package of an identity, where it has a checksum, comes out of
/// a merge.
pub proof fn lemma_first_checksummed_kept(ps: Seq<PackageView>, i: int)
    requires
        0 <= i < ps.len(),
        kept(ps, i),
    ensures
        merged(ps).contains(ps[i]),
    decreases ps.len(),
{
    let pre = ps.drop_last();
    if i == ps.len() - 1 {
        assert(merged(ps).last() == ps[i]);
    } else {
        assert(pre[i] == ps[i]);
        if seen_before(pre, i) {
            let l = choose|l: int| 0 <= l < i && same_identity(#[trigger] pre[l], pre[i]);
            assert(same_identity(ps[l], ps[i]));
        }
        lemma_first_checksummed_kept(pre, i);
        let k = choose|k: int| 0 <= k < merged(pre).len() && merged(pre)[k] == ps[i];
        if kept(ps, ps.len() - 1) {
            assert(merged(ps)[k] == ps[i]);
        }
    }
}

/// A package that appears in several documents, first with a checksum,
/// appears exactly once in the merged list.
pub proof fn lemma_merge_keeps_one_entry(docs: Seq<Seq<PackageView>>, i: int)
    requires
        0 <= i < flatten_docs(docs).len(),
        kept(flatten_docs(docs), i),
    ensures
        merged(flatten_docs(docs)).contains(flatten_docs(docs)[i]),
        forall|a: int, b: int|
            0 <= a < merged(flatten_docs(docs)).len() && 0 <= b < merged(flatten_docs(docs)).len()
                && same_identity(#[trigger] merged(flatten_docs(docs))[a], flatten_docs(docs)[i])
                && same_identity(#[trigger] merged(flatten_docs(docs))[b], flatten_docs(docs)[i])
                ==> a == b,
{
    let ps = flatten_docs(docs);
    lemma_first_checksummed_kept(ps, i);
    lemma_merged_identities_unique(ps);
    assert forall|a: int, b: int|
        0 <= a < merged(ps).len() && 0 <= b < merged(ps).len() && same_identity(
            #[trigger] merged(ps)[a],
            ps[i],
        ) && same_identity(#[trigger] merged(ps)[b], ps[i]) implies a == b by {
        if a < b {
            assert(!same_identity(merged(ps)[a], merged(ps)[b]));
        } else if b < a {
            assert(!same_identity(merged(ps)[b], merged(ps)[a]));
        }
    }
}

fn duplicate(p: &Package) -> (r: Package)
    ensures
        r@ == p@,
{
    Package {
        name: p.name.clone(),
        version: p.version.clone(),
        checksum: match &p.checksum {
            Some(c) => Some(c.clone()),
            None => None,
        },
    }
}

fn is_seen_before(packages: &Vec<Package>, i: usize) -> (r: bool)
    requires
        i < packages.len(),
    ensures
        r == seen_before(packages_view(packages@), i as int),
{
    let ghost pv = packages_view(packages@);
    let mut j: usize = 0;
    while j < i
        invariant
            i < packages.len(),
            j <= i,
            pv == packages_view(packages@),
            forall|l: int| 0 <= l < j ==> !same_identity(#[trigger] pv[l], pv[i as int]),
        decreases i - j,
    {
        if packages[j].name == packages[i].name && packages[j].version == packages[i].version {
            assert(same_identity(pv[j as int], pv[i as int]));
            return true;
        }
        j = j + 1;
    }
    false
}

/// Keeps the first package of each name and version, in order, and of
/// those only the ones with a checksum.
pub fn dedup_checksummed(packages: &Vec<Package>) -> (r: Vec<Package>)
    ensures
        packages_view(r@) == merged(packages_view(packages@)),
{
    let ghost pv = packages_view(packages@);
    let mut out: Vec<Package> = Vec::new();
    let mut i: usize = 0;
    while i < packages.len()
        invariant
            i <= packages.len(),
            pv == packages_view(packages@),
            packages_view(out@) == merged(pv.take(i as int)),
        decreases packages.len() - i,
    {
        let ghost before = out@;
        let ghost pre = pv.take(i + 1);
        let seen = is_seen_before(packages, i);
        proof {
            assert(pre.drop_last() =~= pv.take(i as int));
            assert(seen_before(pre, i as int) == seen_before(pv, i as int)) by {
                if seen_before(pv, i as int) {
                    let l = choose|l: int| 0 <= l < i && same_identity(#[trigger] pv[l], pv[i as int]);
                    assert(same_identity(pre[l], pre[i as int]));
                }
                if seen_before(pre, i as int) {
                    let l = choose|l: int| 0 <= l < i && same_identity(#[trigger] pre[l], pre[i as int]);
                    assert(same_identity(pv[l], pv[i as int]));
                }
            }
        }
        if packages[i].checksum.is_some() && !seen {
            out.push(duplicate(&packages[i]));
            proof {
                assert(packages_view(out@) =~= packages_view(before).push(pv[i as int]));
            }
        }
        i = i + 1;
    }
    proof {
        assert(pv.take(i as int) =~= pv);
    }
    out
}

/// Merges the package lists of several lock files: all packages, file
/// after file, then the first of each name and version, where it has a
/// checksum.
pub fn resolve_lockfile_packages(lockfiles: &Vec<Vec<Package>>) -> (r: Vec<Package>)
    ensures
        packages_view(r@) == merged(flatten_docs(docs_view(lockfiles@))),
{
    let ghost dv = docs_view(lockfiles@);
    let mut all: Vec<Package> = Vec::new();
    let mut d: usize = 0;
    while d < lockfiles.len()
        invariant
            d <= lockfiles.len(),
            dv == docs_view(lockfiles@),
            packages_view(all@) == flatten_docs(dv.take(d as int)),
        decreases lockfiles.len() - d,
    {
        let doc = &lockfiles[d];
        let ghost start = packages_view(all@);
        assert(packages_view(doc@).take(0) =~= Seq::<PackageView>::empty());
        assert(start + Seq::<PackageView>::empty() =~= start);
        let mut k: usize = 0;
        while k < doc.len()
            invariant
                k <= doc.len(),
                d < lockfiles.len(),
                doc == lockfiles@[d as int],
                dv == docs_view(lockfiles@),
                start == flatten_docs(dv.take(d as int)),
                packages_view(all@) == start + packages_view(doc@).take(k as int),
            decreases doc.len() - k,
        {
            let ghost prev = all@;
            all.push(duplicate(&doc[k]));
            proof {
                assert(packages_view(all@) =~= packages_view(prev).push(doc@[k as int]@));
                assert(packages_view(all@) =~= start + packages_view(doc@).take(k + 1));
            }
            k = k + 1;
        }
        proof {
            assert(dv.take(d + 1).drop_last() =~= dv.take(d as int));
            assert(dv.take(d + 1).last() == packages_view(doc@));
            assert(packages_view(doc@).take(k as int) =~= packages_view(doc@));
        }
        d = d + 1;
    }
    proof {
        assert(dv.take(d as int) =~= dv);
    }
    dedup_checksummed(&all)
}

} // verus!
