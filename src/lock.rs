//! The lock ledger: the record of every package fetched in one run.
use crate::layout::{add_to_path, joined};
use crate::version::{Version, VersionView};
use vstd::prelude::*;

verus! {

/// The plain values of a locked package.
pub struct PackageView {
    pub name: Seq<char>,
    pub version: Seq<char>,
    pub authors: Seq<char>,
    pub url: Seq<char>,
    pub source: Option<Seq<char>>,
    pub dependencies: Option<Seq<Seq<char>>>,
}

/// One fetched package: its name, version, group, repository URL, and the
/// names of its direct dependencies.
pub struct Package {
    pub name: String,
    pub version: String,
    pub authors: String,
    pub url: String,
    pub source: Option<String>,
    pub dependencies: Option<Vec<String>>,
}

pub open spec fn texts(v: Seq<String>) -> Seq<Seq<char>> {
    v.map_values(|s: String| s@)
}

pub open spec fn opt_text(o: Option<String>) -> Option<Seq<char>> {
    match o {
        Some(s) => Some(s@),
        None => None,
    }
}

pub open spec fn opt_texts(o: Option<Vec<String>>) -> Option<Seq<Seq<char>>> {
    match o {
        Some(v) => Some(texts(v@)),
        None => None,
    }
}

impl View for Package {
    type V = PackageView;

    open spec fn view(&self) -> PackageView {
        PackageView {
            name: self.name@,
            version: self.version@,
            authors: self.authors@,
            url: self.url@,
            source: opt_text(self.source),
            dependencies: opt_texts(self.dependencies),
        }
    }
}

impl Package {
    pub fn new(
        name: String,
        version: String,
        authors: String,
        url: String,
        source: Option<String>,
        dependencies: Option<Vec<String>>,
    ) -> (r: Package)
        ensures
            r@ == (PackageView {
                name: name@,
                version: version@,
                authors: authors@,
                url: url@,
                source: opt_text(source),
                dependencies: opt_texts(dependencies),
            }),
    {
        Package { name, version, authors, url, source, dependencies }
    }

    /// Records the names of the package's direct dependencies.
    pub fn set_dependencies(&mut self, dependencies: Vec<String>)
        ensures
            final(self)@ == (PackageView {
                dependencies: Some(texts(dependencies@)),
                ..old(self)@
            }),
    {
        self.dependencies = Some(dependencies);
    }
}

/// The plain values of a ledger.
pub struct LockView {
    pub name: Seq<char>,
    pub version: VersionView,
    pub brews: Seq<PackageView>,
}

/// The ledger of one fetch run: the root package's name and version, and the
/// packages fetched, in the order they were recorded.
pub struct LockFile {
    pub name: String,
    pub version: Version,
    pub brews: Vec<Package>,
}

pub open spec fn package_views(v: Seq<Package>) -> Seq<PackageView> {
    v.map_values(|p: Package| p@)
}

impl View for LockFile {
    type V = LockView;

    open spec fn view(&self) -> LockView {
        LockView { name: self.name@, version: self.version@, brews: package_views(self.brews@) }
    }
}

impl LockFile {
    /// An empty ledger for the root package `name` at `version`.
    pub fn new(name: String, version: Version) -> (r: LockFile)
        ensures
            r@ == (LockView { name: name@, version: version@, brews: Seq::empty() }),
    {
        let r = LockFile { name, version, brews: Vec::new() };
        assert(package_views(r.brews@) =~= Seq::empty());
        r
    }

    /// Appends a package; nothing is merged or dropped.
    pub fn push(&mut self, value: Package)
        ensures
            final(self)@ == (LockView {
                brews: old(self)@.brews.push(value@),
                ..old(self)@
            }),
    {
        let ghost before = self.brews@;
        self.brews.push(value);
        assert(package_views(self.brews@) =~= package_views(before).push(value@));
    }
}

/// The lock file of the project whose root directory is `root`.
pub fn get_lock_path(root: String) -> (r: String)
    ensures
        r@ == joined(root@, "Brew.lock"@),
{
    add_to_path(root, "Brew.lock")
}

/// The ledger after appending `ps` in order.
pub open spec fn appended(l: LockView, ps: Seq<PackageView>) -> LockView {
    LockView { brews: l.brews + ps, ..l }
}

/// Appending the same packages in any order gives the same packages: the
/// multiset, and so the set, of ledger entries does not depend on the order
/// in which they were recorded.
pub proof fn lemma_ledger_order_irrelevant(l: LockView, a: Seq<PackageView>, b: Seq<PackageView>)
    requires
        a.to_multiset() == b.to_multiset(),
    ensures
        appended(l, a).brews.to_multiset() == appended(l, b).brews.to_multiset(),
        appended(l, a).brews.to_set() == appended(l, b).brews.to_set(),
{
    broadcast use vstd::seq_lib::lemma_multiset_commutative, vstd::seq_lib::to_multiset_contains;

    let x = appended(l, a).brews;
    let y = appended(l, b).brews;
    assert(x.to_multiset() =~= y.to_multiset());
    assert forall|p: PackageView| x.to_set().contains(p) <==> y.to_set().contains(p) by {
        assert(x.to_multiset().count(p) == y.to_multiset().count(p));
    }
    assert(x.to_set() =~= y.to_set());
}

} // verus!
