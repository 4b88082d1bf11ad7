//! The manifest of one artifact: its own dependencies, each pinned to an exact
//! version, with a scope and an optional flag.
use vstd::prelude::*;

verus! {

/// When a dependency is needed.
#[derive(PartialEq, Eq, Structural, Clone, Copy, Debug)]
pub enum MavenDependencyScopeType {
    Compile,
    Runtime,
    Test,
    Provided,
}

/// The scope element of a dependency entry; `Compile` where the entry has none.
#[derive(PartialEq, Eq, Structural, Clone, Copy, Debug)]
pub struct MavenDependencyScope {
    pub content: MavenDependencyScopeType,
}

impl MavenDependencyScope {
    /// The scope of an entry that names none.
    pub fn default_scope() -> (r: MavenDependencyScope)
        ensures
            r.content == MavenDependencyScopeType::Compile,
    {
        MavenDependencyScope { content: MavenDependencyScopeType::Compile }
    }
}

/// The plain values of a dependency entry.
pub struct DependencyView {
    pub group_id: Seq<char>,
    pub artifact_id: Seq<char>,
    pub version: Seq<char>,
    pub scope: MavenDependencyScopeType,
    pub optional: bool,
}

/// One dependency entry of a manifest.
pub struct Dependency {
    pub group_id: String,
    pub artifact_id: String,
    pub version: String,
    pub scope: MavenDependencyScope,
    pub optional: bool,
}

impl View for Dependency {
    type V = DependencyView;

    open spec fn view(&self) -> DependencyView {
        DependencyView {
            group_id: self.group_id@,
            artifact_id: self.artifact_id@,
            version: self.version@,
            scope: self.scope.content,
            optional: self.optional,
        }
    }
}

/// The dependency section of a manifest.
pub struct Dependencies {
    pub dependency: Vec<Dependency>,
}

/// A manifest; `dependencies` is `None` where the document has no dependency
/// section (a leaf artifact).
pub struct Project {
    pub dependencies: Option<Dependencies>,
}

/// A dependency that is fetched along with the artifact that declares it:
/// compile or runtime scope, and not optional.
pub open spec fn propagates(d: DependencyView) -> bool {
    (d.scope == MavenDependencyScopeType::Compile || d.scope == MavenDependencyScopeType::Runtime)
        && !d.optional
}

pub open spec fn views_of(ds: Seq<Dependency>) -> Seq<DependencyView> {
    ds.map_values(|d: Dependency| d@)
}

impl Dependency {
    /// A copy of this entry.
    pub fn duplicate(&self) -> (r: Dependency)
        ensures
            r@ == self@,
    {
        Dependency {
            group_id: self.group_id.clone(),
            artifact_id: self.artifact_id.clone(),
            version: self.version.clone(),
            scope: self.scope,
            optional: self.optional,
        }
    }

    /// Whether this entry is fetched along with the artifact that declares it.
    pub fn propagates(&self) -> (r: bool)
        ensures
            r == propagates(self@),
    {
        (self.scope.content == MavenDependencyScopeType::Compile || self.scope.content
            == MavenDependencyScopeType::Runtime) && !self.optional
    }
}

impl Dependencies {
    /// The entries that propagate, in document order; test-scoped, provided
    /// and optional entries are left out.
    pub fn propagated(&self) -> (r: Vec<Dependency>)
        ensures
            views_of(r@) == views_of(self.dependency@).filter(|d: DependencyView| propagates(d)),
            forall|k: int| 0 <= k < r@.len() ==> propagates(#[trigger] r@[k]@),
    {
        let ghost pred = |d: DependencyView| propagates(d);
        let mut r: Vec<Dependency> = Vec::new();
        let mut i: usize = 0;
        while i < self.dependency.len()
            invariant
                i <= self.dependency.len(),
                pred == (|d: DependencyView| propagates(d)),
                views_of(r@) == views_of(self.dependency@).take(i as int).filter(pred),
                forall|k: int| 0 <= k < r@.len() ==> propagates(#[trigger] r@[k]@),
            decreases self.dependency.len() - i,
        {
            let ghost before = views_of(self.dependency@).take(i as int);
            let ghost after = views_of(self.dependency@).take(i as int + 1);
            let ghost old_r = r@;
            assert(after.drop_last() =~= before);
            assert(after.last() == self.dependency@[i as int]@);
            proof {
                reveal(Seq::filter);
            }
            if self.dependency[i].propagates() {
                let d = self.dependency[i].duplicate();
                r.push(d);
                assert(after.filter(pred) == before.filter(pred).push(after.last()));
                assert(views_of(r@) =~= views_of(old_r).push(d@));
            } else {
                assert(after.filter(pred) == before.filter(pred));
            }
            i = i + 1;
        }
        assert(views_of(self.dependency@).take(i as int) =~= views_of(self.dependency@));
        r
    }
}

} // verus!
