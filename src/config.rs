//! The project configuration that a fetch run consumes: the root package,
//! its declared dependencies ("blends") and its runnable targets.
use crate::catalog::{resolved, Metadata};
use crate::layout::{parent_dir, parent_of_file};
use crate::version::{lenient_version, Version, VersionConstraint, VersionView};
use vstd::prelude::*;

verus! {

/// The root package: its name and version.
pub struct BrewConfig {
    pub name: String,
    pub version: Version,
}

impl BrewConfig {
    pub fn version(&self) -> (r: &Version)
        ensures
            r == &self.version,
    {
        &self.version
    }

    pub fn name(&self) -> (r: &str)
        ensures
            r@ == self.name@,
    {
        self.name.as_str()
    }
}

/// The plain values of a declared dependency.
pub struct BlendView {
    pub author: Option<Seq<char>>,
    pub path: Option<Seq<char>>,
    pub version: Seq<char>,
    pub url: Option<Seq<char>>,
}

/// A declared dependency: a version constraint and its origin, a repository
/// group (`author`), a source-control URL or a local path.
pub struct BlendConfig {
    pub author: Option<String>,
    pub path: Option<String>,
    pub version: VersionConstraint,
    pub url: Option<String>,
}

pub open spec fn opt_view(o: Option<String>) -> Option<Seq<char>> {
    match o {
        Some(s) => Some(s@),
        None => None,
    }
}

impl View for BlendConfig {
    type V = BlendView;

    open spec fn view(&self) -> BlendView {
        BlendView {
            author: opt_view(self.author),
            path: opt_view(self.path),
            version: self.version@,
            url: opt_view(self.url),
        }
    }
}

impl BlendConfig {
    /// A dependency from the repository, in the group `author`.
    pub fn new_maven(version: VersionConstraint, author: String) -> (r: Self)
        ensures
            r@ == (BlendView { author: Some(author@), path: None, version: version@, url: None }),
    {
        Self { author: Some(author), path: None, version, url: None }
    }

    /// A dependency from a source-control URL.
    pub fn new_git(version: VersionConstraint, url: String) -> (r: Self)
        ensures
            r@ == (BlendView { author: None, path: None, version: version@, url: Some(url@) }),
    {
        Self { author: None, path: None, version, url: Some(url) }
    }

    /// A dependency from a local path.
    pub fn new_path(version: VersionConstraint, path: String) -> (r: Self)
        ensures
            r@ == (BlendView { author: None, path: Some(path@), version: version@, url: None }),
    {
        Self { author: None, path: Some(path), version, url: None }
    }

    pub fn author(&self) -> (r: Option<&String>)
        ensures
            match r {
                Some(a) => self.author == Some(*a),
                None => self.author is None,
            },
    {
        self.author.as_ref()
    }

    pub fn version(&self) -> (r: &VersionConstraint)
        ensures
            r == &self.version,
    {
        &self.version
    }

    /// The catalog entry this dependency resolves to, with the version it
    /// reads as: the first of the entries that read as versions satisfying
    /// the constraint and that no other such entry outranks.
    pub fn find_best_version(&self, dep_info: &Metadata) -> (r: Option<(String, Version)>)
        ensures
            match r {
                Some((s, v)) => {
                    &&& resolved(self.version@, dep_info.entries()) == Some(s@)
                    &&& lenient_version(s@) == Some(v@)
                },
                None => resolved(self.version@, dep_info.entries()) is None,
            },
    {
        crate::catalog::resolve_entry(&self.version, &dep_info.versioning.versions.version)
    }
}

/// A runnable target: its name and, optionally, its source path.
pub struct Bin {
    pub name: String,
    pub path: Option<String>,
}

/// Dependencies from the repository, named by group.
pub struct Maven {
    pub author: String,
}

/// Why a runnable target could not be found.
#[derive(Debug)]
pub enum BinNotFoundError {
    NoTargetsSpecefied,
    NoTargetsMatched(String),
}

/// Why a file could not be found in the current directory or its ancestors.
#[derive(Debug)]
pub enum FindFileError {
    /// The directory could not be read; the message says why.
    IO(String),
    FileNotFound(String),
}

/// Why the project root could not be found.
#[derive(Debug)]
pub enum FindRootError {
    FindFileError(FindFileError),
    FoundConfigWithoutRoot,
}

/// The project root: the directory of the configuration file that was
/// found, or why there is none.
pub fn get_root_path(found: Result<String, FindFileError>) -> (r: Result<String, FindRootError>)
    ensures
        match found {
            Err(e) => r == Err::<String, FindRootError>(FindRootError::FindFileError(e)),
            Ok(p) => match parent_dir(p@) {
                Some(d) => r is Ok && r->Ok_0@ == d,
                None => r == Err::<String, FindRootError>(FindRootError::FoundConfigWithoutRoot),
            },
        },
{
    match found {
        Err(e) => Err(FindRootError::FindFileError(e)),
        Ok(p) => match parent_of_file(p.as_str()) {
            Some(d) => Ok(d),
            None => Err(FindRootError::FoundConfigWithoutRoot),
        },
    }
}

/// The whole configuration of a project. Dependency names are unique.
pub struct Config {
    pub brew: BrewConfig,
    pub blends: Vec<(String, BlendConfig)>,
    pub bin: Option<Vec<Bin>>,
}

pub open spec fn blend_names(blends: Seq<(String, BlendConfig)>) -> Seq<Seq<char>> {
    blends.map_values(|e: (String, BlendConfig)| e.0@)
}

pub open spec fn blend_entries(blends: Seq<(String, BlendConfig)>) -> Seq<(Seq<char>, BlendView)> {
    blends.map_values(|e: (String, BlendConfig)| (e.0@, e.1@))
}

impl Config {
    /// Dependency names are unique.
    pub open spec fn wf(&self) -> bool {
        blend_names(self.blends@).no_duplicates()
    }

    /// A new configuration for the package `name` at version 0.1.0, with no
    /// dependencies and no targets.
    pub fn new(name: String) -> (r: Self)
        ensures
            r.wf(),
            r.brew.name@ == name@,
            r.brew.version@ == (VersionView {
                major: 0,
                minor: 1,
                patch: 0,
                pre: Seq::empty(),
                build: Seq::empty(),
            }),
            r.blends@.len() == 0,
            r.bin is None,
    {
        let r = Self {
            brew: BrewConfig { name, version: Version::new(0, 1, 0) },
            blends: Vec::new(),
            bin: None,
        };
        assert(blend_names(r.blends@) =~= Seq::empty());
        r
    }

    /// Declares the dependency `name`, replacing an earlier declaration of the
    /// same name.
    pub fn add_blend(&mut self, name: String, blend: BlendConfig)
        requires
            old(self).wf(),
        ensures
            final(self).wf(),
            final(self).brew == old(self).brew,
            final(self).bin == old(self).bin,
            match blend_names(old(self).blends@).index_of_first(name@) {
                Some(i) => blend_entries(final(self).blends@) == blend_entries(
                    old(self).blends@,
                ).update(i, (name@, blend@)),
                None => blend_entries(final(self).blends@) == blend_entries(
                    old(self).blends@,
                ).push((name@, blend@)),
            },
    {
        let ghost names = blend_names(self.blends@);
        let ghost entries = blend_entries(self.blends@);
        let mut i: usize = 0;
        while i < self.blends.len()
            invariant
                i <= self.blends.len(),
                names == blend_names(self.blends@),
                entries == blend_entries(self.blends@),
                self.blends@ == old(self).blends@,
                self.brew == old(self).brew,
                self.bin == old(self).bin,
                names.no_duplicates(),
                forall|k: int| 0 <= k < i ==> names[k] != name@,
            decreases self.blends.len() - i,
        {
            if self.blends[i].0 == name {
                proof {
                    assert(names[i as int] == name@);
                    names.index_of_first_ensures(name@);
                    assert(names.index_of_first(name@) == Some(i as int));
                }
                let ghost bv = blend@;
                self.blends.set(i, (name, blend));
                assert(blend_names(self.blends@) =~= names);
                assert(self.blends@[i as int].1@ == bv);
                assert(blend_entries(self.blends@) =~= entries.update(i as int, (name@, blend@)));
                return;
            }
            i = i + 1;
        }
        proof {
            names.index_of_first_ensures(name@);
        }
        let ghost bv = blend@;
        self.blends.push((name, blend));
        assert(self.blends@[names.len() as int].1@ == bv);
        assert(blend_names(self.blends@) =~= names.push(name@));
        assert(blend_entries(self.blends@) =~= entries.push((name@, blend@)));
        assert forall|a: int, b: int|
            0 <= a < b < names.len() + 1 implies blend_names(self.blends@)[a] != blend_names(
            self.blends@,
        )[b] by {
            if b == names.len() {
                assert(names[a] != name@);
            }
        }
    }

    pub fn blends(&self) -> (r: &Vec<(String, BlendConfig)>)
        ensures
            r == &self.blends,
    {
        &self.blends
    }

    pub fn brew(&self) -> (r: &BrewConfig)
        ensures
            r == &self.brew,
    {
        &self.brew
    }

    /// The source path of the target `bin_name`: its own path where it gives
    /// one, else `bin/<name>.java`.
    pub fn find_bin(&self, bin_name: String) -> (r: Result<String, BinNotFoundError>)
        ensures
            match self.bin {
                None => r == Err::<String, BinNotFoundError>(BinNotFoundError::NoTargetsSpecefied),
                Some(bins) => match bin_names(bins@).index_of_first(bin_name@) {
                    None => r == Err::<String, BinNotFoundError>(
                        BinNotFoundError::NoTargetsMatched(bin_name),
                    ),
                    Some(i) => r is Ok && r->Ok_0@ == bin_path(bins@[i]),
                },
            },
    {
        proof {
            reveal_strlit("bin/");
            reveal_strlit(".java");
        }
        match &self.bin {
            None => Err(BinNotFoundError::NoTargetsSpecefied),
            Some(bins) => {
                let ghost names = bin_names(bins@);
                proof {
                    names.index_of_first_ensures(bin_name@);
                }
                let mut i: usize = 0;
                while i < bins.len()
                    invariant
                        i <= bins.len(),
                        names == bin_names(bins@),
                        self.bin == Some(*bins),
                        forall|k: int| 0 <= k < i ==> names[k] != bin_name@,
                    decreases bins.len() - i,
                {
                    if bins[i].name == bin_name {
                        assert(names[i as int] == bin_name@);
                        proof {
                            names.index_of_first_ensures(bin_name@);
                        }
                        assert(names.index_of_first(bin_name@) == Some(i as int));
                        let r = match &bins[i].path {
                            Some(p) => p.clone(),
                            None => {
                                let mut p = String::from_str("bin/");
                                p.append(bins[i].name.as_str());
                                p.append(".java");
                                p
                            },
                        };
                        assert(r@ == bin_path(bins@[i as int]));
                        return Ok(r);
                    }
                    i = i + 1;
                }
                proof {
                    names.index_of_first_ensures(bin_name@);
                }
                Err(BinNotFoundError::NoTargetsMatched(bin_name))
            },
        }
    }
}

pub open spec fn bin_names(bins: Seq<Bin>) -> Seq<Seq<char>> {
    bins.map_values(|b: Bin| b.name@)
}

/// The source path of a target.
pub open spec fn bin_path(b: Bin) -> Seq<char> {
    match b.path {
        Some(p) => p@,
        None => "bin/"@ + b.name@ + ".java"@,
    }
}

} // verus!
