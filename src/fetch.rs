//! A fetch run as a state machine.
//!
//! The session decides; its driver performs. Each call hands the session
//! what came back from the previous action (an [`Event`]) and gets the next
//! [`Action`]: fetch a catalog, download an archive, fetch a manifest, write
//! the lock file, or abort. Work is kept on an explicit stack, and each pinned
//! artifact carries the chain of artifacts that led to it, so a dependency
//! that leads back to an artifact on its own chain is not followed again.
use crate::catalog::{resolve_entry, resolved, Metadata};
use crate::config::{blend_entries, BlendView, Config};
use crate::layout::{
    archive_ext, artifact_file_url, artifact_stem, catalog_doc, catalog_url, family_url,
    family_url_of, lib_dir, locate, manifest_ext,
};
use crate::lock::{texts, LockFile, LockView, Package, PackageView};
use crate::manifest::{propagates, views_of, Dependency, DependencyView, Project};
use crate::version::{lenient_version, version_text, VersionConstraint};
use vstd::prelude::*;

verus! {

/// An artifact family: group and name.
pub struct CoordView {
    pub group: Seq<char>,
    pub name: Seq<char>,
}

pub struct Coordinate {
    pub group: String,
    pub name: String,
}

impl View for Coordinate {
    type V = CoordView;

    open spec fn view(&self) -> CoordView {
        CoordView { group: self.group@, name: self.name@ }
    }
}

pub open spec fn coords_view(v: Seq<Coordinate>) -> Seq<CoordView> {
    v.map_values(|c: Coordinate| c@)
}

/// The plain values of a pinned artifact to fetch.
pub struct JobView {
    pub group: Seq<char>,
    pub name: Seq<char>,
    pub version: Seq<char>,
    pub lock_version: Seq<char>,
    pub path: Seq<CoordView>,
}

/// A pinned artifact to fetch: its family, the version text used in its
/// URLs, the version recorded in the ledger, and the chain of families from
/// the declared dependency down to this one (itself last).
pub struct Job {
    pub group: String,
    pub name: String,
    pub version: String,
    pub lock_version: String,
    pub path: Vec<Coordinate>,
}

impl View for Job {
    type V = JobView;

    open spec fn view(&self) -> JobView {
        JobView {
            group: self.group@,
            name: self.name@,
            version: self.version@,
            lock_version: self.lock_version@,
            path: coords_view(self.path@),
        }
    }
}

pub enum TaskView {
    Resolve { name: Seq<char>, group: Seq<char>, constraint: Seq<char> },
    Fetch(JobView),
}

/// Work waiting on the stack.
pub enum Task {
    /// A declared dependency whose version is still to be resolved.
    Resolve { name: String, group: String, constraint: VersionConstraint },
    /// A pinned artifact.
    Fetch(Job),
}

impl View for Task {
    type V = TaskView;

    open spec fn view(&self) -> TaskView {
        match self {
            Task::Resolve { name, group, constraint } => TaskView::Resolve {
                name: name@,
                group: group@,
                constraint: constraint@,
            },
            Task::Fetch(j) => TaskView::Fetch(j@),
        }
    }
}

pub open spec fn task_views(v: Seq<Task>) -> Seq<TaskView> {
    v.map_values(|t: Task| t@)
}

pub enum FetchErrorView {
    Network { url: Seq<char> },
    CatalogParse { url: Seq<char> },
    ManifestParse { url: Seq<char> },
    UnresolvableVersion { name: Seq<char>, constraint: Seq<char> },
    LocalStorage { path: Seq<char> },
    LockSerialization { path: Seq<char> },
    UnexpectedEvent,
}

/// Why a fetch run stopped.
pub enum FetchError {
    /// A request could not be sent or its answer not read.
    Network { url: String },
    /// A catalog document could not be read.
    CatalogParse { url: String },
    /// A manifest document could not be read.
    ManifestParse { url: String },
    /// No catalog entry satisfies the declared constraint.
    UnresolvableVersion { name: String, constraint: String },
    /// An archive could not be stored.
    LocalStorage { path: String },
    /// The lock file could not be written.
    LockSerialization { path: String },
    /// The driver reported something that answers no pending action.
    UnexpectedEvent,
}

impl View for FetchError {
    type V = FetchErrorView;

    open spec fn view(&self) -> FetchErrorView {
        match self {
            FetchError::Network { url } => FetchErrorView::Network { url: url@ },
            FetchError::CatalogParse { url } => FetchErrorView::CatalogParse { url: url@ },
            FetchError::ManifestParse { url } => FetchErrorView::ManifestParse { url: url@ },
            FetchError::UnresolvableVersion { name, constraint } =>
                FetchErrorView::UnresolvableVersion { name: name@, constraint: constraint@ },
            FetchError::LocalStorage { path } => FetchErrorView::LocalStorage { path: path@ },
            FetchError::LockSerialization { path } => FetchErrorView::LockSerialization {
                path: path@,
            },
            FetchError::UnexpectedEvent => FetchErrorView::UnexpectedEvent,
        }
    }
}

pub enum StageView {
    Idle,
    Catalog { name: Seq<char>, group: Seq<char>, constraint: Seq<char> },
    Archive(JobView),
    Manifest(JobView),
    Done,
    Failed(FetchErrorView),
}

/// What the session is waiting for.
pub enum Stage {
    /// Not started.
    Idle,
    /// The catalog of a declared dependency.
    Catalog { name: String, group: String, constraint: VersionConstraint },
    /// The archive of a pinned artifact to be stored.
    Archive(Job),
    /// The manifest of a pinned artifact.
    Manifest(Job),
    /// Nothing: the ledger is complete.
    Done,
    /// Nothing: the run failed.
    Failed(FetchError),
}

impl View for Stage {
    type V = StageView;

    open spec fn view(&self) -> StageView {
        match self {
            Stage::Idle => StageView::Idle,
            Stage::Catalog { name, group, constraint } => StageView::Catalog {
                name: name@,
                group: group@,
                constraint: constraint@,
            },
            Stage::Archive(j) => StageView::Archive(j@),
            Stage::Manifest(j) => StageView::Manifest(j@),
            Stage::Done => StageView::Done,
            Stage::Failed(e) => StageView::Failed(e@),
        }
    }
}

pub enum EventView {
    CatalogFetched(Seq<Seq<char>>),
    ArchiveStored,
    ManifestFetched(Option<Seq<DependencyView>>),
    Failed(FetchErrorView),
}

/// What came back from the last action.
pub enum Event {
    CatalogFetched(Metadata),
    ArchiveStored,
    ManifestFetched(Project),
    Failed(FetchError),
}

impl View for Event {
    type V = EventView;

    open spec fn view(&self) -> EventView {
        match self {
            Event::CatalogFetched(m) => EventView::CatalogFetched(m.entries()),
            Event::ArchiveStored => EventView::ArchiveStored,
            Event::ManifestFetched(p) => EventView::ManifestFetched(
                match p.dependencies {
                    Some(d) => Some(views_of(d.dependency@)),
                    None => None,
                },
            ),
            Event::Failed(e) => EventView::Failed(e@),
        }
    }
}

pub enum ActionView {
    FetchCatalog { url: Seq<char> },
    DownloadArchive { url: Seq<char>, path: Seq<char> },
    FetchManifest { url: Seq<char> },
    WriteLock,
    Abort(FetchErrorView),
}

/// What the driver must do next.
pub enum Action {
    /// Fetch the catalog document at `url` and report its entries.
    FetchCatalog { url: String },
    /// Download the archive at `url`, write it to `path` (relative to the
    /// project root) and report that it is stored.
    DownloadArchive { url: String, path: String },
    /// Fetch the manifest document at `url` and report its dependencies.
    FetchManifest { url: String },
    /// The ledger is complete: write the lock file.
    WriteLock,
    /// The run failed: write nothing and stop.
    Abort(FetchError),
}

impl View for Action {
    type V = ActionView;

    open spec fn view(&self) -> ActionView {
        match self {
            Action::FetchCatalog { url } => ActionView::FetchCatalog { url: url@ },
            Action::DownloadArchive { url, path } => ActionView::DownloadArchive {
                url: url@,
                path: path@,
            },
            Action::FetchManifest { url } => ActionView::FetchManifest { url: url@ },
            Action::WriteLock => ActionView::WriteLock,
            Action::Abort(e) => ActionView::Abort(e@),
        }
    }
}

pub struct SessionView {
    pub lock: LockView,
    pub pending: Seq<TaskView>,
    pub stage: StageView,
}

/// One fetch run: the ledger so far, the work still to do, and what the
/// session waits for.
pub struct FetchSession {
    pub lock: LockFile,
    pub pending: Vec<Task>,
    pub stage: Stage,
}

impl View for FetchSession {
    type V = SessionView;

    open spec fn view(&self) -> SessionView {
        SessionView { lock: self.lock@, pending: task_views(self.pending@), stage: self.stage@ }
    }
}

// ---- the rules of a run ----

pub open spec fn coord_of(d: DependencyView) -> CoordView {
    CoordView { group: d.group_id, name: d.artifact_id }
}

pub open spec fn job_family(j: JobView) -> Seq<char> {
    family_url(j.group, j.name)
}

/// The download of a job's archive.
pub open spec fn archive_action(j: JobView) -> ActionView {
    ActionView::DownloadArchive {
        url: artifact_file_url(job_family(j), j.name, j.version, archive_ext()),
        path: lib_dir() + artifact_stem(j.name, j.version) + archive_ext(),
    }
}

/// The fetch of a job's manifest.
pub open spec fn manifest_action(j: JobView) -> ActionView {
    ActionView::FetchManifest {
        url: artifact_file_url(job_family(j), j.name, j.version, manifest_ext()),
    }
}

/// Takes the next task off the stack, or completes the run where none is left.
pub open spec fn dispatch(lock: LockView, pending: Seq<TaskView>) -> (SessionView, ActionView) {
    if pending.len() == 0 {
        (SessionView { lock, pending, stage: StageView::Done }, ActionView::WriteLock)
    } else {
        let rest = pending.drop_last();
        match pending.last() {
            TaskView::Resolve { name, group, constraint } => (
                SessionView {
                    lock,
                    pending: rest,
                    stage: StageView::Catalog { name, group, constraint },
                },
                ActionView::FetchCatalog { url: family_url(group, name) + catalog_doc() },
            ),
            TaskView::Fetch(j) => (
                SessionView { lock, pending: rest, stage: StageView::Archive(j) },
                archive_action(j),
            ),
        }
    }
}

/// The job of a declared dependency resolved to the catalog entry `text`.
pub open spec fn top_job(name: Seq<char>, group: Seq<char>, text: Seq<char>) -> JobView {
    JobView {
        group,
        name,
        version: text,
        lock_version: version_text(lenient_version(text)->0),
        path: seq![CoordView { group, name }],
    }
}

/// The job of dependency `d` of job `j`.
pub open spec fn child_job(j: JobView, d: DependencyView) -> JobView {
    JobView {
        group: d.group_id,
        name: d.artifact_id,
        version: d.version,
        lock_version: d.version,
        path: j.path.push(coord_of(d)),
    }
}

pub open spec fn child_task(j: JobView, d: DependencyView) -> TaskView {
    TaskView::Fetch(child_job(j, d))
}

/// `d` does not lead back to a family on the chain of `j`.
pub open spec fn off_path(j: JobView, d: DependencyView) -> bool {
    !j.path.contains(coord_of(d))
}

/// The tasks a manifest spawns: one per propagating entry that does not lead
/// back onto the chain, in document order.
pub open spec fn spawned(j: JobView, deps: Seq<DependencyView>) -> Seq<TaskView> {
    deps.filter(|d: DependencyView| propagates(d)).filter(|d: DependencyView| off_path(j, d)).map_values(
        |d: DependencyView| child_task(j, d),
    )
}

/// A manifest with a dependency section that holds at least one entry.
pub open spec fn has_entries(deps: Option<Seq<DependencyView>>) -> bool {
    deps is Some && deps->0.len() > 0
}

/// The ledger entry of a job whose manifest lists `deps`: the names of its
/// propagating dependencies are recorded.
pub open spec fn locked_package(j: JobView, deps: Seq<DependencyView>) -> PackageView {
    PackageView {
        name: j.name,
        version: j.lock_version,
        authors: j.group,
        url: job_family(j),
        source: None,
        dependencies: Some(
            deps.filter(|d: DependencyView| propagates(d)).map_values(
                |d: DependencyView| d.artifact_id,
            ),
        ),
    }
}

/// The ledger after the manifest of `j` came back.
pub open spec fn record(lock: LockView, j: JobView, deps: Option<Seq<DependencyView>>) -> LockView {
    if has_entries(deps) {
        LockView { brews: lock.brews.push(locked_package(j, deps->0)), ..lock }
    } else {
        lock
    }
}

pub open spec fn children(j: JobView, deps: Option<Seq<DependencyView>>) -> Seq<TaskView> {
    if has_entries(deps) {
        spawned(j, deps->0)
    } else {
        Seq::empty()
    }
}

pub open spec fn fail(s: SessionView, e: FetchErrorView) -> (SessionView, ActionView) {
    (SessionView { stage: StageView::Failed(e), ..s }, ActionView::Abort(e))
}

/// The first action of a run.
pub open spec fn begin(s: SessionView) -> (SessionView, ActionView) {
    match s.stage {
        StageView::Idle => dispatch(s.lock, s.pending),
        StageView::Failed(e) => (s, ActionView::Abort(e)),
        StageView::Done => (s, ActionView::WriteLock),
        _ => fail(s, FetchErrorView::UnexpectedEvent),
    }
}

/// One step of a run: the new state and the next action, given what came
/// back from the last action.
pub open spec fn step(s: SessionView, e: EventView) -> (SessionView, ActionView) {
    match s.stage {
        StageView::Failed(err) => (s, ActionView::Abort(err)),
        StageView::Done => (s, ActionView::WriteLock),
        _ => match e {
            EventView::Failed(err) => fail(s, err),
            EventView::CatalogFetched(entries) => match s.stage {
                StageView::Catalog { name, group, constraint } => match resolved(
                    constraint,
                    entries,
                ) {
                    Some(text) => {
                        let j = top_job(name, group, text);
                        (SessionView { stage: StageView::Archive(j), ..s }, archive_action(j))
                    },
                    None => fail(s, FetchErrorView::UnresolvableVersion { name, constraint }),
                },
                _ => fail(s, FetchErrorView::UnexpectedEvent),
            },
            EventView::ArchiveStored => match s.stage {
                StageView::Archive(j) => (
                    SessionView { stage: StageView::Manifest(j), ..s },
                    manifest_action(j),
                ),
                _ => fail(s, FetchErrorView::UnexpectedEvent),
            },
            EventView::ManifestFetched(deps) => match s.stage {
                StageView::Manifest(j) => dispatch(record(s.lock, j, deps), s.pending + children(j, deps)),
                _ => fail(s, FetchErrorView::UnexpectedEvent),
            },
        },
    }
}

/// The tasks of the declared dependencies: one per dependency from the
/// repository (one with a group), in declaration order. Dependencies from a
/// source-control URL or a local path are not fetched.
pub open spec fn initial_tasks(blends: Seq<(Seq<char>, BlendView)>) -> Seq<TaskView> {
    blends.filter(|b: (Seq<char>, BlendView)| b.1.author is Some).map_values(
        |b: (Seq<char>, BlendView)| TaskView::Resolve {
            name: b.0,
            group: b.1.author->0,
            constraint: b.1.version,
        },
    )
}

impl Coordinate {
    pub fn duplicate(&self) -> (r: Coordinate)
        ensures
            r@ == self@,
    {
        Coordinate { group: self.group.clone(), name: self.name.clone() }
    }
}

impl FetchError {
    /// A copy of this error.
    pub fn duplicate(&self) -> (r: FetchError)
        ensures
            r@ == self@,
    {
        match self {
            FetchError::Network { url } => FetchError::Network { url: url.clone() },
            FetchError::CatalogParse { url } => FetchError::CatalogParse { url: url.clone() },
            FetchError::ManifestParse { url } => FetchError::ManifestParse { url: url.clone() },
            FetchError::UnresolvableVersion { name, constraint } =>
                FetchError::UnresolvableVersion { name: name.clone(), constraint: constraint.clone() },
            FetchError::LocalStorage { path } => FetchError::LocalStorage { path: path.clone() },
            FetchError::LockSerialization { path } => FetchError::LockSerialization {
                path: path.clone(),
            },
            FetchError::UnexpectedEvent => FetchError::UnexpectedEvent,
        }
    }
}

/// Whether the family of `d` is on `path`.
fn on_path(path: &Vec<Coordinate>, d: &Dependency) -> (r: bool)
    ensures
        r == coords_view(path@).contains(coord_of(d@)),
{
    let ghost cs = coords_view(path@);
    let mut k: usize = 0;
    while k < path.len()
        invariant
            k <= path.len(),
            cs == coords_view(path@),
            forall|m: int| 0 <= m < k ==> cs[m] != coord_of(d@),
        decreases path.len() - k,
    {
        if path[k].group == d.group_id && path[k].name == d.artifact_id {
            assert(cs[k as int] == coord_of(d@));
            return true;
        }
        k = k + 1;
    }
    false
}

/// The job of dependency `d` of `job`.
fn child_of(job: &Job, d: &Dependency) -> (r: Job)
    ensures
        r@ == child_job(job@, d@),
{
    let mut path: Vec<Coordinate> = Vec::new();
    let mut k: usize = 0;
    while k < job.path.len()
        invariant
            k <= job.path.len(),
            coords_view(path@) == coords_view(job.path@).take(k as int),
        decreases job.path.len() - k,
    {
        let ghost old_path = path@;
        let c = job.path[k].duplicate();
        path.push(c);
        assert(coords_view(path@) =~= coords_view(old_path).push(job.path@[k as int]@));
        assert(coords_view(path@) =~= coords_view(job.path@).take(k as int + 1));
        k = k + 1;
    }
    let ghost before = path@;
    assert(coords_view(before) =~= coords_view(job.path@));
    path.push(Coordinate { group: d.group_id.clone(), name: d.artifact_id.clone() });
    assert(coords_view(path@) =~= coords_view(job.path@).push(coord_of(d@)));
    Job {
        group: d.group_id.clone(),
        name: d.artifact_id.clone(),
        version: d.version.clone(),
        lock_version: d.version.clone(),
        path,
    }
}

impl FetchSession {
    /// A run for `config`: an empty ledger for the root package, and one task
    /// per dependency declared from the repository.
    pub fn new(config: &Config) -> (r: FetchSession)
        ensures
            r@ == (SessionView {
                lock: LockView {
                    name: config.brew.name@,
                    version: config.brew.version@,
                    brews: Seq::empty(),
                },
                pending: initial_tasks(blend_entries(config.blends@)),
                stage: StageView::Idle,
            }),
            acyclic(r@),
    {
        let lock = LockFile::new(config.brew.name.clone(), config.brew.version.duplicate());
        let ghost bs = blend_entries(config.blends@);
        let ghost pred = |b: (Seq<char>, BlendView)| b.1.author is Some;
        let ghost mk = |b: (Seq<char>, BlendView)|
            TaskView::Resolve { name: b.0, group: b.1.author->0, constraint: b.1.version };
        let mut pending: Vec<Task> = Vec::new();
        let mut i: usize = 0;
        while i < config.blends.len()
            invariant
                i <= config.blends.len(),
                bs == blend_entries(config.blends@),
                pred == (|b: (Seq<char>, BlendView)| b.1.author is Some),
                mk == (|b: (Seq<char>, BlendView)|
                    TaskView::Resolve { name: b.0, group: b.1.author->0, constraint: b.1.version }),
                task_views(pending@) == bs.take(i as int).filter(pred).map_values(mk),
            decreases config.blends.len() - i,
        {
            let ghost old_pending = pending@;
            proof {
                reveal(Seq::filter);
                assert(bs.take(i as int + 1).drop_last() =~= bs.take(i as int));
                assert(bs.take(i as int + 1).last() == bs[i as int]);
            }
            let entry = &config.blends[i];
            match &entry.1.author {
                Some(group) => {
                    let t = Task::Resolve {
                        name: entry.0.clone(),
                        group: group.clone(),
                        constraint: entry.1.version.duplicate(),
                    };
                    pending.push(t);
                    assert(task_views(pending@) =~= task_views(old_pending).push(mk(bs[i as int])));
                },
                None => {},
            }
            i = i + 1;
        }
        assert(bs.take(i as int) =~= bs);
        let r = FetchSession { lock, pending, stage: Stage::Idle };
        assert forall|k: int| 0 <= k < r@.pending.len() implies !(#[trigger] r@.pending[k] is Fetch) by {
            bs.filter(pred).lemma_filter_len(pred);
        }
        r
    }

    fn dispatch(&mut self) -> (r: Action)
        ensures
            (final(self)@, r@) == dispatch(old(self)@.lock, old(self)@.pending),
    {
        proof {
            reveal_strlit("maven-metadata.xml");
            reveal_strlit(".jar");
            reveal_strlit(".pom");
            reveal_strlit("lib/");
        }
        let ghost before = self.pending@;
        match self.pending.pop() {
            None => {
                self.stage = Stage::Done;
                Action::WriteLock
            },
            Some(Task::Resolve { name, group, constraint }) => {
                assert(task_views(self.pending@) =~= task_views(before).drop_last());
                let family = family_url_of(group.as_str(), name.as_str());
                let url = catalog_url(family.as_str());
                self.stage = Stage::Catalog { name, group, constraint };
                Action::FetchCatalog { url }
            },
            Some(Task::Fetch(job)) => {
                assert(task_views(self.pending@) =~= task_views(before).drop_last());
                let family = family_url_of(job.group.as_str(), job.name.as_str());
                let loc = locate(family.as_str(), job.name.as_str(), job.version.as_str());
                self.stage = Stage::Archive(job);
                Action::DownloadArchive { url: loc.archive_url, path: loc.archive_path }
            },
        }
    }

    fn fail_with(&mut self, e: FetchError) -> (r: Action)
        ensures
            (final(self)@, r@) == fail(old(self)@, e@),
    {
        let e2 = e.duplicate();
        self.stage = Stage::Failed(e);
        Action::Abort(e2)
    }

    /// The first action of the run.
    pub fn start(&mut self) -> (r: Action)
        ensures
            (final(self)@, r@) == begin(old(self)@),
            acyclic(old(self)@) ==> acyclic(final(self)@),
    {
        proof {
            if acyclic(self@) {
                lemma_chains_stay_acyclic(self@, EventView::ArchiveStored);
            }
        }
        match &self.stage {
            Stage::Idle => self.dispatch(),
            Stage::Failed(e) => Action::Abort(e.duplicate()),
            Stage::Done => Action::WriteLock,
            _ => self.fail_with(FetchError::UnexpectedEvent),
        }
    }

    /// Takes in what came back from the last action and gives the next one.
    pub fn advance(&mut self, event: Event) -> (r: Action)
        ensures
            (final(self)@, r@) == step(old(self)@, event@),
            acyclic(old(self)@) ==> acyclic(final(self)@),
    {
        proof {
            if acyclic(self@) {
                lemma_chains_stay_acyclic(self@, event@);
            }
        }
        let mut stage = Stage::Idle;
        std::mem::swap(&mut stage, &mut self.stage);
        match stage {
            Stage::Failed(e) => {
                let e2 = e.duplicate();
                self.stage = Stage::Failed(e);
                Action::Abort(e2)
            },
            Stage::Done => {
                self.stage = Stage::Done;
                Action::WriteLock
            },
            other => match event {
                Event::Failed(e) => self.fail_with(e),
                Event::CatalogFetched(m) => match other {
                    Stage::Catalog { name, group, constraint } => {
                        match resolve_entry(&constraint, &m.versioning.versions.version) {
                            Some((text, v)) => {
                                let family = family_url_of(group.as_str(), name.as_str());
                                let loc = locate(family.as_str(), name.as_str(), text.as_str());
                                let lock_version = v.to_text();
                                let path = vec![
                                    Coordinate { group: group.clone(), name: name.clone() },
                                ];
                                assert(coords_view(path@) =~= seq![
                                    CoordView { group: group@, name: name@ },
                                ]);
                                let job = Job { group, name, version: text, lock_version, path };
                                self.stage = Stage::Archive(job);
                                Action::DownloadArchive {
                                    url: loc.archive_url,
                                    path: loc.archive_path,
                                }
                            },
                            None => self.fail_with(
                                FetchError::UnresolvableVersion { name, constraint: constraint.text },
                            ),
                        }
                    },
                    _ => self.fail_with(FetchError::UnexpectedEvent),
                },
                Event::ArchiveStored => match other {
                    Stage::Archive(job) => {
                        proof {
                            reveal_strlit(".pom");
                        }
                        let family = family_url_of(job.group.as_str(), job.name.as_str());
                        let loc = locate(family.as_str(), job.name.as_str(), job.version.as_str());
                        self.stage = Stage::Manifest(job);
                        Action::FetchManifest { url: loc.manifest_url }
                    },
                    _ => self.fail_with(FetchError::UnexpectedEvent),
                },
                Event::ManifestFetched(project) => match other {
                    Stage::Manifest(job) => {
                        self.take_manifest(job, project);
                        self.dispatch()
                    },
                    _ => self.fail_with(FetchError::UnexpectedEvent),
                },
            },
        }
    }

    /// Records a job whose manifest came back, and pushes the tasks it spawns.
    fn take_manifest(&mut self, job: Job, project: Project)
        ensures
            final(self).lock@ == record(
                old(self).lock@,
                job@,
                (Event::ManifestFetched(project))@->ManifestFetched_0,
            ),
            task_views(final(self).pending@) == task_views(old(self).pending@) + children(
                job@,
                (Event::ManifestFetched(project))@->ManifestFetched_0,
            ),
            final(self).stage == old(self).stage,
    {
        let ghost jv = job@;
        match project.dependencies {
            None => {
                assert(task_views(self.pending@) =~= task_views(self.pending@) + Seq::empty());
            },
            Some(deps) => {
                if deps.dependency.len() == 0 {
                    assert(task_views(self.pending@) =~= task_views(self.pending@)
                        + Seq::empty());
                    return;
                }
                let ghost dsv = views_of(deps.dependency@);
                let ghost pp = |d: DependencyView| propagates(d);
                let ghost op = |d: DependencyView| off_path(jv, d);
                let ghost ct = |d: DependencyView| child_task(jv, d);
                let ghost an = |d: DependencyView| d.artifact_id;
                let ghost old_tasks = task_views(self.pending@);
                let props = deps.propagated();
                let ghost pv = views_of(props@);
                assert(pv == dsv.filter(pp));
                let mut names: Vec<String> = Vec::new();
                let mut i: usize = 0;
                while i < props.len()
                    invariant
                        i <= props.len(),
                        pv == views_of(props@),
                        jv == job@,
                        op == (|d: DependencyView| off_path(jv, d)),
                        ct == (|d: DependencyView| child_task(jv, d)),
                        an == (|d: DependencyView| d.artifact_id),
                        texts(names@) == pv.take(i as int).map_values(an),
                        task_views(self.pending@) == old_tasks + pv.take(i as int).filter(
                            op,
                        ).map_values(ct),
                        self.lock == old(self).lock,
                        self.stage == old(self).stage,
                    decreases props.len() - i,
                {
                    let ghost old_names = names@;
                    let ghost old_pending = self.pending@;
                    proof {
                        reveal(Seq::filter);
                        assert(pv.take(i as int + 1).drop_last() =~= pv.take(i as int));
                        assert(pv.take(i as int + 1).last() == props@[i as int]@);
                    }
                    names.push(props[i].artifact_id.clone());
                    assert(texts(names@) =~= texts(old_names).push(props@[i as int]@.artifact_id));
                    assert(pv.take(i as int + 1).map_values(an) =~= pv.take(i as int).map_values(
                        an,
                    ).push(an(props@[i as int]@)));
                    if !on_path(&job.path, &props[i]) {
                        let child = child_of(&job, &props[i]);
                        self.pending.push(Task::Fetch(child));
                        assert(task_views(self.pending@) =~= task_views(old_pending).push(
                            ct(props@[i as int]@),
                        ));
                        assert(pv.take(i as int + 1).filter(op) == pv.take(i as int).filter(
                            op,
                        ).push(props@[i as int]@));
                        assert(pv.take(i as int + 1).filter(op).map_values(ct) =~= pv.take(
                            i as int,
                        ).filter(op).map_values(ct).push(ct(props@[i as int]@)));
                    } else {
                        assert(pv.take(i as int + 1).filter(op) == pv.take(i as int).filter(op));
                    }
                    i = i + 1;
                }
                assert(pv.take(i as int) =~= pv);
                let family = family_url_of(job.group.as_str(), job.name.as_str());
                let pkg = Package::new(
                    job.name,
                    job.lock_version,
                    job.group,
                    family,
                    None,
                    Some(names),
                );
                self.lock.push(pkg);
            },
        }
    }
}

// ---- laws of a run ----

proof fn lemma_filter_member<A>(s: Seq<A>, pred: spec_fn(A) -> bool, i: int)
    requires
        0 <= i < s.filter(pred).len(),
    ensures
        s.contains(s.filter(pred)[i]),
    decreases s.len(),
{
    reveal(Seq::filter);
    if s.len() > 0 {
        let sub = s.drop_last().filter(pred);
        if i < sub.len() {
            lemma_filter_member(s.drop_last(), pred, i);
            let x = sub[i];
            let k = choose|k: int| 0 <= k < s.drop_last().len() && s.drop_last()[k] == x;
            assert(s[k] == x);
        } else {
            assert(s[s.len() - 1] == s.last());
        }
    }
}

/// Only propagating entries are fetched: every task a manifest spawns is
/// the job of a compile- or runtime-scoped, non-optional entry of that
/// manifest; a test-scoped, provided or optional entry never leads to a
/// download.
pub proof fn lemma_only_propagating_entries_spawn(j: JobView, deps: Seq<DependencyView>)
    ensures
        spawned(j, deps).len() <= deps.filter(|d: DependencyView| propagates(d)).len(),
        forall|i: int|
            #![trigger spawned(j, deps)[i]]
            0 <= i < spawned(j, deps).len() ==> exists|k: int|
                0 <= k < deps.len() && propagates(#[trigger] deps[k]) && spawned(j, deps)[i]
                    == child_task(j, deps[k]),
{
    let pp = |d: DependencyView| propagates(d);
    let op = |d: DependencyView| off_path(j, d);
    let props = deps.filter(pp);
    let kept = props.filter(op);
    props.lemma_filter_len(op);
    assert forall|i: int| #![trigger spawned(j, deps)[i]] 0 <= i < spawned(j, deps).len() implies exists|k: int|
        0 <= k < deps.len() && propagates(#[trigger] deps[k]) && spawned(j, deps)[i]
            == child_task(j, deps[k]) by {
        props.lemma_filter_pred(op, i);
        let d = kept[i];
        lemma_filter_member(props, op, i);
        let k = choose|k: int| 0 <= k < props.len() && props[k] == d;
        deps.lemma_filter_pred(pp, k);
        lemma_filter_member(deps, pp, k);
        let m = choose|m: int| 0 <= m < deps.len() && deps[m] == d;
        assert(spawned(j, deps)[i] == child_task(j, d));
        assert(propagates(deps[m]));
    }
}

/// The ledger gains exactly one entry per artifact whose manifest has a
/// dependency section with entries, when that manifest comes back; no other
/// step changes it.
pub proof fn lemma_ledger_entry_per_manifest(s: SessionView, e: EventView)
    ensures
        step(s, e).0.lock == match (s.stage, e) {
            (StageView::Manifest(j), EventView::ManifestFetched(deps)) => record(s.lock, j, deps),
            _ => s.lock,
        },
        (s.stage, e) matches (StageView::Manifest(j), EventView::ManifestFetched(deps)) ==> (
        step(s, e).0.lock.brews == if has_entries(deps) {
            s.lock.brews.push(locked_package(j, deps->0))
        } else {
            s.lock.brews
        }),
{
}

/// The chain of a job names no family twice and ends with the job's own.
pub open spec fn job_acyclic(j: JobView) -> bool {
    &&& j.path.no_duplicates()
    &&& j.path.len() > 0
    &&& j.path.last() == (CoordView { group: j.group, name: j.name })
}

/// Every job of the session, waiting or in flight, has an acyclic chain.
pub open spec fn acyclic(s: SessionView) -> bool {
    &&& forall|i: int|
        0 <= i < s.pending.len() && #[trigger] s.pending[i] is Fetch ==> job_acyclic(
            s.pending[i]->Fetch_0,
        )
    &&& s.stage is Archive ==> job_acyclic(s.stage->Archive_0)
    &&& s.stage is Manifest ==> job_acyclic(s.stage->Manifest_0)
}

proof fn lemma_dispatch_acyclic(lock: LockView, pending: Seq<TaskView>)
    requires
        forall|i: int|
            0 <= i < pending.len() && #[trigger] pending[i] is Fetch ==> job_acyclic(
                pending[i]->Fetch_0,
            ),
    ensures
        acyclic(dispatch(lock, pending).0),
{
    if pending.len() > 0 {
        let rest = pending.drop_last();
        assert forall|i: int| 0 <= i < rest.len() && #[trigger] rest[i] is Fetch implies job_acyclic(
            rest[i]->Fetch_0,
        ) by {
            assert(rest[i] == pending[i]);
        }
        if pending.last() is Fetch {
            assert(pending[pending.len() - 1] is Fetch);
        }
    }
}

proof fn lemma_spawned_acyclic(j: JobView, deps: Seq<DependencyView>)
    requires
        job_acyclic(j),
    ensures
        forall|i: int|
            0 <= i < spawned(j, deps).len() ==> #[trigger] spawned(j, deps)[i] is Fetch
                && job_acyclic(spawned(j, deps)[i]->Fetch_0),
{
    let pp = |d: DependencyView| propagates(d);
    let op = |d: DependencyView| off_path(j, d);
    let kept = deps.filter(pp).filter(op);
    assert forall|i: int| 0 <= i < spawned(j, deps).len() implies #[trigger] spawned(j, deps)[i] is Fetch
        && job_acyclic(spawned(j, deps)[i]->Fetch_0) by {
        deps.filter(pp).lemma_filter_pred(op, i);
        let d = kept[i];
        assert(!j.path.contains(coord_of(d)));
        let p = j.path.push(coord_of(d));
        assert forall|a: int, b: int| 0 <= a < p.len() && 0 <= b < p.len() && a != b implies p[a]
            != p[b] by {
            if a == j.path.len() {
                assert(p[b] == j.path[b]);
            } else if b == j.path.len() {
                assert(p[a] == j.path[a]);
            }
        }
    }
}

/// No chain ever names a family twice: a dependency that leads back to a
/// family on its own chain, such as the declared dependency it started from,
/// is not followed again. Every step keeps every chain acyclic.
pub proof fn lemma_chains_stay_acyclic(s: SessionView, e: EventView)
    requires
        acyclic(s),
    ensures
        acyclic(step(s, e).0),
        acyclic(begin(s).0),
{
    match s.stage {
        StageView::Idle => lemma_dispatch_acyclic(s.lock, s.pending),
        _ => {},
    }
    match (s.stage, e) {
        (StageView::Catalog { name, group, constraint }, EventView::CatalogFetched(entries)) => {
            let j = top_job(name, group, resolved(constraint, entries)->0);
            assert(j.path.last() == j.path[0]);
        },
        (StageView::Manifest(j), EventView::ManifestFetched(deps)) => {
            let all = s.pending + children(j, deps);
            if has_entries(deps) {
                lemma_spawned_acyclic(j, deps->0);
            }
            assert forall|i: int| 0 <= i < all.len() && #[trigger] all[i] is Fetch implies job_acyclic(
                all[i]->Fetch_0,
            ) by {
                if i < s.pending.len() {
                    assert(all[i] == s.pending[i]);
                } else {
                    assert(all[i] == children(j, deps)[i - s.pending.len()]);
                }
            }
            lemma_dispatch_acyclic(record(s.lock, j, deps), all);
        },
        _ => {},
    }
}

/// The chains of a run are bounded: an acyclic chain over a finite set of
/// families is no longer than the set, so following dependencies never
/// recurses deeper than the number of distinct families it meets.
pub proof fn lemma_chain_bounded(j: JobView, families: Set<CoordView>)
    requires
        job_acyclic(j),
        families.finite(),
        forall|i: int| 0 <= i < j.path.len() ==> families.contains(#[trigger] j.path[i]),
    ensures
        j.path.len() <= families.len(),
{
    j.path.unique_seq_to_set();
    assert(j.path.to_set().subset_of(families));
    vstd::set_lib::lemma_len_subset(j.path.to_set(), families);
}

/// The state and actions after the events of `events`, in order.
pub open spec fn run(s: SessionView, events: Seq<EventView>) -> (SessionView, Seq<ActionView>)
    decreases events.len(),
{
    if events.len() == 0 {
        (s, Seq::empty())
    } else {
        let (s1, a) = step(s, events[0]);
        let (s2, acts) = run(s1, events.drop_first());
        (s2, seq![a] + acts)
    }
}

proof fn lemma_failed_stays_failed(s: SessionView, events: Seq<EventView>)
    requires
        s.stage is Failed,
    ensures
        run(s, events).0.stage == s.stage,
        forall|i: int| 0 <= i < run(s, events).1.len() ==> #[trigger] run(s, events).1[i] is Abort,
    decreases events.len(),
{
    if events.len() > 0 {
        lemma_failed_stays_failed(step(s, events[0]).0, events.drop_first());
    }
}

/// A failure aborts the whole run: once a failure is reported, every later
/// action is an abort with that error, and the lock file is never written.
pub proof fn lemma_failure_aborts_run(s: SessionView, err: FetchErrorView, events: Seq<EventView>)
    requires
        !(s.stage is Done),
        !(s.stage is Failed),
    ensures
        run(s, seq![EventView::Failed(err)] + events).0.stage == StageView::Failed(err),
        forall|i: int|
            0 <= i < run(s, seq![EventView::Failed(err)] + events).1.len() ==> #[trigger] run(
                s,
                seq![EventView::Failed(err)] + events,
            ).1[i] == ActionView::Abort(err),
{
    let all = seq![EventView::Failed(err)] + events;
    assert(all[0] == EventView::Failed(err));
    assert(all.drop_first() =~= events);
    let s1 = step(s, all[0]).0;
    lemma_failed_stays_failed(s1, events);
    lemma_abort_repeats(s1, err, events);
}

proof fn lemma_abort_repeats(s: SessionView, err: FetchErrorView, events: Seq<EventView>)
    requires
        s.stage == StageView::Failed(err),
    ensures
        forall|i: int| 0 <= i < run(s, events).1.len() ==> #[trigger] run(s, events).1[i] == ActionView::Abort(err),
    decreases events.len(),
{
    if events.len() > 0 {
        lemma_abort_repeats(step(s, events[0]).0, err, events.drop_first());
    }
}

/// The state after `n` steps against a repository that answers each action
/// with `repo`.
pub open spec fn drive(
    s: SessionView,
    a: ActionView,
    repo: spec_fn(ActionView) -> EventView,
    n: nat,
) -> SessionView
    decreases n,
{
    if n == 0 {
        s
    } else {
        let (s1, a1) = step(s, repo(a));
        drive(s1, a1, repo, (n - 1) as nat)
    }
}

/// A whole fetch run of a configuration: a new session, its first action,
/// then `n` steps against `repo`.
pub open spec fn fetch_run(
    name: Seq<char>,
    version: crate::version::VersionView,
    blends: Seq<(Seq<char>, BlendView)>,
    repo: spec_fn(ActionView) -> EventView,
    n: nat,
) -> SessionView {
    let s0 = SessionView {
        lock: LockView { name, version, brews: Seq::empty() },
        pending: initial_tasks(blends),
        stage: StageView::Idle,
    };
    let (s1, a1) = begin(s0);
    drive(s1, a1, repo, n)
}

/// Running fetch again on an unchanged configuration against an unchanged
/// repository regenerates the same ledger: the run starts from an empty
/// ledger, reads nothing of an earlier lock file, and each step depends on
/// the configuration and the repository's answers alone.
pub proof fn lemma_rerun_same_packages(c1: Config, c2: Config, repo: spec_fn(ActionView) -> EventView, n: nat)
    requires
        c1.brew.name@ == c2.brew.name@,
        c1.brew.version@ == c2.brew.version@,
        blend_entries(c1.blends@) == blend_entries(c2.blends@),
    ensures
        fetch_run(c1.brew.name@, c1.brew.version@, blend_entries(c1.blends@), repo, n).lock
            == fetch_run(c2.brew.name@, c2.brew.version@, blend_entries(c2.blends@), repo, n).lock,
        fetch_run(c1.brew.name@, c1.brew.version@, blend_entries(c1.blends@), repo, n).lock.brews.to_set()
            == fetch_run(c2.brew.name@, c2.brew.version@, blend_entries(c2.blends@), repo, n).lock.brews.to_set(),
{
}

} // verus!
