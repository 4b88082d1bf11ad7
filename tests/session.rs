use barista::catalog::{Metadata, Versioning, Versions};
use barista::config::{BlendConfig, Config};
use barista::fetch::{Action, Event, FetchError, FetchSession, Stage};
use barista::lock::LockFile;
use barista::manifest::{
    Dependencies, Dependency, MavenDependencyScope, MavenDependencyScopeType, Project,
};
use barista::version::VersionConstraint;
use std::collections::{BTreeSet, HashMap, HashSet};

const BASE: &str = "https://repo1.maven.org/maven2/";

type Entry = (&'static str, &'static str, &'static str, MavenDependencyScopeType, bool);

/// A repository in memory: catalogs by family, manifests by artifact, and
/// archive URLs whose download fails.
#[derive(Default)]
struct Repo {
    catalogs: HashMap<String, Vec<&'static str>>,
    manifests: HashMap<String, Vec<Entry>>,
    broken: HashSet<String>,
}

impl Repo {
    fn catalog(&mut self, group: &str, name: &str, versions: Vec<&'static str>) {
        let url = format!("{BASE}{}/{name}/maven-metadata.xml", group.replace('.', "/"));
        self.catalogs.insert(url, versions);
    }

    fn manifest(&mut self, group: &str, name: &str, version: &str, deps: Vec<Entry>) {
        let url = format!(
            "{BASE}{}/{name}/{version}/{name}-{version}.pom",
            group.replace('.', "/")
        );
        self.manifests.insert(url, deps);
    }

    fn answer(&self, action: &Action, stored: &mut Vec<String>) -> Event {
        match action {
            Action::FetchCatalog { url } => match self.catalogs.get(url) {
                Some(vs) => Event::CatalogFetched(Metadata {
                    versioning: Versioning {
                        versions: Versions { version: vs.iter().map(|s| s.to_string()).collect() },
                    },
                }),
                None => Event::Failed(FetchError::Network { url: url.clone() }),
            },
            Action::DownloadArchive { url, path } => {
                if self.broken.contains(url) {
                    Event::Failed(FetchError::Network { url: url.clone() })
                } else {
                    stored.push(path.clone());
                    Event::ArchiveStored
                }
            }
            Action::FetchManifest { url } => match self.manifests.get(url) {
                Some(deps) => Event::ManifestFetched(Project {
                    dependencies: Some(Dependencies {
                        dependency: deps
                            .iter()
                            .map(|(g, a, v, s, o)| Dependency {
                                group_id: g.to_string(),
                                artifact_id: a.to_string(),
                                version: v.to_string(),
                                scope: MavenDependencyScope { content: *s },
                                optional: *o,
                            })
                            .collect(),
                    }),
                }),
                None => Event::ManifestFetched(Project { dependencies: None }),
            },
            Action::WriteLock | Action::Abort(_) => unreachable!(),
        }
    }
}

struct Outcome {
    last: Action,
    stored: Vec<String>,
    lock: LockFile,
    steps: usize,
}

fn drive(config: &Config, repo: &Repo) -> Outcome {
    let mut session = FetchSession::new(config);
    let mut stored = Vec::new();
    let mut action = session.start();
    let mut steps = 0;
    loop {
        match action {
            Action::WriteLock | Action::Abort(_) => break,
            _ => {}
        }
        steps += 1;
        assert!(steps < 10_000, "the run does not end");
        let event = repo.answer(&action, &mut stored);
        action = session.advance(event);
    }
    Outcome { last: action, stored, lock: session.lock, steps }
}

fn maven(req: &str, group: &str) -> BlendConfig {
    BlendConfig::new_maven(VersionConstraint::parse(req).ok().unwrap(), group.to_string())
}

fn ledger(lock: &LockFile) -> BTreeSet<(String, String, Option<Vec<String>>)> {
    lock.brews
        .iter()
        .map(|p| (p.name.clone(), p.version.clone(), p.dependencies.clone()))
        .collect()
}

use MavenDependencyScopeType::{Compile, Runtime, Test};

fn sample() -> (Config, Repo) {
    let mut config = Config::new("app".to_string());
    config.add_blend("web".to_string(), maven("^1.2.0", "org.example"));
    config.add_blend("util".to_string(), maven("*", "org.tools"));
    let mut repo = Repo::default();
    repo.catalog("org.example", "web", vec!["1.1.9", "1.2.0", "1.2.5", "2.0.0"]);
    repo.catalog("org.tools", "util", vec!["0.9", "1.0"]);
    repo.manifest(
        "org.example",
        "web",
        "1.2.5",
        vec![
            ("org.example", "core", "3.1.0", Compile, false),
            ("org.example", "extras", "3.1.0", Runtime, true),
            ("junit", "junit", "4.13.2", Test, false),
        ],
    );
    repo.manifest(
        "org.example",
        "core",
        "3.1.0",
        vec![("org.log", "log", "2.0", Runtime, false)],
    );
    (config, repo)
}

#[test]
fn fetches_resolved_and_transitive_archives() {
    let (config, repo) = sample();
    let out = drive(&config, &repo);
    assert!(matches!(out.last, Action::WriteLock));
    let stored: BTreeSet<String> = out.stored.into_iter().collect();
    let expected: BTreeSet<String> = [
        "lib/web-1.2.5.jar",
        "lib/core-3.1.0.jar",
        "lib/log-2.0.jar",
        "lib/util-1.0.jar",
    ]
    .iter()
    .map(|s| s.to_string())
    .collect();
    assert_eq!(stored, expected);
}

#[test]
fn optional_and_test_entries_spawn_no_download() {
    let mut config = Config::new("app".to_string());
    config.add_blend("web".to_string(), maven("^1.2.0", "org.example"));
    let mut repo = Repo::default();
    repo.catalog("org.example", "web", vec!["1.2.0"]);
    repo.manifest(
        "org.example",
        "web",
        "1.2.0",
        vec![
            ("org.example", "core", "3.1.0", Compile, false),
            ("org.example", "extras", "3.1.0", Runtime, true),
        ],
    );
    let out = drive(&config, &repo);
    assert_eq!(out.stored, vec!["lib/web-1.2.0.jar".to_string(), "lib/core-3.1.0.jar".to_string()]);
}

#[test]
fn ledger_records_packages_with_dependency_sections() {
    let (config, repo) = sample();
    let out = drive(&config, &repo);
    let expected: BTreeSet<(String, String, Option<Vec<String>>)> = [
        ("web", "1.2.5", Some(vec!["core".to_string()])),
        ("core", "3.1.0", Some(vec!["log".to_string()])),
    ]
    .into_iter()
    .map(|(n, v, d)| (n.to_string(), v.to_string(), d))
    .collect();
    assert_eq!(ledger(&out.lock), expected);
    assert_eq!(out.lock.name, "app");
    assert_eq!(out.lock.version.to_text(), "0.1.0");
    let web = out.lock.brews.iter().find(|p| p.name == "web").unwrap();
    assert_eq!(web.authors, "org.example");
    assert_eq!(web.url, "https://repo1.maven.org/maven2/org/example/web/");
    assert_eq!(web.source, None);
}

#[test]
fn top_level_version_is_recorded_as_semantic_version() {
    let mut config = Config::new("app".to_string());
    config.add_blend("util".to_string(), maven("*", "org.tools"));
    let mut repo = Repo::default();
    repo.catalog("org.tools", "util", vec!["1.0"]);
    repo.manifest("org.tools", "util", "1.0", vec![("org.log", "log", "2.0", Compile, false)]);
    let out = drive(&config, &repo);
    assert_eq!(out.stored, vec!["lib/util-1.0.jar".to_string(), "lib/log-2.0.jar".to_string()]);
    assert_eq!(out.lock.brews.len(), 1);
    assert_eq!(out.lock.brews[0].version, "1.0.0");
}

#[test]
fn rerun_gives_the_same_packages() {
    let (config, repo) = sample();
    let first = drive(&config, &repo);
    let (config2, _) = sample();
    let second = drive(&config2, &repo);
    assert_eq!(ledger(&first.lock), ledger(&second.lock));
    assert_eq!(first.lock.brews.len(), second.lock.brews.len());
}

#[test]
fn cycle_back_to_the_root_package_terminates() {
    let mut config = Config::new("app".to_string());
    config.add_blend("a".to_string(), maven("*", "org.cyc"));
    let mut repo = Repo::default();
    repo.catalog("org.cyc", "a", vec!["1.0.0"]);
    repo.manifest("org.cyc", "a", "1.0.0", vec![("org.cyc", "b", "1.0.0", Compile, false)]);
    repo.manifest("org.cyc", "b", "1.0.0", vec![("org.cyc", "a", "1.0.0", Compile, false)]);
    let out = drive(&config, &repo);
    assert!(matches!(out.last, Action::WriteLock));
    assert!(out.steps < 20);
    assert_eq!(out.stored, vec!["lib/a-1.0.0.jar".to_string(), "lib/b-1.0.0.jar".to_string()]);
    let expected: BTreeSet<(String, String, Option<Vec<String>>)> = [
        ("a", "1.0.0", Some(vec!["b".to_string()])),
        ("b", "1.0.0", Some(vec!["a".to_string()])),
    ]
    .into_iter()
    .map(|(n, v, d)| (n.to_string(), v.to_string(), d))
    .collect();
    assert_eq!(ledger(&out.lock), expected);
}

#[test]
fn self_dependency_terminates() {
    let mut config = Config::new("app".to_string());
    config.add_blend("a".to_string(), maven("*", "org.cyc"));
    let mut repo = Repo::default();
    repo.catalog("org.cyc", "a", vec!["1.0.0"]);
    repo.manifest("org.cyc", "a", "1.0.0", vec![("org.cyc", "a", "1.0.0", Compile, false)]);
    let out = drive(&config, &repo);
    assert!(matches!(out.last, Action::WriteLock));
    assert_eq!(out.stored.len(), 1);
}

#[test]
fn diamond_dependencies_are_not_merged() {
    let mut config = Config::new("app".to_string());
    config.add_blend("a".to_string(), maven("*", "g"));
    let mut repo = Repo::default();
    repo.catalog("g", "a", vec!["1.0.0"]);
    repo.manifest(
        "g",
        "a",
        "1.0.0",
        vec![("g", "b", "1.0", Compile, false), ("g", "c", "1.0", Compile, false)],
    );
    repo.manifest("g", "b", "1.0", vec![("g", "d", "1.0", Compile, false)]);
    repo.manifest("g", "c", "1.0", vec![("g", "d", "1.0", Compile, false)]);
    let out = drive(&config, &repo);
    let d_downloads = out.stored.iter().filter(|p| p.as_str() == "lib/d-1.0.jar").count();
    assert_eq!(d_downloads, 2);
}

#[test]
fn transitive_network_failure_aborts_without_lock() {
    let (config, mut repo) = sample();
    repo.broken.insert(format!("{BASE}org/log/log/2.0/log-2.0.jar"));
    let out = drive(&config, &repo);
    match out.last {
        Action::Abort(FetchError::Network { url }) => {
            assert_eq!(url, format!("{BASE}org/log/log/2.0/log-2.0.jar"))
        }
        _ => panic!("the run should abort"),
    }
}

#[test]
fn failed_session_keeps_aborting() {
    let (config, mut repo) = sample();
    repo.broken.insert(format!("{BASE}org/log/log/2.0/log-2.0.jar"));
    let mut session = FetchSession::new(&config);
    let mut stored = Vec::new();
    let mut action = session.start();
    while !matches!(action, Action::Abort(_) | Action::WriteLock) {
        let event = repo.answer(&action, &mut stored);
        action = session.advance(event);
    }
    assert!(matches!(action, Action::Abort(_)));
    assert!(matches!(session.advance(Event::ArchiveStored), Action::Abort(_)));
    assert!(matches!(session.start(), Action::Abort(_)));
    assert!(matches!(session.stage, Stage::Failed(_)));
}

#[test]
fn unresolvable_constraint_aborts() {
    let mut config = Config::new("app".to_string());
    config.add_blend("web".to_string(), maven("^5", "org.example"));
    let mut repo = Repo::default();
    repo.catalog("org.example", "web", vec!["1.0.0", "2.0.0"]);
    let out = drive(&config, &repo);
    match out.last {
        Action::Abort(FetchError::UnresolvableVersion { name, constraint }) => {
            assert_eq!(name, "web");
            assert_eq!(constraint, "^5");
        }
        _ => panic!("the run should abort"),
    }
}

#[test]
fn leaf_artifacts_are_downloaded_but_not_recorded() {
    let mut config = Config::new("app".to_string());
    config.add_blend("leaf".to_string(), maven("*", "g"));
    let mut repo = Repo::default();
    repo.catalog("g", "leaf", vec!["1.0.0"]);
    let out = drive(&config, &repo);
    assert!(matches!(out.last, Action::WriteLock));
    assert_eq!(out.stored, vec!["lib/leaf-1.0.0.jar".to_string()]);
    assert!(out.lock.brews.is_empty());
}

#[test]
fn source_control_and_path_dependencies_are_not_fetched() {
    let mut config = Config::new("app".to_string());
    let any = VersionConstraint::any();
    config.add_blend("g".to_string(), BlendConfig::new_git(any, "https://x/y.git".to_string()));
    config.add_blend(
        "p".to_string(),
        BlendConfig::new_path(VersionConstraint::any(), "../p".to_string()),
    );
    let out = drive(&config, &Repo::default());
    assert!(matches!(out.last, Action::WriteLock));
    assert!(out.stored.is_empty());
    assert_eq!(out.steps, 0);
}

#[test]
fn event_out_of_turn_fails_the_run() {
    let (config, _) = sample();
    let mut session = FetchSession::new(&config);
    let first = session.start();
    assert!(matches!(first, Action::FetchCatalog { .. }));
    assert!(matches!(
        session.advance(Event::ArchiveStored),
        Action::Abort(FetchError::UnexpectedEvent)
    ));
}

#[test]
fn first_action_fetches_a_catalog() {
    let mut config = Config::new("app".to_string());
    config.add_blend("web".to_string(), maven("*", "org.example.sub"));
    let mut session = FetchSession::new(&config);
    match session.start() {
        Action::FetchCatalog { url } => assert_eq!(
            url,
            "https://repo1.maven.org/maven2/org/example/sub/web/maven-metadata.xml"
        ),
        _ => panic!("expected a catalog fetch"),
    }
}

#[test]
fn ledger_set_does_not_depend_on_declaration_order() {
    let (config, repo) = sample();
    let mut swapped = Config::new("app".to_string());
    swapped.add_blend("util".to_string(), maven("*", "org.tools"));
    swapped.add_blend("web".to_string(), maven("^1.2.0", "org.example"));
    let a = drive(&config, &repo);
    let b = drive(&swapped, &repo);
    assert_eq!(ledger(&a.lock), ledger(&b.lock));
}

#[test]
fn driver_errors_pass_through_to_the_abort() {
    let (config, _) = sample();
    for err in [
        FetchError::CatalogParse { url: "c".to_string() },
        FetchError::ManifestParse { url: "m".to_string() },
        FetchError::LocalStorage { path: "lib/x.jar".to_string() },
        FetchError::LockSerialization { path: "Brew.lock".to_string() },
    ] {
        let mut session = FetchSession::new(&config);
        session.start();
        let expected = format!("{:?}", describe(&err));
        match session.advance(Event::Failed(err)) {
            Action::Abort(e) => assert_eq!(format!("{:?}", describe(&e)), expected),
            _ => panic!("a reported failure must abort"),
        }
    }
}

fn describe(e: &FetchError) -> String {
    match e {
        FetchError::Network { url } => format!("network {url}"),
        FetchError::CatalogParse { url } => format!("catalog {url}"),
        FetchError::ManifestParse { url } => format!("manifest {url}"),
        FetchError::UnresolvableVersion { name, constraint } => format!("unresolvable {name} {constraint}"),
        FetchError::LocalStorage { path } => format!("storage {path}"),
        FetchError::LockSerialization { path } => format!("lock {path}"),
        FetchError::UnexpectedEvent => "unexpected".to_string(),
    }
}
