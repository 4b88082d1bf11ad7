use barista::layout::{catalog_url, family_url_of, locate};
use barista::manifest::{Dependencies, Dependency, MavenDependencyScope, MavenDependencyScopeType};

#[test]
fn family_and_catalog_urls() {
    let f = family_url_of("org.apache.commons", "commons-lang3");
    assert_eq!(f, "https://repo1.maven.org/maven2/org/apache/commons/commons-lang3/");
    assert_eq!(
        catalog_url(&f),
        "https://repo1.maven.org/maven2/org/apache/commons/commons-lang3/maven-metadata.xml"
    );
}

#[test]
fn artifact_locations() {
    let f = family_url_of("junit", "junit");
    let loc = locate(&f, "junit", "4.13.2");
    assert_eq!(loc.archive_url, "https://repo1.maven.org/maven2/junit/junit/4.13.2/junit-4.13.2.jar");
    assert_eq!(loc.manifest_url, "https://repo1.maven.org/maven2/junit/junit/4.13.2/junit-4.13.2.pom");
    assert_eq!(loc.archive_path, "lib/junit-4.13.2.jar");
}

fn dep(name: &str, scope: MavenDependencyScopeType, optional: bool) -> Dependency {
    Dependency {
        group_id: "g".to_string(),
        artifact_id: name.to_string(),
        version: "1.0".to_string(),
        scope: MavenDependencyScope { content: scope },
        optional,
    }
}

#[test]
fn only_compile_and_runtime_non_optional_entries_propagate() {
    let deps = Dependencies {
        dependency: vec![
            dep("a", MavenDependencyScopeType::Compile, false),
            dep("b", MavenDependencyScopeType::Runtime, true),
            dep("c", MavenDependencyScopeType::Test, false),
            dep("d", MavenDependencyScopeType::Provided, false),
            dep("e", MavenDependencyScopeType::Runtime, false),
        ],
    };
    let names: Vec<String> = deps.propagated().into_iter().map(|d| d.artifact_id).collect();
    assert_eq!(names, vec!["a".to_string(), "e".to_string()]);
    assert_eq!(MavenDependencyScope::default_scope().content, MavenDependencyScopeType::Compile);
}
