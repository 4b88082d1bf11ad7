use barista::config::{
    get_root_path, Bin, BinNotFoundError, BlendConfig, Config, FindFileError, FindRootError,
};
use barista::lock::{get_lock_path, LockFile, Package};
use barista::layout::{add_to_path, parent_of_file};
use barista::toolchain::{config_file_path, jdkdir, tmpdir, toolchain_bin, ToolChain};
use barista::version::{Version, VersionConstraint};

#[test]
fn new_config_defaults() {
    let c = Config::new("demo".to_string());
    assert_eq!(c.brew().name(), "demo");
    assert_eq!(c.brew().version().to_text(), "0.1.0");
    assert!(c.blends().is_empty());
    assert!(c.bin.is_none());
}

#[test]
fn add_blend_replaces_same_name() {
    let mut c = Config::new("demo".to_string());
    c.add_blend("a".to_string(), BlendConfig::new_maven(VersionConstraint::any(), "g1".to_string()));
    c.add_blend("b".to_string(), BlendConfig::new_path(VersionConstraint::any(), "p".to_string()));
    c.add_blend("a".to_string(), BlendConfig::new_maven(VersionConstraint::any(), "g2".to_string()));
    assert_eq!(c.blends().len(), 2);
    assert_eq!(c.blends()[0].0, "a");
    assert_eq!(c.blends()[0].1.author(), Some(&"g2".to_string()));
    assert_eq!(c.blends()[1].0, "b");
    assert!(c.blends()[1].1.author().is_none());
    assert_eq!(c.blends()[1].1.version().text, "*");
}

#[test]
fn find_bin_cases() {
    let mut c = Config::new("demo".to_string());
    match c.find_bin("x".to_string()) {
        Err(BinNotFoundError::NoTargetsSpecefied) => {}
        _ => panic!("no targets were declared"),
    }
    c.bin = Some(vec![
        Bin { name: "tool".to_string(), path: None },
        Bin { name: "app".to_string(), path: Some("src/App.java".to_string()) },
    ]);
    assert_eq!(c.find_bin("tool".to_string()).ok(), Some("bin/tool.java".to_string()));
    assert_eq!(c.find_bin("app".to_string()).ok(), Some("src/App.java".to_string()));
    match c.find_bin("zzz".to_string()) {
        Err(BinNotFoundError::NoTargetsMatched(n)) => assert_eq!(n, "zzz"),
        _ => panic!("no such target"),
    }
}

#[test]
fn root_path_is_the_config_directory() {
    assert_eq!(get_root_path(Ok("/w/proj/Brew.toml".to_string())).ok(), Some("/w/proj".to_string()));
    match get_root_path(Ok("/".to_string())) {
        Err(FindRootError::FoundConfigWithoutRoot) => {}
        _ => panic!("a root has no parent"),
    }
    match get_root_path(Err(FindFileError::FileNotFound("Brew.toml".to_string()))) {
        Err(FindRootError::FindFileError(FindFileError::FileNotFound(n))) => assert_eq!(n, "Brew.toml"),
        _ => panic!("the search error is passed on"),
    }
}

#[test]
fn package_and_ledger() {
    let mut p = Package::new(
        "core".to_string(),
        "1.0".to_string(),
        "g".to_string(),
        "u".to_string(),
        None,
        None,
    );
    assert!(p.dependencies.is_none());
    p.set_dependencies(vec!["log".to_string()]);
    assert_eq!(p.dependencies, Some(vec!["log".to_string()]));
    let mut l = LockFile::new("app".to_string(), Version::new(1, 2, 3));
    assert!(l.brews.is_empty());
    l.push(p);
    l.push(Package::new("core".into(), "1.0".into(), "g".into(), "u".into(), None, None));
    assert_eq!(l.brews.len(), 2);
    assert_eq!(l.version.to_text(), "1.2.3");
}

#[test]
fn toolchain_paths() {
    assert_eq!(add_to_path("/a/b".to_string(), "c"), "/a/b/c");
    assert_eq!(add_to_path("/a/b".to_string(), "/abs"), "/abs");
    assert_eq!(add_to_path("/a/b/".to_string(), "c"), "/a/b/c");
    assert_eq!(add_to_path("".to_string(), "c"), "c");
    assert_eq!(jdkdir("/h/.javaup".to_string()), "/h/.javaup/jdks");
    assert_eq!(tmpdir("/h/.javaup".to_string()), "/h/.javaup/tmp");
    assert_eq!(config_file_path("/h/.javaup".to_string()), "/h/.javaup/settings.toml");
    assert_eq!(get_lock_path("/w/proj".to_string()), "/w/proj/Brew.lock");
    let jdk = ToolChain { version: "17".to_string(), distribution: "temurin".to_string() };
    assert_eq!(toolchain_bin("/h/.javaup/jdks".to_string(), &jdk, "javac"), "/h/.javaup/jdks/temurin/17/bin/javac");
}

#[test]
fn parent_directory_rule() {
    assert_eq!(parent_of_file("/w/proj/Brew.toml"), Some("/w/proj".to_string()));
    assert_eq!(parent_of_file("/Brew.toml"), Some("/".to_string()));
    assert_eq!(parent_of_file("Brew.toml"), Some("".to_string()));
    assert_eq!(parent_of_file("dir/"), None);
    assert_eq!(parent_of_file(""), None);
}
