use cargo_autoinherit::classify::parse_req;
use cargo_autoinherit::dedup::MinimalVersionSet;
use cargo_autoinherit::dedup::try_merge;
use cargo_autoinherit::render::render_req;
use cargo_autoinherit::source::DependencySource;
use cargo_autoinherit::source::SharedDependency;

fn req(s: &str) -> cargo_autoinherit::VersionReq {
    parse_req(s).expect("requirement should parse")
}

fn version_dep(s: &str, default_features: bool) -> SharedDependency {
    SharedDependency {
        default_features,
        source: DependencySource::Version(req(s)),
    }
}

fn rendered_sources(set: MinimalVersionSet) -> Vec<(String, bool)> {
    set.into_iter()
        .into_iter()
        .map(|d| match &d.source {
            DependencySource::Version(v) => (render_req(v), d.default_features),
            _ => panic!("expected a version source"),
        })
        .collect()
}

#[test]
fn exact_duplicate_collapses() {
    let mut set = MinimalVersionSet::new();
    set.insert(version_dep("^1.2", true));
    set.insert(version_dep("^1.2", true));
    assert_eq!(set.len(), 1);
    let kept = rendered_sources(set);
    assert_eq!(kept, vec![("^1.2".to_string(), true)]);
}

#[test]
fn default_features_dominance() {
    let mut set = MinimalVersionSet::new();
    set.insert(version_dep("^1.2", true));
    set.insert(version_dep("^1.2", false));
    assert_eq!(set.len(), 1);
    let kept = rendered_sources(set);
    assert_eq!(kept, vec![("^1.2".to_string(), false)]);
}

#[test]
fn wildcard_absorbed_either_order() {
    let mut set = MinimalVersionSet::new();
    set.insert(version_dep("*", true));
    set.insert(version_dep("^2.3", true));
    assert_eq!(set.len(), 1);
    assert_eq!(rendered_sources(set), vec![("^2.3".to_string(), true)]);

    let mut set = MinimalVersionSet::new();
    set.insert(version_dep("^2.3", true));
    set.insert(version_dep("*", true));
    assert_eq!(set.len(), 1);
    assert_eq!(rendered_sources(set), vec![("^2.3".to_string(), true)]);
}

#[test]
fn caret_merges_same_major() {
    let merged = try_merge(&req("^1.2"), &req("^1.3.1")).expect("should merge");
    assert_eq!(render_req(&merged), "^1.3.1");
    let merged = try_merge(&req("^1.4"), &req("^1.3.1")).expect("should merge");
    assert_eq!(render_req(&merged), "^1.4");
    let merged = try_merge(&req("^1.2.5"), &req("^1.2.9")).expect("should merge");
    assert_eq!(render_req(&merged), "^1.2.9");
}

#[test]
fn different_majors_do_not_merge() {
    assert!(try_merge(&req("^1.2"), &req("^2.2")).is_none());
}

#[test]
fn pre_one_refusal() {
    let mut set = MinimalVersionSet::new();
    set.insert(version_dep("^0.1", true));
    set.insert(version_dep("^0.2", true));
    assert_eq!(set.len(), 2);

    let mut set = MinimalVersionSet::new();
    set.insert(version_dep("^0.0.1", true));
    set.insert(version_dep("^0.0.2", true));
    assert_eq!(set.len(), 2);
}

#[test]
fn pre_one_same_minor_merges_patch() {
    let merged = try_merge(&req("^0.3.1"), &req("^0.3.4")).expect("should merge");
    assert_eq!(render_req(&merged), "^0.3.4");
}

#[test]
fn exact_requirements_do_not_merge() {
    let mut set = MinimalVersionSet::new();
    set.insert(version_dep("=1.0.0", true));
    set.insert(version_dep("=2.0.0", true));
    assert_eq!(set.len(), 2);
}

#[test]
fn prerelease_carets_do_not_merge() {
    assert!(try_merge(&req("^1.2.0-alpha.1"), &req("^1.3.0")).is_none());
}

#[test]
fn git_and_version_sources_coexist() {
    let mut set = MinimalVersionSet::new();
    set.insert(SharedDependency {
        default_features: true,
        source: DependencySource::Git {
            git: "https://example.invalid/repo.git".to_string(),
            branch: Some("main".to_string()),
            tag: None,
            rev: None,
            version: None,
        },
    });
    set.insert(version_dep("^1.0", true));
    assert_eq!(set.len(), 2);
}
