use cargo_autoinherit::aggregate::ManifestDeps;
use cargo_autoinherit::aggregate::PackageActions;
use cargo_autoinherit::aggregate::SkipReason;
use cargo_autoinherit::aggregate::aggregate_workspace;
use cargo_autoinherit::classify::DetailedDependency;
use cargo_autoinherit::classify::RawDependency;
use cargo_autoinherit::classify::SourceType;
use cargo_autoinherit::classify::dep2shared_dep;
use cargo_autoinherit::render::describe_source;
use cargo_autoinherit::render::render_req;
use cargo_autoinherit::source::DependencySource;

fn empty_detail() -> DetailedDependency {
    DetailedDependency {
        version: None,
        registry: None,
        registry_index: None,
        path: None,
        git: None,
        branch: None,
        tag: None,
        rev: None,
        features: None,
        optional: None,
        default_features: None,
        package: None,
    }
}

fn registry_dep() -> RawDependency {
    let mut d = empty_detail();
    d.registry = Some("internal".to_string());
    d.version = Some("1.0".to_string());
    RawDependency::Detailed(d)
}

fn record(actions: &mut PackageActions, name: &str, dep: &RawDependency) {
    let st = dep2shared_dep(dep).expect("should classify");
    actions.record(&name.to_string(), st);
}

#[test]
fn sticky_skip_version_then_registry() {
    let mut actions = PackageActions::new();
    record(&mut actions, "serde", &RawDependency::Simple("1.0".to_string()));
    record(&mut actions, "serde", &registry_dep());
    let (centralized, diagnostics) = actions.resolve();
    assert!(centralized.is_empty());
    assert_eq!(diagnostics.len(), 1);
    assert_eq!(diagnostics[0].0, "serde");
    assert!(matches!(diagnostics[0].1, SkipReason::UnsupportedSource));
}

#[test]
fn sticky_skip_registry_then_version() {
    let mut actions = PackageActions::new();
    record(&mut actions, "serde", &registry_dep());
    record(&mut actions, "serde", &RawDependency::Simple("1.0".to_string()));
    let (centralized, diagnostics) = actions.resolve();
    assert!(centralized.is_empty());
    assert_eq!(diagnostics.len(), 1);
    assert!(matches!(diagnostics[0].1, SkipReason::UnsupportedSource));
}

#[test]
fn conflict_reports_both_sources() {
    let mut actions = PackageActions::new();
    record(&mut actions, "serde", &RawDependency::Simple("=1.0.0".to_string()));
    record(&mut actions, "serde", &RawDependency::Simple("=2.0.0".to_string()));
    let (centralized, diagnostics) = actions.resolve();
    assert!(centralized.is_empty());
    assert_eq!(diagnostics.len(), 1);
    assert_eq!(diagnostics[0].0, "serde");
    match &diagnostics[0].1 {
        SkipReason::MultipleSources(sources) => {
            let lines: Vec<String> =
                sources.iter().map(|s| describe_source(&s.source)).collect();
            assert_eq!(lines, vec!["version: =1.0.0", "version: =2.0.0"]);
        }
        _ => panic!("expected a multiple-sources diagnostic"),
    }
}

#[test]
fn compatible_requirements_centralize_to_the_merge() {
    let mut actions = PackageActions::new();
    record(&mut actions, "serde", &RawDependency::Simple("1.0".to_string()));
    record(&mut actions, "serde", &RawDependency::Simple("1.2.3".to_string()));
    let (centralized, diagnostics) = actions.resolve();
    assert!(diagnostics.is_empty());
    assert_eq!(centralized.len(), 1);
    assert_eq!(centralized[0].0, "serde");
    match &centralized[0].1.source {
        DependencySource::Version(v) => assert_eq!(render_req(v), "^1.2.3"),
        _ => panic!("expected a version source"),
    }
}

#[test]
fn aggregation_walks_all_three_tables() {
    let workspace_deps = None;
    let members = vec![
        ManifestDeps {
            dependencies: Some(vec![(
                "serde".to_string(),
                RawDependency::Simple("1.0".to_string()),
            )]),
            dev_dependencies: Some(vec![(
                "anyhow".to_string(),
                RawDependency::Simple("1.0.40".to_string()),
            )]),
            build_dependencies: None,
        },
        ManifestDeps {
            dependencies: Some(vec![(
                "anyhow".to_string(),
                RawDependency::Simple("1.0.2".to_string()),
            )]),
            dev_dependencies: None,
            build_dependencies: Some(vec![(
                "cc".to_string(),
                RawDependency::Simple("1.0".to_string()),
            )]),
        },
    ];
    let actions = aggregate_workspace(&workspace_deps, &members).expect("should aggregate");
    let (centralized, diagnostics) = actions.resolve();
    assert!(diagnostics.is_empty());
    let mut names: Vec<&str> = centralized.iter().map(|p| p.0.as_str()).collect();
    names.sort();
    assert_eq!(names, vec!["anyhow", "cc", "serde"]);
    for (name, shared) in &centralized {
        if name == "anyhow" {
            match &shared.source {
                DependencySource::Version(v) => assert_eq!(render_req(v), "^1.0.40"),
                _ => panic!("expected a version source"),
            }
        }
    }
}

#[test]
fn aggregation_fails_on_malformed_requirement() {
    let members = vec![ManifestDeps {
        dependencies: Some(vec![(
            "serde".to_string(),
            RawDependency::Simple("@1.0.0".to_string()),
        )]),
        dev_dependencies: None,
        build_dependencies: None,
    }];
    let err = aggregate_workspace(&None, &members).expect_err("should fail");
    assert_eq!(err.raw, "@1.0.0");
}

#[test]
fn aliased_entry_is_keyed_by_its_alias() {
    let mut actions = PackageActions::new();
    let mut d = empty_detail();
    d.version = Some("0.8".to_string());
    d.package = Some("serde_json".to_string());
    record(&mut actions, "json", &RawDependency::Detailed(d));
    let (centralized, _) = actions.resolve();
    assert_eq!(centralized.len(), 1);
    assert_eq!(centralized[0].0, "json");
}

#[test]
fn describe_source_lists_git_fields() {
    let dep = dep2shared_dep(&{
        let mut d = empty_detail();
        d.git = Some("https://example.invalid/repo.git".to_string());
        d.branch = Some("main".to_string());
        d.version = Some("1.2".to_string());
        RawDependency::Detailed(d)
    })
    .expect("should classify");
    match dep {
        SourceType::Shareable(s) => {
            assert_eq!(
                describe_source(&s.source),
                "git: https://example.invalid/repo.git, branch: main, version: ^1.2"
            );
        }
        _ => panic!("expected shareable"),
    }
}
