use cargo_autoinherit::classify::DetailedDependency;
use cargo_autoinherit::classify::InheritedDetail;
use cargo_autoinherit::classify::RawDependency;
use cargo_autoinherit::classify::SourceType;
use cargo_autoinherit::classify::dep2shared_dep;
use cargo_autoinherit::render::render_req;
use cargo_autoinherit::source::DependencySource;

fn empty_detail() -> DetailedDependency {
    DetailedDependency {
        version: None,
        registry: None,
        registry_index: None,
        path: None,
        git: None,
        branch: None,
        tag: None,
        rev: None,
        features: None,
        optional: None,
        default_features: None,
        package: None,
    }
}

#[test]
fn simple_entry_is_shareable_with_default_features() {
    let dep = RawDependency::Simple("1.0".to_string());
    match dep2shared_dep(&dep).expect("should classify") {
        SourceType::Shareable(d) => {
            assert!(d.default_features);
            match &d.source {
                DependencySource::Version(v) => assert_eq!(render_req(v), "^1.0"),
                _ => panic!("expected a version source"),
            }
        }
        _ => panic!("expected shareable"),
    }
}

#[test]
fn inherited_entry_contributes_nothing() {
    let dep = RawDependency::Inherited(InheritedDetail { features: None, optional: None });
    assert!(matches!(
        dep2shared_dep(&dep).expect("should classify"),
        SourceType::Inherited
    ));
}

#[test]
fn custom_registry_must_be_skipped() {
    let mut d = empty_detail();
    d.registry = Some("internal".to_string());
    d.version = Some("1.0".to_string());
    assert!(matches!(
        dep2shared_dep(&RawDependency::Detailed(d)).expect("should classify"),
        SourceType::MustBeSkipped
    ));
    let mut d = empty_detail();
    d.registry_index = Some("https://example.invalid/index".to_string());
    assert!(matches!(
        dep2shared_dep(&RawDependency::Detailed(d)).expect("should classify"),
        SourceType::MustBeSkipped
    ));
}

#[test]
fn path_takes_precedence_over_git_and_version() {
    let mut d = empty_detail();
    d.path = Some("../core".to_string());
    d.git = Some("https://example.invalid/repo.git".to_string());
    d.version = Some("2.1".to_string());
    match dep2shared_dep(&RawDependency::Detailed(d)).expect("should classify") {
        SourceType::Shareable(s) => match &s.source {
            DependencySource::Path { path, version } => {
                assert_eq!(path, "../core");
                assert_eq!(render_req(version.as_ref().unwrap()), "^2.1");
            }
            _ => panic!("expected a path source"),
        },
        _ => panic!("expected shareable"),
    }
}

#[test]
fn git_carries_branch_tag_rev_verbatim() {
    let mut d = empty_detail();
    d.git = Some("https://example.invalid/repo.git".to_string());
    d.branch = Some("main".to_string());
    d.tag = Some("v1".to_string());
    d.rev = Some("abc123".to_string());
    d.default_features = Some(false);
    match dep2shared_dep(&RawDependency::Detailed(d)).expect("should classify") {
        SourceType::Shareable(s) => {
            assert!(!s.default_features);
            match &s.source {
                DependencySource::Git { git, branch, tag, rev, version } => {
                    assert_eq!(git, "https://example.invalid/repo.git");
                    assert_eq!(branch.as_deref(), Some("main"));
                    assert_eq!(tag.as_deref(), Some("v1"));
                    assert_eq!(rev.as_deref(), Some("abc123"));
                    assert!(version.is_none());
                }
                _ => panic!("expected a git source"),
            }
        }
        _ => panic!("expected shareable"),
    }
}

#[test]
fn bare_table_without_locator_is_skipped() {
    let d = empty_detail();
    assert!(matches!(
        dep2shared_dep(&RawDependency::Detailed(d)).expect("should classify"),
        SourceType::MustBeSkipped
    ));
}

#[test]
fn malformed_requirement_is_fatal() {
    let dep = RawDependency::Simple(">a.b".to_string());
    let err = dep2shared_dep(&dep).expect_err("should fail");
    assert_eq!(err.raw, ">a.b");

    let mut d = empty_detail();
    d.path = Some("../core".to_string());
    d.version = Some("not a version".to_string());
    assert!(dep2shared_dep(&RawDependency::Detailed(d)).is_err());
}

#[test]
fn star_parses_to_wildcard() {
    let dep = RawDependency::Simple("*".to_string());
    match dep2shared_dep(&dep).expect("should classify") {
        SourceType::Shareable(s) => match &s.source {
            DependencySource::Version(v) => {
                assert!(v.comparators.is_empty());
                assert_eq!(render_req(v), "*");
            }
            _ => panic!("expected a version source"),
        },
        _ => panic!("expected shareable"),
    }
}
