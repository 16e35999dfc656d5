use cargo_autoinherit::AutoInheritConf;
use cargo_autoinherit::CargoInvocation;
use cargo_autoinherit::combine_excludes;
use cargo_autoinherit::metadata::AutoInheritMetadata;
use cargo_autoinherit::metadata::MetaItem;
use cargo_autoinherit::metadata::MetaValue;
use cargo_autoinherit::metadata::is_excluded;
use cargo_autoinherit::render::render_req;
use cargo_autoinherit::classify::parse_req;

#[test]
fn default_configuration() {
    let conf = AutoInheritConf::default();
    assert!(!conf.prefer_simple_dotted);
    assert!(conf.exclude_members.is_empty());
    assert!(conf.manifest_path.is_none());
    let invocation = CargoInvocation::AutoInherit(conf);
    let CargoInvocation::AutoInherit(inner) = invocation;
    assert!(!inner.prefer_simple_dotted);
}

#[test]
fn metadata_exclude_members_hyphenated() {
    let table = Some(vec![(
        "exclude-members".to_string(),
        MetaValue::List(vec![
            MetaItem::Text("cli".to_string()),
            MetaItem::Text("xtask".to_string()),
        ]),
    )]);
    let meta = AutoInheritMetadata::from_workspace(&table).expect("should read");
    assert_eq!(meta.exclude_members, vec!["cli", "xtask"]);
}

#[test]
fn metadata_exclude_members_underscored() {
    let table = Some(vec![(
        "exclude_members".to_string(),
        MetaValue::List(vec![MetaItem::Text("cli".to_string())]),
    )]);
    let meta = AutoInheritMetadata::from_workspace(&table).expect("should read");
    assert_eq!(meta.exclude_members, vec!["cli"]);
}

#[test]
fn metadata_absent_means_no_excludes() {
    let meta = AutoInheritMetadata::from_workspace(&None).expect("should read");
    assert!(meta.exclude_members.is_empty());
    let meta = AutoInheritMetadata::from_workspace(&Some(vec![])).expect("should read");
    assert!(meta.exclude_members.is_empty());
}

#[test]
fn metadata_wrong_shapes_are_errors() {
    let not_an_array = Some(vec![(
        "exclude-members".to_string(),
        MetaValue::Text("cli".to_string()),
    )]);
    assert!(AutoInheritMetadata::from_workspace(&not_an_array).is_err());

    let mixed = Some(vec![(
        "exclude-members".to_string(),
        MetaValue::List(vec![MetaItem::Text("cli".to_string()), MetaItem::Other]),
    )]);
    assert!(AutoInheritMetadata::from_workspace(&mixed).is_err());
}

#[test]
fn excludes_combine_and_answer_membership() {
    let conf = vec!["cli".to_string()];
    let meta = vec!["xtask".to_string()];
    let all = combine_excludes(&conf, &meta);
    assert_eq!(all, vec!["cli", "xtask"]);
    assert!(is_excluded(&all, &"cli".to_string()));
    assert!(is_excluded(&all, &"xtask".to_string()));
    assert!(!is_excluded(&all, &"core".to_string()));
}

#[test]
fn rendering_round_trips_common_requirements() {
    for (input, rendered) in [
        ("1.0", "^1.0"),
        ("1.2.3", "^1.2.3"),
        ("=1.0.0", "=1.0.0"),
        ("~0.7", "~0.7"),
        (">=1.0, <2.0", ">=1.0, <2.0"),
        ("*", "*"),
        ("1.*", "1.*"),
        ("1.0.0-alpha.1", "^1.0.0-alpha.1"),
    ] {
        let req = parse_req(input).expect("should parse");
        assert_eq!(render_req(&req), rendered);
    }
}

#[test]
fn version_numbers_render_in_full() {
    let req = parse_req("10.20.304").expect("should parse");
    assert_eq!(render_req(&req), "^10.20.304");
}

#[test]
fn rendering_matches_the_requirement_grammar() {
    // Rendering a parsed requirement and parsing it back is the identity on
    // the parsed form, and the rendered text equals the grammar's own
    // canonical form.
    for input in [
        "1.0",
        "1.2.3",
        "=1.0.0",
        "~0.7.2",
        ">=1.0, <2.0",
        "*",
        "1.*",
        "0.0.1",
        "1.0.0-alpha.1",
        ">2, <=3.1",
    ] {
        let req = parse_req(input).expect("should parse");
        let rendered = render_req(&req);
        let canonical = semver::VersionReq::parse(input)
            .expect("should parse")
            .to_string();
        assert_eq!(rendered, canonical);
        let reparsed = parse_req(&rendered).expect("the rendering should parse");
        assert_eq!(render_req(&reparsed), rendered);
    }
}
