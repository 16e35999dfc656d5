use cargo_autoinherit::aggregate::aggregate_workspace;
use cargo_autoinherit::aggregate::ManifestDeps;
use cargo_autoinherit::classify::InheritedDetail;
use cargo_autoinherit::classify::RawDependency;
use cargo_autoinherit::patch::add_shared_deps;
use cargo_autoinherit::patch::inherit_deps;
use cargo_autoinherit::patch::insert_preserving_decor;
use cargo_autoinherit::patch::DecorData;
use cargo_autoinherit::patch::DepItem;
use cargo_autoinherit::patch::DepTable;
use cargo_autoinherit::patch::EntryData;
use cargo_autoinherit::patch::TableItem;
use cargo_autoinherit::patch::TomlScalar;

fn untouched_entry(key: &str, prefix: Option<&str>, is_table: bool) -> (String, EntryData) {
    (
        key.to_string(),
        EntryData {
            key_decor: DecorData {
                prefix: prefix.map(|p| p.to_string()),
                suffix: None,
            },
            value_decor: DecorData { prefix: Some(" ".to_string()), suffix: None },
            item: TableItem::Untouched { is_table },
        },
    )
}

fn member_table(keys: &[&str]) -> DepTable {
    DepTable {
        entries: keys.iter().map(|k| untouched_entry(k, None, false)).collect(),
    }
}

fn simple_deps(entries: &[(&str, &str)]) -> Vec<(String, RawDependency)> {
    entries
        .iter()
        .map(|(k, v)| (k.to_string(), RawDependency::Simple(v.to_string())))
        .collect()
}

fn inherited_deps(names: &[&str]) -> Vec<(String, RawDependency)> {
    names
        .iter()
        .map(|n| {
            (
                n.to_string(),
                RawDependency::Inherited(InheritedDetail { features: None, optional: None }),
            )
        })
        .collect()
}

#[test]
fn comment_before_entry_is_retained() {
    let mut table = DepTable {
        entries: vec![untouched_entry("serde", Some("# pinned for reasons\n"), false)],
    };
    insert_preserving_decor(
        &mut table,
        &"serde".to_string(),
        DepItem::Inline {
            entries: vec![("workspace".to_string(), TomlScalar::Flag(true))],
            dotted: false,
        },
    );
    assert_eq!(table.entries.len(), 1);
    let (key, entry) = &table.entries[0];
    assert_eq!(key, "serde");
    assert_eq!(entry.key_decor.prefix.as_deref(), Some("# pinned for reasons\n"));
    assert!(matches!(entry.item, TableItem::Written(_)));
}

#[test]
fn replacing_a_full_table_corrects_the_leading_space() {
    let mut entry = untouched_entry("serde", None, true);
    entry.1.value_decor.prefix = Some("\n".to_string());
    let mut table = DepTable { entries: vec![entry] };
    insert_preserving_decor(
        &mut table,
        &"serde".to_string(),
        DepItem::Plain("1.0".to_string()),
    );
    assert_eq!(table.entries[0].1.value_decor.prefix.as_deref(), Some(" "));
}

#[test]
fn fresh_key_is_appended_with_default_decor() {
    let mut table = member_table(&["anyhow"]);
    insert_preserving_decor(
        &mut table,
        &"serde".to_string(),
        DepItem::Plain("1.0".to_string()),
    );
    assert_eq!(table.entries.len(), 2);
    assert_eq!(table.entries[1].0, "serde");
    assert!(table.entries[1].1.key_decor.prefix.is_none());
}

fn end_to_end() -> (Vec<(String, cargo_autoinherit::SharedDependency)>, DepTable, DepTable, DepTable)
{
    let members = vec![
        ManifestDeps {
            dependencies: Some(simple_deps(&[("serde", "1.0")])),
            dev_dependencies: None,
            build_dependencies: None,
        },
        ManifestDeps {
            dependencies: Some(simple_deps(&[("serde", "1.0")])),
            dev_dependencies: None,
            build_dependencies: None,
        },
    ];
    let actions = aggregate_workspace(&None, &members).expect("should aggregate");
    let (centralized, diagnostics) = actions.resolve();
    assert!(diagnostics.is_empty());
    assert_eq!(centralized.len(), 1);

    let mut workspace_table = DepTable { entries: vec![] };
    let modified = add_shared_deps(
        &mut workspace_table,
        &centralized,
        &"/work/space".to_string(),
    )
    .expect("should add");
    assert!(modified);

    let mut member_a = member_table(&["serde"]);
    let deps_a = simple_deps(&[("serde", "1.0")]);
    let changed_a = inherit_deps(&deps_a, &mut member_a, &centralized, false);
    assert!(changed_a);

    let mut member_b = member_table(&["serde"]);
    let deps_b = simple_deps(&[("serde", "1.0")]);
    let changed_b = inherit_deps(&deps_b, &mut member_b, &centralized, false);
    assert!(changed_b);

    (centralized, workspace_table, member_a, member_b)
}

#[test]
fn two_members_sharing_serde_centralize() {
    let (_, workspace_table, member_a, member_b) = end_to_end();

    assert_eq!(workspace_table.entries.len(), 1);
    assert_eq!(workspace_table.entries[0].0, "serde");
    match &workspace_table.entries[0].1.item {
        TableItem::Written(DepItem::Plain(version)) => assert_eq!(version, "1.0"),
        other => panic!("expected a bare version string, got {:?}", other),
    }

    for member in [&member_a, &member_b] {
        assert_eq!(member.entries.len(), 1);
        match &member.entries[0].1.item {
            TableItem::Written(DepItem::Inline { entries, dotted }) => {
                assert_eq!(entries.len(), 1);
                assert_eq!(entries[0].0, "workspace");
                assert!(matches!(entries[0].1, TomlScalar::Flag(true)));
                assert!(!dotted);
            }
            other => panic!("expected a workspace reference, got {:?}", other),
        }
    }
}

#[test]
fn patch_phases_are_idempotent() {
    let (centralized, mut workspace_table, _, _) = end_to_end();

    let modified_again = add_shared_deps(
        &mut workspace_table,
        &centralized,
        &"/work/space".to_string(),
    )
    .expect("should succeed");
    assert!(!modified_again);
    assert_eq!(workspace_table.entries.len(), 1);

    // Re-reading a member manifest after one pass classifies the rewritten
    // entries as inherited; on such a table the phase replaces nothing.
    let mut member = member_table(&["serde"]);
    let reread = inherited_deps(&["serde"]);
    let changed = inherit_deps(&reread, &mut member, &centralized, false);
    assert!(!changed);
}

#[test]
fn existing_shared_entry_is_left_untouched() {
    let (centralized, _, _, _) = end_to_end();
    let mut workspace_table = DepTable {
        entries: vec![untouched_entry("serde", Some("# hand-written\n"), false)],
    };
    let modified = add_shared_deps(
        &mut workspace_table,
        &centralized,
        &"/work/space".to_string(),
    )
    .expect("should succeed");
    assert!(!modified);
    assert!(matches!(
        workspace_table.entries[0].1.item,
        TableItem::Untouched { .. }
    ));
}

#[test]
fn prefer_simple_dotted_marks_bare_references() {
    let (centralized, _, _, _) = end_to_end();
    let mut member = member_table(&["serde"]);
    let deps = simple_deps(&[("serde", "1.0")]);
    let changed = inherit_deps(&deps, &mut member, &centralized, true);
    assert!(changed);
    match &member.entries[0].1.item {
        TableItem::Written(DepItem::Inline { dotted, .. }) => assert!(dotted),
        other => panic!("expected a workspace reference, got {:?}", other),
    }
}

#[test]
fn features_and_optional_are_carried_over() {
    let (centralized, _, _, _) = end_to_end();
    let mut member = member_table(&["serde"]);
    let mut detail = cargo_autoinherit::classify::DetailedDependency {
        version: Some("1.0".to_string()),
        registry: None,
        registry_index: None,
        path: None,
        git: None,
        branch: None,
        tag: None,
        rev: None,
        features: Some(vec!["derive".to_string()]),
        optional: Some(true),
        default_features: None,
        package: None,
    };
    detail.version = Some("1.0".to_string());
    let deps = vec![("serde".to_string(), RawDependency::Detailed(detail))];
    let changed = inherit_deps(&deps, &mut member, &centralized, true);
    assert!(changed);
    match &member.entries[0].1.item {
        TableItem::Written(DepItem::Inline { entries, dotted }) => {
            assert_eq!(entries.len(), 3);
            assert_eq!(entries[0].0, "workspace");
            assert_eq!(entries[1].0, "features");
            match &entries[1].1 {
                TomlScalar::TextList(fs) => assert_eq!(fs, &vec!["derive".to_string()]),
                other => panic!("expected a feature list, got {:?}", other),
            }
            assert_eq!(entries[2].0, "optional");
            assert!(matches!(entries[2].1, TomlScalar::Flag(true)));
            // More than the bare reference is carried, so the dotted
            // rendering is not applied.
            assert!(!dotted);
        }
        other => panic!("expected a workspace reference, got {:?}", other),
    }
}

#[test]
fn path_source_is_relativized_against_the_root() {
    let members = vec![ManifestDeps {
        dependencies: Some(vec![(
            "core".to_string(),
            RawDependency::Detailed(cargo_autoinherit::classify::DetailedDependency {
                version: None,
                registry: None,
                registry_index: None,
                path: Some("/work/space/crates/core".to_string()),
                git: None,
                branch: None,
                tag: None,
                rev: None,
                features: None,
                optional: None,
                default_features: None,
                package: None,
            }),
        )]),
        dev_dependencies: None,
        build_dependencies: None,
    }];
    let actions = aggregate_workspace(&None, &members).expect("should aggregate");
    let (centralized, _) = actions.resolve();
    let mut workspace_table = DepTable { entries: vec![] };
    let modified =
        add_shared_deps(&mut workspace_table, &centralized, &"/work/space".to_string())
            .expect("should add");
    assert!(modified);
    match &workspace_table.entries[0].1.item {
        TableItem::Written(DepItem::Inline { entries, .. }) => {
            assert_eq!(entries[0].0, "path");
            match &entries[0].1 {
                TomlScalar::Text(p) => assert_eq!(p, "crates/core"),
                other => panic!("expected a path string, got {:?}", other),
            }
        }
        other => panic!("expected a detailed entry, got {:?}", other),
    }
}

#[test]
fn unrelativizable_path_is_an_error() {
    let members = vec![ManifestDeps {
        dependencies: Some(vec![(
            "core".to_string(),
            RawDependency::Detailed(cargo_autoinherit::classify::DetailedDependency {
                version: None,
                registry: None,
                registry_index: None,
                path: Some("crates/core".to_string()),
                git: None,
                branch: None,
                tag: None,
                rev: None,
                features: None,
                optional: None,
                default_features: None,
                package: None,
            }),
        )]),
        dev_dependencies: None,
        build_dependencies: None,
    }];
    let actions = aggregate_workspace(&None, &members).expect("should aggregate");
    let (centralized, _) = actions.resolve();
    let mut workspace_table = DepTable { entries: vec![] };
    let err = add_shared_deps(&mut workspace_table, &centralized, &"/work/space".to_string())
        .expect_err("a relative member path cannot be rewritten against an absolute root");
    assert_eq!(err.path, "crates/core");
}

#[test]
fn disabled_default_features_render_as_a_detailed_entry() {
    let members = vec![ManifestDeps {
        dependencies: Some(vec![(
            "serde".to_string(),
            RawDependency::Detailed(cargo_autoinherit::classify::DetailedDependency {
                version: Some("1.0".to_string()),
                registry: None,
                registry_index: None,
                path: None,
                git: None,
                branch: None,
                tag: None,
                rev: None,
                features: None,
                optional: None,
                default_features: Some(false),
                package: None,
            }),
        )]),
        dev_dependencies: None,
        build_dependencies: None,
    }];
    let actions = aggregate_workspace(&None, &members).expect("should aggregate");
    let (centralized, _) = actions.resolve();
    let mut workspace_table = DepTable { entries: vec![] };
    add_shared_deps(&mut workspace_table, &centralized, &"/work/space".to_string())
        .expect("should add");
    match &workspace_table.entries[0].1.item {
        TableItem::Written(DepItem::Inline { entries, .. }) => {
            assert_eq!(entries.len(), 2);
            assert_eq!(entries[0].0, "version");
            match &entries[0].1 {
                TomlScalar::Text(v) => assert_eq!(v, "1.0"),
                other => panic!("expected a version string, got {:?}", other),
            }
            assert_eq!(entries[1].0, "default-features");
            assert!(matches!(entries[1].1, TomlScalar::Flag(false)));
        }
        other => panic!("expected a detailed entry, got {:?}", other),
    }
}
