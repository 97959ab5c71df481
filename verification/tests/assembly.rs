use stackable_versioned::container::assemble;
use stackable_versioned::container::view_at;
use stackable_versioned::container::ContainerAttributes;
use stackable_versioned::container::ContainerInput;
use stackable_versioned::container::ResolvedItem;
use stackable_versioned::container::VersionedContainer;
use stackable_versioned::container::VersionedView;
use stackable_versioned::container::Visibility;
use stackable_versioned::conversion::convert;
use stackable_versioned::conversion::synthesize;
use stackable_versioned::conversion::ConversionSpec;
use stackable_versioned::conversion::ItemMapping;
use stackable_versioned::error::SchemaError;
use stackable_versioned::item::Action;
use stackable_versioned::item::Item;
use stackable_versioned::version::Version;

fn input(ident: &str) -> ContainerInput {
    ContainerInput {
        original_attributes: vec!["#[derive(Debug)]".to_string()],
        visibility: Visibility::Public,
        ident: ident.to_string(),
    }
}

fn declare(ids: &[u64]) -> ContainerAttributes {
    ContainerAttributes {
        versions: ids.iter().map(|id| Version::new(*id)).collect(),
        skip_from: false,
    }
}

fn field(identity: &str, ty: &str, actions: Vec<Action>, default: Option<&str>) -> Item {
    Item {
        identity: identity.to_string(),
        ty: ty.to_string(),
        actions,
        default: default.map(|d| d.to_string()),
    }
}

fn resolved(identity: &str, name: &str, ty: &str) -> ResolvedItem {
    ResolvedItem { identity: identity.to_string(), name: name.to_string(), ty: ty.to_string() }
}

fn carry(identity: &str, from: &str, to: &str, ty: &str) -> ItemMapping {
    ItemMapping::Carry {
        identity: identity.to_string(),
        from: from.to_string(),
        to: to.to_string(),
        ty: ty.to_string(),
    }
}

fn fill(identity: &str, name: &str, ty: &str, provider: &str) -> ItemMapping {
    ItemMapping::Fill {
        identity: identity.to_string(),
        name: name.to_string(),
        ty: ty.to_string(),
        provider: provider.to_string(),
    }
}

fn added(version: u64) -> Action {
    Action::AddedIn { version }
}

fn renamed(version: u64, name: &str) -> Action {
    Action::RenamedIn { version, name: name.to_string() }
}

fn deprecated(version: u64) -> Action {
    Action::DeprecatedIn { version }
}

fn names(view: &VersionedView) -> Vec<String> {
    view.items.iter().map(|i| i.name.clone()).collect()
}

fn scenario_one() -> VersionedContainer {
    assemble(
        input("Foo"),
        vec![
            field("name", "String", vec![], None),
            field("count", "u32", vec![added(2)], Some("0")),
        ],
        declare(&[1, 2]),
    )
    .unwrap()
}

fn scenario_two() -> VersionedContainer {
    assemble(
        input("Foo"),
        vec![field("id", "u64", vec![renamed(2, "identifier"), deprecated(3)], None)],
        declare(&[1, 2, 3]),
    )
    .unwrap()
}

#[test]
fn added_field_with_default_views() {
    let container = scenario_one();
    assert_eq!(container.views.len(), 2);
    assert_eq!(
        container.views[0],
        VersionedView {
            version: Version::new(1),
            container: input("Foo"),
            items: vec![resolved("name", "name", "String")],
        }
    );
    assert_eq!(
        container.views[1],
        VersionedView {
            version: Version::new(2),
            container: input("Foo"),
            items: vec![resolved("name", "name", "String"), resolved("count", "count", "u32")],
        }
    );
}

#[test]
fn added_field_with_default_conversion() {
    let container = scenario_one();
    let conversions = synthesize(&container).unwrap();
    assert_eq!(
        conversions,
        vec![ConversionSpec {
            container: input("Foo"),
            from_ident: "Foo".to_string(),
            from: Version::new(1),
            to: Version::new(2),
            mappings: vec![carry("name", "name", "name", "String"), fill("count", "count", "u32", "0")],
            dropped: vec![],
        }]
    );
}

#[test]
fn renamed_then_deprecated_field_views() {
    let container = scenario_two();
    assert_eq!(container.views.len(), 3);
    assert_eq!(names(&container.views[0]), vec!["id"]);
    assert_eq!(names(&container.views[1]), vec!["identifier"]);
    assert!(container.views[2].items.is_empty());
    assert_eq!(container.views[0].version, Version::new(1));
    assert_eq!(container.views[1].version, Version::new(2));
    assert_eq!(container.views[2].version, Version::new(3));
    assert_eq!(container.views[1].items[0], resolved("id", "identifier", "u64"));
}

#[test]
fn renamed_then_deprecated_field_conversions() {
    let container = scenario_two();
    let conversions = synthesize(&container).unwrap();
    assert_eq!(
        conversions,
        vec![
            ConversionSpec {
                container: input("Foo"),
            from_ident: "Foo".to_string(),
                from: Version::new(1),
                to: Version::new(2),
                mappings: vec![carry("id", "id", "identifier", "u64")],
                dropped: vec![],
            },
            ConversionSpec {
                container: input("Foo"),
            from_ident: "Foo".to_string(),
                from: Version::new(2),
                to: Version::new(3),
                mappings: vec![],
                dropped: vec![resolved("id", "identifier", "u64")],
            },
        ]
    );
}

#[test]
fn deprecated_field_is_mapped_until_it_is_dropped() {
    let container = assemble(
        input("Foo"),
        vec![field("old", "u8", vec![deprecated(3)], None)],
        declare(&[1, 2, 3]),
    )
    .unwrap();
    let conversions = synthesize(&container).unwrap();
    assert_eq!(conversions.len(), 2);
    assert_eq!(conversions[0].mappings, vec![carry("old", "old", "old", "u8")]);
    assert_eq!(conversions[0].dropped, vec![]);
    assert_eq!(conversions[1].mappings, vec![]);
    assert_eq!(conversions[1].dropped, vec![resolved("old", "old", "u8")]);
}

#[test]
fn duplicate_version_produces_no_views() {
    let outcome = assemble(
        input("Foo"),
        vec![field("name", "String", vec![], None)],
        declare(&[1, 1]),
    );
    assert_eq!(outcome, Err(SchemaError::DuplicateVersion { version: 1 }));
}

#[test]
fn added_field_without_default_has_no_conversion() {
    let container = assemble(
        input("Foo"),
        vec![
            field("name", "String", vec![], None),
            field("count", "u32", vec![added(2)], None),
        ],
        declare(&[1, 2]),
    )
    .unwrap();
    assert_eq!(names(&container.views[0]), vec!["name"]);
    assert_eq!(names(&container.views[1]), vec!["name", "count"]);
    assert_eq!(
        synthesize(&container),
        Err(SchemaError::NoDefaultForAddedItem { item: "count".to_string(), version: 2 })
    );
    assert_eq!(
        convert(&container, Version::new(1), Version::new(2)),
        Err(SchemaError::NoDefaultForAddedItem { item: "count".to_string(), version: 2 })
    );
}

#[test]
fn one_failing_conversion_fails_them_all() {
    let container = assemble(
        input("Foo"),
        vec![
            field("name", "String", vec![], None),
            field("late", "u32", vec![added(3)], None),
        ],
        declare(&[1, 2, 3]),
    )
    .unwrap();
    assert!(convert(&container, Version::new(1), Version::new(2)).is_ok());
    assert_eq!(
        synthesize(&container),
        Err(SchemaError::NoDefaultForAddedItem { item: "late".to_string(), version: 3 })
    );
}

#[test]
fn conversion_error_names_the_first_pair_and_item() {
    let container = assemble(
        input("Foo"),
        vec![
            field("c", "u32", vec![added(3)], None),
            field("b", "u32", vec![added(2)], None),
            field("a", "u32", vec![added(2)], None),
        ],
        declare(&[1, 2, 3]),
    )
    .unwrap();
    assert_eq!(
        synthesize(&container),
        Err(SchemaError::NoDefaultForAddedItem { item: "b".to_string(), version: 2 })
    );
}

#[test]
fn assembling_twice_gives_the_same_views_and_conversions() {
    let first = scenario_one();
    let second = scenario_one();
    assert_eq!(first, second);
    assert_eq!(first.views, second.views);
    assert_eq!(synthesize(&first), synthesize(&second));
    assert_eq!(format!("{:?}", first.views), format!("{:?}", second.views));
    let first = scenario_two();
    let second = scenario_two();
    assert_eq!(first.views, second.views);
    assert_eq!(synthesize(&first), synthesize(&second));
}

#[test]
fn assemble_orders_the_declared_versions() {
    let container = assemble(
        input("Foo"),
        vec![field("name", "String", vec![], None)],
        declare(&[3, 1, 2]),
    )
    .unwrap();
    let ids: Vec<u64> = container.versions.as_vec().iter().map(|v| v.id).collect();
    assert_eq!(ids, vec![1, 2, 3]);
    let view_ids: Vec<u64> = container.views.iter().map(|v| v.version.id).collect();
    assert_eq!(view_ids, vec![1, 2, 3]);
}

#[test]
fn assemble_hands_the_declaration_on() {
    let container = assemble(
        ContainerInput {
            original_attributes: vec!["#[derive(Clone)]".to_string(), "#[serde]".to_string()],
            visibility: Visibility::Restricted("crate".to_string()),
            ident: "Foo".to_string(),
        },
        vec![field("name", "String", vec![], Some("d"))],
        ContainerAttributes { versions: vec![Version::new(1)], skip_from: true },
    )
    .unwrap();
    assert_eq!(container.ident, "Foo");
    assert_eq!(container.from_ident, "Foo");
    assert_eq!(container.visibility, Visibility::Restricted("crate".to_string()));
    assert_eq!(container.original_attributes, vec!["#[derive(Clone)]", "#[serde]"]);
    assert!(container.skip_from);
    assert_eq!(container.items, vec![field("name", "String", vec![], Some("d"))]);
}

#[test]
fn views_keep_the_order_of_declaration() {
    let container = assemble(
        input("Foo"),
        vec![
            field("zeta", "u8", vec![], None),
            field("alpha", "u8", vec![added(2)], Some("1")),
            field("mid", "u8", vec![deprecated(2)], None),
            field("beta", "u8", vec![], None),
        ],
        declare(&[1, 2]),
    )
    .unwrap();
    assert_eq!(names(&container.views[0]), vec!["zeta", "mid", "beta"]);
    assert_eq!(names(&container.views[1]), vec!["zeta", "alpha", "beta"]);
    let conversions = synthesize(&container).unwrap();
    assert_eq!(
        conversions[0].mappings,
        vec![carry("zeta", "zeta", "zeta", "u8"), fill("alpha", "alpha", "u8", "1"), carry("beta", "beta", "beta", "u8")]
    );
    assert_eq!(conversions[0].dropped, vec![resolved("mid", "mid", "u8")]);
}

#[test]
fn view_at_resolves_every_item() {
    let items = vec![
        field("a", "u8", vec![renamed(2, "b")], None),
        field("c", "u8", vec![added(3)], None),
    ];
    assert_eq!(
        view_at(&input("Foo"), &items, Version::new(2)),
        VersionedView {
            version: Version::new(2),
            container: input("Foo"),
            items: vec![resolved("a", "b", "u8")],
        }
    );
    assert_eq!(
        view_at(&input("Foo"), &items, Version::new(3)),
        VersionedView {
            version: Version::new(3),
            container: input("Foo"),
            items: vec![resolved("a", "b", "u8"), resolved("c", "c", "u8")],
        }
    );
    assert_eq!(
        view_at(&input("Bar"), &Vec::new(), Version::new(1)),
        VersionedView { version: Version::new(1), container: input("Bar"), items: vec![] }
    );
}

#[test]
fn every_view_and_conversion_repeats_the_declaration() {
    let declaration = ContainerInput {
        original_attributes: vec!["#[derive(Clone)]".to_string(), "#[serde]".to_string()],
        visibility: Visibility::Restricted("crate".to_string()),
        ident: "Foo".to_string(),
    };
    let container = assemble(
        declaration.clone(),
        vec![field("name", "String", vec![], None)],
        declare(&[1, 2, 3]),
    )
    .unwrap();
    assert_eq!(container.input(), declaration);
    assert_eq!(container.views.len(), 3);
    for view in &container.views {
        assert_eq!(view.container, declaration);
    }
    let conversions = synthesize(&container).unwrap();
    assert_eq!(conversions.len(), 2);
    for conversion in &conversions {
        assert_eq!(conversion.container, declaration);
        assert_eq!(conversion.from_ident, "Foo");
    }
}

#[test]
fn declaration_clone_is_equal() {
    let declaration = ContainerInput {
        original_attributes: vec!["a".to_string(), "".to_string(), "c".to_string()],
        visibility: Visibility::Restricted("super".to_string()),
        ident: "Foo".to_string(),
    };
    assert_eq!(declaration.clone(), declaration);
    assert_eq!(Visibility::Public.clone(), Visibility::Public);
    assert_eq!(Visibility::Inherited.clone(), Visibility::Inherited);
    assert_eq!(input("X").clone(), input("X"));
}

#[test]
fn assemble_rejects_an_unknown_version() {
    let outcome = assemble(
        input("Foo"),
        vec![
            field("name", "String", vec![], None),
            field("count", "u32", vec![added(4)], Some("0")),
        ],
        declare(&[1, 2]),
    );
    assert_eq!(
        outcome,
        Err(SchemaError::UnknownVersionReference { item: "count".to_string(), version: 4 })
    );
}

#[test]
fn assemble_rejects_a_contradictory_lifecycle() {
    let outcome = assemble(
        input("Foo"),
        vec![field("count", "u32", vec![added(2), deprecated(2)], Some("0"))],
        declare(&[1, 2]),
    );
    assert_eq!(outcome, Err(SchemaError::InvalidLifecycle { item: "count".to_string() }));
    let outcome = assemble(
        input("Foo"),
        vec![field("count", "u32", vec![deprecated(1), added(2)], Some("0"))],
        declare(&[1, 2]),
    );
    assert_eq!(outcome, Err(SchemaError::InvalidLifecycle { item: "count".to_string() }));
}

#[test]
fn assemble_reports_duplicate_versions_first() {
    let outcome = assemble(
        input("Foo"),
        vec![field("count", "u32", vec![added(9), deprecated(9)], None)],
        declare(&[2, 1, 2]),
    );
    assert_eq!(outcome, Err(SchemaError::DuplicateVersion { version: 2 }));
}

#[test]
fn assemble_reports_the_first_faulty_item() {
    let outcome = assemble(
        input("Foo"),
        vec![
            field("fine", "u32", vec![], None),
            field("broken", "u32", vec![added(2), added(3)], None),
            field("lost", "u32", vec![added(9)], None),
        ],
        declare(&[1, 2, 3]),
    );
    assert_eq!(outcome, Err(SchemaError::InvalidLifecycle { item: "broken".to_string() }));
}

#[test]
fn assemble_without_versions() {
    let empty = assemble(input("Foo"), vec![], declare(&[])).unwrap();
    assert!(empty.views.is_empty());
    assert_eq!(synthesize(&empty), Ok(vec![]));
    let outcome = assemble(input("Foo"), vec![field("a", "u8", vec![], None)], declare(&[]));
    assert_eq!(outcome, Err(SchemaError::InvalidLifecycle { item: "a".to_string() }));
}

#[test]
fn single_version_has_no_conversion() {
    let container =
        assemble(input("Foo"), vec![field("a", "u8", vec![], None)], declare(&[1])).unwrap();
    assert_eq!(container.views.len(), 1);
    assert_eq!(synthesize(&container), Ok(vec![]));
}

#[test]
fn container_that_skips_conversions_has_none() {
    let container = assemble(
        input("Foo"),
        vec![
            field("name", "String", vec![], None),
            field("count", "u32", vec![added(2)], None),
        ],
        ContainerAttributes { versions: vec![Version::new(1), Version::new(2)], skip_from: true },
    )
    .unwrap();
    assert_eq!(container.views.len(), 2);
    assert_eq!(synthesize(&container), Ok(vec![]));
}

#[test]
fn version_that_skips_its_conversion_is_left_out() {
    let first = Version { id: 1, deprecated: false, skip_from: true };
    let container = assemble(
        input("Foo"),
        vec![
            field("name", "String", vec![], None),
            field("count", "u32", vec![added(2)], None),
        ],
        ContainerAttributes {
            versions: vec![Version::new(3), first, Version::new(2)],
            skip_from: false,
        },
    )
    .unwrap();
    let conversions = synthesize(&container).unwrap();
    assert_eq!(
        conversions,
        vec![ConversionSpec {
            container: input("Foo"),
            from_ident: "Foo".to_string(),
            from: Version::new(2),
            to: Version::new(3),
            mappings: vec![carry("name", "name", "name", "String"), carry("count", "count", "count", "u32")],
            dropped: vec![],
        }]
    );
}

#[test]
fn skip_flag_of_the_newest_version_changes_nothing() {
    let newest = Version { id: 2, deprecated: true, skip_from: true };
    let container = assemble(
        input("Foo"),
        vec![field("name", "String", vec![], None)],
        ContainerAttributes { versions: vec![Version::new(1), newest], skip_from: false },
    )
    .unwrap();
    let conversions = synthesize(&container).unwrap();
    assert_eq!(conversions.len(), 1);
    assert_eq!(conversions[0].from, Version::new(1));
    assert_eq!(conversions[0].to, newest);
    assert_eq!(container.views[1].version, newest);
}

#[test]
fn convert_maps_between_any_two_versions() {
    let container = assemble(
        input("Foo"),
        vec![
            field("a", "u8", vec![renamed(2, "b"), renamed(3, "c")], None),
            field("late", "u8", vec![added(3)], Some("Default::default")),
            field("gone", "u8", vec![deprecated(2)], None),
        ],
        declare(&[1, 2, 3]),
    )
    .unwrap();
    assert_eq!(
        convert(&container, Version::new(1), Version::new(3)),
        Ok(ConversionSpec {
            container: input("Foo"),
            from_ident: "Foo".to_string(),
            from: Version::new(1),
            to: Version::new(3),
            mappings: vec![carry("a", "a", "c", "u8"), fill("late", "late", "u8", "Default::default")],
            dropped: vec![resolved("gone", "gone", "u8")],
        })
    );
    assert_eq!(
        convert(&container, Version::new(1), Version::new(2)),
        Ok(ConversionSpec {
            container: input("Foo"),
            from_ident: "Foo".to_string(),
            from: Version::new(1),
            to: Version::new(2),
            mappings: vec![carry("a", "a", "b", "u8")],
            dropped: vec![resolved("gone", "gone", "u8")],
        })
    );
}
