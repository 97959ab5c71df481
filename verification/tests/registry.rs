use stackable_versioned::error::SchemaError;
use stackable_versioned::version::register;
use stackable_versioned::version::Version;

fn ids(versions: &[Version]) -> Vec<u64> {
    versions.iter().map(|v| v.id).collect()
}

#[test]
fn new_version_carries_no_flags() {
    let v = Version::new(7);
    assert_eq!(v, Version { id: 7, deprecated: false, skip_from: false });
}

#[test]
fn register_sorts_versions_ascending() {
    let ordered = register(vec![Version::new(3), Version::new(1), Version::new(2)]).unwrap();
    assert_eq!(ids(ordered.as_vec()), vec![1, 2, 3]);
    assert_eq!(ordered.len(), 3);
}

#[test]
fn register_keeps_sorted_input_as_it_is() {
    let ordered = register(vec![Version::new(1), Version::new(2), Version::new(3)]).unwrap();
    assert_eq!(ids(ordered.as_vec()), vec![1, 2, 3]);
}

#[test]
fn register_reverses_descending_input() {
    let ordered = register(vec![
        Version::new(40),
        Version::new(30),
        Version::new(20),
        Version::new(10),
    ])
    .unwrap();
    assert_eq!(ids(ordered.as_vec()), vec![10, 20, 30, 40]);
}

#[test]
fn register_orders_by_number_up_to_the_limits() {
    let ordered = register(vec![Version::new(u64::MAX), Version::new(0), Version::new(10)]).unwrap();
    assert_eq!(ids(ordered.as_vec()), vec![0, 10, u64::MAX]);
}

#[test]
fn register_keeps_the_flags_of_each_version() {
    let old = Version { id: 1, deprecated: true, skip_from: false };
    let mid = Version { id: 2, deprecated: false, skip_from: true };
    let new = Version::new(3);
    let ordered = register(vec![new, old, mid]).unwrap();
    assert_eq!(ordered.as_vec(), &vec![old, mid, new]);
}

#[test]
fn register_accepts_a_single_version() {
    let ordered = register(vec![Version::new(5)]).unwrap();
    assert_eq!(ids(ordered.as_vec()), vec![5]);
}

#[test]
fn register_of_nothing_is_empty() {
    let ordered = register(Vec::new()).unwrap();
    assert_eq!(ordered.len(), 0);
    assert!(ordered.as_vec().is_empty());
}

#[test]
fn register_rejects_two_versions_named_alike() {
    let outcome = register(vec![Version::new(1), Version::new(1)]);
    assert_eq!(outcome, Err(SchemaError::DuplicateVersion { version: 1 }));
}

#[test]
fn register_rejects_a_duplicate_whatever_its_flags() {
    let outcome = register(vec![
        Version::new(1),
        Version::new(2),
        Version { id: 1, deprecated: true, skip_from: true },
    ]);
    assert_eq!(outcome, Err(SchemaError::DuplicateVersion { version: 1 }));
}

#[test]
fn register_names_the_first_declaration_that_repeats() {
    let outcome = register(vec![
        Version::new(5),
        Version::new(3),
        Version::new(3),
        Version::new(5),
    ]);
    assert_eq!(outcome, Err(SchemaError::DuplicateVersion { version: 3 }));
    let outcome = register(vec![
        Version::new(5),
        Version::new(3),
        Version::new(5),
        Version::new(3),
    ]);
    assert_eq!(outcome, Err(SchemaError::DuplicateVersion { version: 5 }));
}

#[test]
fn registry_knows_its_versions() {
    let ordered = register(vec![Version::new(2), Version::new(4)]).unwrap();
    assert!(ordered.contains(2));
    assert!(ordered.contains(4));
    assert!(!ordered.contains(3));
    assert!(!ordered.contains(0));
}
