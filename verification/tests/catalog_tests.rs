//! Tests for the fixed catalog and its partition.

use language_catalog::catalog::{all, partition, AppState};

#[test]
fn all_returns_six_records_in_declaration_order() {
    let v = all();
    assert_eq!(v.len(), 6);
    let expected = [
        ("FORTRAN", 1954u32),
        ("LISP", 1958),
        ("COBOL", 1959),
        ("ALGOL 60", 1960),
        ("Prolog", 1972),
        ("ML", 1973),
    ];
    for (record, (name, year)) in v.iter().zip(expected.iter()) {
        assert_eq!(record.name, *name);
        assert_eq!(record.year, *year);
    }
}

#[test]
fn all_returns_the_same_records_on_every_call() {
    let first = all();
    let second = all();
    assert_eq!(first.len(), second.len());
    for (a, b) in first.iter().zip(second.iter()) {
        assert_eq!(a.name, b.name);
        assert_eq!(a.year, b.year);
    }
}

#[test]
fn partition_splits_catalog_at_1970() {
    let (old_languages, new_languages) = partition();
    let old_expected = [
        ("FORTRAN", 1954u32),
        ("LISP", 1958),
        ("COBOL", 1959),
        ("ALGOL 60", 1960),
    ];
    let new_expected = [("Prolog", 1972u32), ("ML", 1973)];
    assert_eq!(old_languages.len(), old_expected.len());
    for (record, (name, year)) in old_languages.iter().zip(old_expected.iter()) {
        assert_eq!(record.name, *name);
        assert_eq!(record.year, *year);
        assert!(record.year < 1970);
    }
    assert_eq!(new_languages.len(), new_expected.len());
    for (record, (name, year)) in new_languages.iter().zip(new_expected.iter()) {
        assert_eq!(record.name, *name);
        assert_eq!(record.year, *year);
        assert!(record.year >= 1970);
    }
}

#[test]
fn partition_parts_are_disjoint_and_cover_the_catalog() {
    let (old_languages, new_languages) = partition();
    for old_record in old_languages.iter() {
        for new_record in new_languages.iter() {
            assert!(old_record.name != new_record.name || old_record.year != new_record.year);
        }
    }
    let catalog = all();
    assert_eq!(old_languages.len() + new_languages.len(), catalog.len());
    for record in catalog.iter() {
        let in_old = old_languages
            .iter()
            .any(|l| l.name == record.name && l.year == record.year);
        let in_new = new_languages
            .iter()
            .any(|l| l.name == record.name && l.year == record.year);
        assert!(in_old || in_new);
        assert!(!(in_old && in_new));
    }
}

#[test]
fn app_state_holds_the_partition() {
    let state = AppState::new();
    let (old_languages, new_languages) = partition();
    assert_eq!(state.old_languages.len(), old_languages.len());
    assert_eq!(state.new_languages.len(), new_languages.len());
    for (a, b) in state.old_languages.iter().zip(old_languages.iter()) {
        assert_eq!(a.name, b.name);
        assert_eq!(a.year, b.year);
    }
    for (a, b) in state.new_languages.iter().zip(new_languages.iter()) {
        assert_eq!(a.name, b.name);
        assert_eq!(a.year, b.year);
    }
}
