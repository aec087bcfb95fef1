use jet_semantics::attributes::{Attribute, UnprocessedMetadata};
use jet_semantics::location::Location;
use jet_semantics::Visibility;

fn loc(first: usize, last: usize) -> Location {
    Location { compilation_unit: 0, first_offset: first, last_offset: last }
}

fn meta(id: u64) -> UnprocessedMetadata {
    UnprocessedMetadata { id, location: loc(0, 4), name: ("Test".to_string(), loc(0, 4)), entries: None }
}

#[test]
fn visibility_interface_block_overrides_everything() {
    let lists: Vec<Vec<Attribute>> = vec![
        vec![],
        vec![Attribute::Private(loc(0, 7))],
        vec![Attribute::Static(loc(0, 6)), Attribute::Protected(loc(7, 16))],
    ];
    for list in &lists {
        assert!(matches!(Attribute::visibility(list, true), Visibility::Public));
    }
}

#[test]
fn visibility_defaults_to_internal() {
    let list = vec![Attribute::Static(loc(0, 6)), Attribute::Final(loc(7, 12))];
    assert!(matches!(Attribute::visibility(&list, false), Visibility::Internal));
    assert!(!Attribute::has_visibility(&list));
}

#[test]
fn visibility_takes_first_in_source_order() {
    let list = vec![
        Attribute::Static(loc(0, 6)),
        Attribute::Protected(loc(7, 16)),
        Attribute::Public(loc(17, 23)),
    ];
    assert!(matches!(Attribute::visibility(&list, false), Visibility::Protected));
    assert!(Attribute::has_visibility(&list));
}

#[test]
fn single_visibility_is_returned_and_duplicates_detected() {
    let list = vec![Attribute::Final(loc(0, 5)), Attribute::Private(loc(6, 13))];
    assert!(matches!(Attribute::visibility(&list, false), Visibility::Private));
    for other in [
        Attribute::Public(loc(20, 26)),
        Attribute::Private(loc(20, 27)),
        Attribute::Protected(loc(20, 29)),
        Attribute::Internal(loc(20, 28)),
    ] {
        assert!(Attribute::is_duplicate_visibility(&list, &other));
    }
    assert!(!Attribute::is_duplicate_visibility(&list, &Attribute::Static(loc(20, 26))));
}

#[test]
fn find_functions_scan_the_whole_list() {
    let list = vec![
        Attribute::Metadata(meta(1)),
        Attribute::Static(loc(5, 11)),
        Attribute::Override(loc(12, 20)),
    ];
    assert_eq!(Attribute::find_static(&list), Some(loc(5, 11)));
    assert_eq!(Attribute::find_override(&list), Some(loc(12, 20)));
    assert_eq!(Attribute::find_public(&list), None);
    assert_eq!(Attribute::find_final(&list), None);
}

#[test]
fn has_goes_by_attribute_keyword() {
    let list = vec![Attribute::Native(loc(0, 6)), Attribute::Abstract(loc(7, 15))];
    assert!(Attribute::has(&list, &Attribute::Native(loc(50, 56))));
    assert!(Attribute::has(&list, &Attribute::Abstract(loc(50, 58))));
    assert!(!Attribute::has(&list, &Attribute::Proxy(loc(50, 55))));
    assert!(!Attribute::has(&list, &Attribute::Metadata(meta(9))));
}

#[test]
fn variant_predicates() {
    assert!(Attribute::Public(loc(0, 6)).is_public());
    assert!(Attribute::Private(loc(0, 7)).is_private());
    assert!(Attribute::Protected(loc(0, 9)).is_protected());
    assert!(Attribute::Internal(loc(0, 8)).is_internal());
    assert!(Attribute::Proxy(loc(0, 5)).is_proxy());
    assert!(Attribute::Final(loc(0, 5)).is_final());
    assert!(Attribute::Native(loc(0, 6)).is_native());
    assert!(Attribute::Static(loc(0, 6)).is_static());
    assert!(Attribute::Abstract(loc(0, 8)).is_abstract());
    assert!(Attribute::Override(loc(0, 8)).is_override());
    assert!(Attribute::Metadata(meta(2)).is_metadata());
    assert!(!Attribute::Public(loc(0, 6)).is_private());
}

#[test]
fn attribute_location_of_each_variant() {
    assert_eq!(Attribute::Static(loc(3, 9)).location(), loc(3, 9));
    assert_eq!(Attribute::Metadata(meta(3)).location(), loc(0, 4));
}

#[test]
fn from_identifier_name_resolves_keywords() {
    let cases = ["proxy", "final", "native", "static", "abstract", "override"];
    for name in cases {
        let l = loc(10, 10 + name.len());
        let a = Attribute::from_identifier_name(name, &l).expect("keyword should resolve");
        assert_eq!(a.location(), l);
    }
    assert!(matches!(
        Attribute::from_identifier_name("static", &loc(0, 6)),
        Some(Attribute::Static(_))
    ));
}

#[test]
fn from_identifier_name_rejects_unknown_and_wrong_span() {
    assert!(Attribute::from_identifier_name("public", &loc(0, 6)).is_none());
    assert!(Attribute::from_identifier_name("", &loc(0, 0)).is_none());
    // span longer than the identifier: the parser attached a suffix
    assert!(Attribute::from_identifier_name("static", &loc(0, 7)).is_none());
}

#[test]
fn remove_metadata_goes_by_identity_not_structure() {
    // two structurally identical metadata nodes with different identities
    let mut list = vec![
        Attribute::Metadata(meta(1)),
        Attribute::Metadata(meta(2)),
        Attribute::Final(loc(9, 14)),
    ];
    Attribute::remove_metadata(&mut list, &meta(2));
    assert_eq!(list.len(), 2);
    assert!(matches!(&list[0], Attribute::Metadata(m) if m.id == 1));
    assert!(matches!(&list[1], Attribute::Final(_)));
    // removing an identity that is absent leaves the list unchanged
    Attribute::remove_metadata(&mut list, &meta(7));
    assert_eq!(list.len(), 2);
}

#[test]
fn find_metadata_returns_all_nodes_in_order() {
    let list = vec![
        Attribute::Metadata(meta(4)),
        Attribute::Static(loc(5, 11)),
        Attribute::Metadata(meta(5)),
    ];
    let found = Attribute::find_metadata(&list);
    assert_eq!(found.len(), 2);
    assert_eq!(found[0].id, 4);
    assert_eq!(found[1].id, 5);
    assert_eq!(found[0].name.0, "Test");
}
