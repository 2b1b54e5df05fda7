use unibilium::boolean_ids;
use unibilium::capability_ids;
use unibilium::extended_indices;
use unibilium::numeric_ids;
use unibilium::string_ids;
use unibilium::supported_from_raw;
use unibilium::BOOLEAN_BEGIN;
use unibilium::BOOLEAN_END;

#[test]
fn fixed_spaces_hold_every_identifier_between_their_sentinels() {
    let booleans = boolean_ids();
    assert_eq!(booleans.len() as u32, BOOLEAN_END - BOOLEAN_BEGIN - 1);
    assert_eq!(booleans.first(), Some(&(BOOLEAN_BEGIN + 1)));
    assert_eq!(booleans.last(), Some(&(BOOLEAN_END - 1)));
    assert_eq!(numeric_ids().len(), 39);
    assert_eq!(string_ids().len(), 414);
}

#[test]
fn fixed_spaces_are_disjoint() {
    let mut all = boolean_ids();
    all.extend(numeric_ids());
    all.extend(string_ids());
    let count = all.len();
    all.sort();
    all.dedup();
    assert_eq!(all.len(), count);
}

#[test]
fn identifiers_exclude_both_sentinels() {
    let ids = capability_ids(32, 77);
    assert_eq!(ids.len(), 44);
    assert_eq!(ids[0], 33);
    assert_eq!(ids[43], 76);
    assert!(!ids.contains(&32));
    assert!(!ids.contains(&77));
}

#[test]
fn identifiers_ascend_in_declaration_order() {
    let ids = capability_ids(0, 5);
    assert_eq!(ids, vec![1, 2, 3, 4]);
}

#[test]
fn adjacent_sentinels_leave_no_identifier() {
    assert!(capability_ids(5, 6).is_empty());
}

#[test]
fn enumeration_is_deterministic() {
    assert_eq!(capability_ids(32, 77), capability_ids(32, 77));
    assert_eq!(extended_indices(7), extended_indices(7));
}

#[test]
fn zero_extended_capabilities_yield_an_empty_sequence() {
    assert!(extended_indices(0).is_empty());
}

#[test]
fn extended_indices_ascend_from_zero() {
    assert_eq!(extended_indices(4), vec![0, 1, 2, 3]);
}

#[test]
fn only_positive_query_results_mean_supported() {
    assert!(supported_from_raw(1));
    assert!(supported_from_raw(2));
    assert!(!supported_from_raw(0));
    assert!(!supported_from_raw(-1));
}
