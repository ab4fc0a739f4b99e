use galera_address_updater::membership::{
    build_snapshot, contains_address, decimal_text, format_snapshot, surviving_addresses, Snapshot,
};

fn list(items: &[&str]) -> Vec<String> {
    items.iter().map(|s| s.to_string()).collect()
}

#[test]
fn three_resolved_one_excluded() {
    let resolved = list(&["10.0.0.1", "10.0.0.2", "10.0.0.3"]);
    let excluded = list(&["10.0.0.1"]);
    let s = build_snapshot(&resolved, &excluded, 4567);
    assert_eq!(s.as_str(), "gcomm://10.0.0.2:4567,10.0.0.3:4567");
    let again = build_snapshot(&resolved, &excluded, 4567);
    assert!(s.same_as(&again));
}

#[test]
fn only_the_local_node_resolves() {
    let s = build_snapshot(&list(&["10.0.0.1"]), &list(&["10.0.0.1"]), 4567);
    assert_eq!(s.as_str(), "gcomm://");
    assert!(s.is_empty());
    assert!(s.same_as(&Snapshot::empty()));
}

#[test]
fn nothing_resolves() {
    let s = build_snapshot(&list(&[]), &list(&["10.0.0.1"]), 4567);
    assert_eq!(s.as_str(), "gcomm://");
}

#[test]
fn nothing_excluded_keeps_resolution_order() {
    let s = build_snapshot(&list(&["10.0.0.3", "10.0.0.1", "10.0.0.2"]), &list(&[]), 4567);
    assert_eq!(s.as_str(), "gcomm://10.0.0.3:4567,10.0.0.1:4567,10.0.0.2:4567");
    assert!(!s.is_empty());
}

#[test]
fn repeated_address_is_listed_once() {
    let resolved = list(&["10.0.0.2", "10.0.0.3", "10.0.0.2", "10.0.0.1", "10.0.0.3"]);
    let s = build_snapshot(&resolved, &list(&["10.0.0.1"]), 4567);
    assert_eq!(s.as_str(), "gcomm://10.0.0.2:4567,10.0.0.3:4567");
}

#[test]
fn exclusion_is_by_exact_match() {
    let resolved = list(&["10.0.0.1", "10.0.0.10", "10.0.0.100"]);
    let s = build_snapshot(&resolved, &list(&["10.0.0.1", "10.0.0"]), 3306);
    assert_eq!(s.as_str(), "gcomm://10.0.0.10:3306,10.0.0.100:3306");
}

#[test]
fn v6_addresses_are_kept_as_text() {
    let s = build_snapshot(&list(&["::1", "fe80::1"]), &list(&["::1"]), 4567);
    assert_eq!(s.as_str(), "gcomm://fe80::1:4567");
}

#[test]
fn survivors_are_exactly_the_unexcluded() {
    let resolved = list(&["a", "b", "c", "b", "d"]);
    let excluded = list(&["c", "x"]);
    let kept = surviving_addresses(&resolved, &excluded);
    assert_eq!(kept, list(&["a", "b", "d"]));
    for a in &resolved {
        assert_eq!(kept.contains(a), !excluded.contains(a));
    }
}

#[test]
fn contains_address_matches_whole_text() {
    let l = list(&["10.0.0.1", "10.0.0.2"]);
    assert!(contains_address(&l, &"10.0.0.2".to_string()));
    assert!(!contains_address(&l, &"10.0.0".to_string()));
    assert!(!contains_address(&list(&[]), &"10.0.0.1".to_string()));
}

#[test]
fn format_snapshot_joins_with_commas() {
    assert_eq!(format_snapshot(&list(&[]), 1).as_str(), "gcomm://");
    assert_eq!(format_snapshot(&list(&["h"]), 1).as_str(), "gcomm://h:1");
    assert_eq!(format_snapshot(&list(&["h", "h"]), 80).as_str(), "gcomm://h:80,h:80");
}

#[test]
fn decimal_text_values() {
    assert_eq!(decimal_text(0), "0");
    assert_eq!(decimal_text(9), "9");
    assert_eq!(decimal_text(10), "10");
    assert_eq!(decimal_text(4567), "4567");
    assert_eq!(decimal_text(1234567890), "1234567890");
    assert_eq!(decimal_text(u32::MAX), "4294967295");
}

#[test]
fn snapshot_clone_and_equality() {
    let s = build_snapshot(&list(&["10.0.0.2"]), &list(&[]), 4567);
    let c = s.clone();
    assert!(s.same_as(&c));
    assert_eq!(s, c);
    assert!(!s.same_as(&Snapshot::empty()));
    assert_eq!(Snapshot::empty().as_str(), "gcomm://");
}
