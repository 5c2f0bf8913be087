use vrma_retarget::registry::TransformationRegistry;
use vrma_retarget::types::{NodeHandle, TrackId};

#[test]
fn a_new_registry_holds_nothing() {
    let registry: TransformationRegistry<u32> = TransformationRegistry::new();
    assert!(!registry.contains(NodeHandle(0), TrackId(0)));
    assert_eq!(registry.get(NodeHandle(0), TrackId(0)), None);
    assert_eq!(registry.get(NodeHandle(7), TrackId(3)), None);
}

#[test]
fn a_registered_value_is_read_back() {
    let mut registry = TransformationRegistry::new();
    assert!(registry.register(NodeHandle(7), TrackId(3), 41u32));
    assert!(registry.contains(NodeHandle(7), TrackId(3)));
    assert_eq!(registry.get(NodeHandle(7), TrackId(3)), Some(41));
}

#[test]
fn node_and_track_both_belong_to_the_key() {
    let mut registry = TransformationRegistry::new();
    assert!(registry.register(NodeHandle(7), TrackId(3), 1u32));
    assert!(!registry.contains(NodeHandle(3), TrackId(7)));
    assert!(!registry.contains(NodeHandle(7), TrackId(4)));
    assert!(!registry.contains(NodeHandle(8), TrackId(3)));
    assert!(registry.register(NodeHandle(7), TrackId(4), 2));
    assert!(registry.register(NodeHandle(8), TrackId(3), 3));
    assert_eq!(registry.get(NodeHandle(7), TrackId(3)), Some(1));
    assert_eq!(registry.get(NodeHandle(7), TrackId(4)), Some(2));
    assert_eq!(registry.get(NodeHandle(8), TrackId(3)), Some(3));
}

#[test]
fn a_second_registration_leaves_the_first_value() {
    let mut registry = TransformationRegistry::new();
    assert!(registry.register(NodeHandle(1), TrackId(1), 10u32));
    assert!(!registry.register(NodeHandle(1), TrackId(1), 20));
    assert_eq!(registry.get(NodeHandle(1), TrackId(1)), Some(10));
}

#[test]
fn extreme_keys_are_kept_apart() {
    let mut registry = TransformationRegistry::new();
    assert!(registry.register(NodeHandle(u64::MAX), TrackId(u32::MAX), 1u8));
    assert!(registry.register(NodeHandle(u64::MAX), TrackId(0), 2));
    assert!(registry.register(NodeHandle(0), TrackId(u32::MAX), 3));
    assert!(registry.register(NodeHandle(0), TrackId(0), 4));
    assert_eq!(registry.get(NodeHandle(u64::MAX), TrackId(u32::MAX)), Some(1));
    assert_eq!(registry.get(NodeHandle(u64::MAX), TrackId(0)), Some(2));
    assert_eq!(registry.get(NodeHandle(0), TrackId(u32::MAX)), Some(3));
    assert_eq!(registry.get(NodeHandle(0), TrackId(0)), Some(4));
}

#[test]
fn many_entries_are_all_read_back() {
    let mut registry = TransformationRegistry::new();
    for node in 0..200u64 {
        for track in 0..5u32 {
            assert!(registry.register(NodeHandle(node), TrackId(track), node * 10 + track as u64));
        }
    }
    for node in 0..200u64 {
        for track in 0..5u32 {
            assert_eq!(
                registry.get(NodeHandle(node), TrackId(track)),
                Some(node * 10 + track as u64)
            );
        }
    }
    assert_eq!(registry.get(NodeHandle(200), TrackId(0)), None);
}

#[test]
fn extend_adds_what_is_new_and_keeps_what_is_there() {
    let mut held = TransformationRegistry::new();
    assert!(held.register(NodeHandle(1), TrackId(0), 'a'));
    assert!(held.register(NodeHandle(2), TrackId(0), 'b'));
    let mut other = TransformationRegistry::new();
    assert!(other.register(NodeHandle(2), TrackId(0), 'x'));
    assert!(other.register(NodeHandle(3), TrackId(0), 'y'));
    held.extend(&other);
    assert_eq!(held.get(NodeHandle(1), TrackId(0)), Some('a'));
    assert_eq!(held.get(NodeHandle(2), TrackId(0)), Some('b'));
    assert_eq!(held.get(NodeHandle(3), TrackId(0)), Some('y'));
    assert_eq!(held.get(NodeHandle(4), TrackId(0)), None);
    assert_eq!(other.get(NodeHandle(2), TrackId(0)), Some('x'));
    assert_eq!(other.get(NodeHandle(1), TrackId(0)), None);
}

#[test]
fn extend_with_an_empty_registry_changes_nothing() {
    let mut held = TransformationRegistry::new();
    assert!(held.register(NodeHandle(1), TrackId(0), 5i32));
    let other = TransformationRegistry::new();
    held.extend(&other);
    assert_eq!(held.get(NodeHandle(1), TrackId(0)), Some(5));
    let mut empty: TransformationRegistry<i32> = TransformationRegistry::new();
    empty.extend(&held);
    assert_eq!(empty.get(NodeHandle(1), TrackId(0)), Some(5));
}
