//! Epoch-fenced collection.

use experimental_crdt::epoch_gc::{GcConfig, GcCoordinator, TombstoneMetadata};
use experimental_crdt::logical_clocks::dot_version_vector::Dot;

#[test]
fn test_epoch_advancement() {
    let mut gc = GcCoordinator::new("node1".to_string());
    assert_eq!(gc.current_epoch(), 0);

    gc.advance_epoch();
    assert_eq!(gc.current_epoch(), 1);

    gc.advance_epoch();
    assert_eq!(gc.current_epoch(), 2);
}

#[test]
fn test_peer_tracking() {
    let mut gc = GcCoordinator::new("node1".to_string());

    gc.record_peer_epoch(&"node2".to_string(), 5, 0);
    gc.record_peer_epoch(&"node3".to_string(), 3, 0);

    assert_eq!(gc.min_peer_epoch(), Some(3));

    // A later acknowledgement of node3.
    gc.record_peer_epoch(&"node3".to_string(), 6, 1);
    assert_eq!(gc.min_peer_epoch(), Some(5));
}

#[test]
fn test_safe_collection_epoch() {
    let mut gc = GcCoordinator::new("node1".to_string());

    assert_eq!(gc.safe_collection_epoch(), None);

    for _ in 0..5 {
        gc.advance_epoch();
    }

    assert_eq!(gc.safe_collection_epoch(), Some(3));

    gc.record_peer_epoch(&"node2".to_string(), 2, 0);
    gc.record_peer_epoch(&"node3".to_string(), 3, 0);

    assert_eq!(gc.safe_collection_epoch(), Some(2));

    for _ in 0..5 {
        gc.advance_epoch();
    }

    assert_eq!(gc.safe_collection_epoch(), Some(2));

    gc.record_peer_epoch(&"node2".to_string(), 7, 1);
    gc.record_peer_epoch(&"node3".to_string(), 7, 1);

    assert_eq!(gc.safe_collection_epoch(), Some(7));
}

#[test]
fn test_tombstone_can_collect() {
    let dot1 = Dot::new("node1".to_string(), 10);
    let dot2 = Dot::new("node1".to_string(), 15);

    let ts = TombstoneMetadata::new(5, dot1, dot2);

    assert!(!ts.can_collect(None));
    assert!(!ts.can_collect(Some(4)));
    assert!(ts.can_collect(Some(5)));
    assert!(ts.can_collect(Some(10)));
}

#[test]
fn peer_too_close_holds_collection_back() {
    let mut gc = GcCoordinator::new("node1".to_string());
    for _ in 0..3 {
        gc.advance_epoch();
    }
    gc.record_peer_epoch(&"node2".to_string(), 2, 0);
    assert_eq!(gc.safe_collection_epoch(), None);
    gc.remove_peer(&"node2".to_string());
    assert_eq!(gc.safe_collection_epoch(), Some(1));
}

#[test]
fn earlier_acknowledgement_is_no_news() {
    let mut gc = GcCoordinator::new("node1".to_string());
    gc.record_peer_epoch(&"node2".to_string(), 5, 0);
    gc.record_peer_epoch(&"node2".to_string(), 4, 1);
    assert_eq!(gc.min_peer_epoch(), Some(5));
    let snapshot = gc.peer_epoch_snapshot();
    assert_eq!(snapshot.get(&"node2".to_string()), Some(&5));
    assert_eq!(snapshot.entries().len(), 1);
}

#[test]
fn no_peers_no_minimum() {
    let gc = GcCoordinator::new("node1".to_string());
    assert_eq!(gc.min_peer_epoch(), None);
    assert!(gc.peer_epoch_snapshot().entries().is_empty());
    assert_eq!(gc.node_id, "node1");
}

#[test]
fn gc_intervals_by_default() {
    let config = GcConfig::default();
    assert_eq!(config.epoch_interval.nanos, 30_000_000_000);
    assert_eq!(config.gc_interval.nanos, 60_000_000_000);
}

#[test]
fn announcements_are_recorded() {
    let mut a = GcCoordinator::new("a".to_string());
    let mut b = GcCoordinator::new("b".to_string());
    a.announce_next_epoch();
    let told = a.announce_next_epoch();
    assert_eq!(told.epoch, 2);
    assert_eq!(told.node_id, "a");
    b.handle_announcement(&told, 5);
    assert_eq!(b.min_peer_epoch(), Some(2));
    assert_eq!(a.current_epoch(), 2);
}
