use letraspip::offset_manager::{
    anchors_in_order, insert_anchor, put_anchors_in_order, resolve_correction, without_anchor,
    OffsetManager,
};
use letraspip::types::{OffsetAnchor, TrackOffsetData};

fn anchor(timestamp: u64, offset: i32) -> OffsetAnchor {
    OffsetAnchor { timestamp, offset }
}

#[test]
fn anchor_resolution_picks_latest_applicable_anchor() {
    let mut store = OffsetManager::new();
    store.set_anchor_offset("track", 1000, 50, 1);
    store.set_anchor_offset("track", 5000, -100, 2);
    assert_eq!(store.get_global_offset("track"), 0);
    assert_eq!(store.get_offset_for_timestamp("track", 500), 0);
    assert_eq!(store.get_offset_for_timestamp("track", 1200), 50);
    assert_eq!(store.get_offset_for_timestamp("track", 6000), -100);
}

#[test]
fn anchor_applies_at_its_own_timestamp() {
    let mut store = OffsetManager::new();
    store.set_anchor_offset("track", 1000, 50, 1);
    assert_eq!(store.get_offset_for_timestamp("track", 999), 0);
    assert_eq!(store.get_offset_for_timestamp("track", 1000), 50);
    assert_eq!(store.get_offset_for_timestamp("track", u64::MAX), 50);
}

#[test]
fn global_correction_applies_where_no_anchor_does() {
    let mut store = OffsetManager::new();
    store.set_global_offset("track", -250, 7);
    store.set_anchor_offset("track", 2000, 80, 8);
    assert_eq!(store.get_offset_for_timestamp("track", 0), -250);
    assert_eq!(store.get_offset_for_timestamp("track", 1999), -250);
    assert_eq!(store.get_offset_for_timestamp("track", 2000), 80);
    assert_eq!(store.get_global_offset("track"), -250);
}

#[test]
fn track_without_record_has_no_correction() {
    let store = OffsetManager::new();
    assert_eq!(store.get_offset_for_timestamp("nobody", 1234), 0);
    assert_eq!(store.get_global_offset("nobody"), 0);
    assert!(store.get_track_anchors("nobody").is_empty());
}

#[test]
fn anchors_stay_ordered_whatever_the_order_of_insertion() {
    let mut store = OffsetManager::new();
    store.set_anchor_offset("t", 5000, -100, 1);
    store.set_anchor_offset("t", 1000, 50, 2);
    store.set_anchor_offset("t", 3000, 7, 3);
    assert_eq!(
        store.get_track_anchors("t"),
        vec![anchor(1000, 50), anchor(3000, 7), anchor(5000, -100)]
    );
}

#[test]
fn setting_an_anchor_replaces_the_one_at_its_timestamp() {
    let mut store = OffsetManager::new();
    store.set_anchor_offset("t", 1000, 50, 1);
    store.set_anchor_offset("t", 2000, 60, 2);
    store.set_anchor_offset("t", 1000, -5, 3);
    assert_eq!(store.get_track_anchors("t"), vec![anchor(1000, -5), anchor(2000, 60)]);
    assert_eq!(store.get_offset_for_timestamp("t", 1500), -5);
}

#[test]
fn removing_an_anchor_tells_whether_it_was_there() {
    let mut store = OffsetManager::new();
    store.set_anchor_offset("t", 1000, 50, 1);
    store.set_anchor_offset("t", 2000, 60, 2);
    assert!(!store.remove_anchor("t", 1500, 3));
    assert!(!store.remove_anchor("other", 1000, 3));
    assert!(store.remove_anchor("t", 1000, 4));
    assert_eq!(store.get_track_anchors("t"), vec![anchor(2000, 60)]);
    assert_eq!(store.get_offset_for_timestamp("t", 1500), 0);
    assert!(!store.remove_anchor("t", 1000, 5));
}

#[test]
fn removal_that_changes_nothing_leaves_the_time_of_modification() {
    let mut store = OffsetManager::new();
    store.set_anchor_offset("t", 1000, 50, 11);
    store.remove_anchor("t", 9, 99);
    let snapshot = store.snapshot();
    assert_eq!(snapshot.tracks.get("t").unwrap().last_modified, 11);
    store.remove_anchor("t", 1000, 99);
    let snapshot = store.snapshot();
    assert_eq!(snapshot.tracks.get("t").unwrap().last_modified, 99);
}

#[test]
fn reset_drops_the_record_of_one_track_only() {
    let mut store = OffsetManager::new();
    store.set_global_offset("a", 10, 1);
    store.set_anchor_offset("a", 100, 20, 1);
    store.set_global_offset("b", 30, 1);
    store.reset_track_offsets("a");
    assert_eq!(store.get_global_offset("a"), 0);
    assert!(store.get_track_anchors("a").is_empty());
    assert_eq!(store.get_offset_for_timestamp("a", 500), 0);
    assert_eq!(store.get_global_offset("b"), 30);
}

#[test]
fn clearing_drops_every_record() {
    let mut store = OffsetManager::new();
    store.set_global_offset("a", 10, 1);
    store.set_global_offset("b", 30, 1);
    store.clear_all_offsets();
    assert_eq!(store.get_global_offset("a"), 0);
    assert_eq!(store.get_global_offset("b"), 0);
    assert_eq!(store.snapshot().tracks.len(), 0);
}

#[test]
fn set_global_offset_keeps_anchors_and_names_the_track() {
    let mut store = OffsetManager::new();
    store.set_anchor_offset("t", 100, 20, 1);
    store.set_global_offset("t", 33, 2);
    let snapshot = store.snapshot();
    let record = snapshot.tracks.get("t").unwrap();
    assert_eq!(record.track_id, "t");
    assert_eq!(record.global_offset, 33);
    assert_eq!(record.last_modified, 2);
    assert_eq!(record.anchors, vec![anchor(100, 20)]);
    assert_eq!(snapshot.version, 1);
}

#[test]
fn snapshot_loads_into_another_store() {
    let mut store = OffsetManager::new();
    store.set_global_offset("a", 10, 1);
    store.set_anchor_offset("b", 100, 20, 2);
    let snapshot = store.snapshot();
    let records: Vec<TrackOffsetData> =
        (0..snapshot.tracks.len()).map(|i| snapshot.tracks.value_at(i).clone()).collect();
    assert_eq!(snapshot.tracks.key_at(0), "a");
    assert_eq!(snapshot.tracks.key_at(1), "b");
    let mut other = OffsetManager::new();
    other.set_global_offset("gone", 5, 3);
    assert!(other.initialize(Some(records), snapshot.version));
    assert_eq!(other.get_global_offset("a"), 10);
    assert_eq!(other.get_offset_for_timestamp("b", 100), 20);
    assert_eq!(other.get_global_offset("gone"), 0);
}

#[test]
fn resolve_correction_on_plain_lists() {
    let anchors = vec![anchor(1000, 50), anchor(5000, -100)];
    assert_eq!(resolve_correction(&anchors, 0, 500), 0);
    assert_eq!(resolve_correction(&anchors, 0, 1200), 50);
    assert_eq!(resolve_correction(&anchors, 0, 6000), -100);
    assert_eq!(resolve_correction(&Vec::new(), 77, 6000), 77);
}

#[test]
fn insert_and_remove_on_plain_lists() {
    let anchors = vec![anchor(10, 1), anchor(30, 3)];
    assert_eq!(
        insert_anchor(&anchors, anchor(20, 2)),
        vec![anchor(10, 1), anchor(20, 2), anchor(30, 3)]
    );
    assert_eq!(insert_anchor(&anchors, anchor(5, 0)), vec![anchor(5, 0), anchor(10, 1), anchor(30, 3)]);
    assert_eq!(insert_anchor(&anchors, anchor(30, 9)), vec![anchor(10, 1), anchor(30, 9)]);
    assert_eq!(without_anchor(&anchors, 10), vec![anchor(30, 3)]);
    assert_eq!(without_anchor(&anchors, 11), anchors);
}

#[test]
fn adjust_offset_adds_to_the_global_correction() {
    let mut store = OffsetManager::new();
    assert_eq!(store.adjust_offset("t", 150, 1), 150);
    assert_eq!(store.adjust_offset("t", -400, 2), -250);
    assert_eq!(store.get_global_offset("t"), -250);
    assert_eq!(store.snapshot().tracks.get("t").unwrap().last_modified, 2);
    assert_eq!(store.adjust_offset("t", i32::MAX, 3), i32::MAX - 250);
}

#[test]
fn records_are_loaded_under_the_track_they_name() {
    let record = |id: &str, global_offset: i32, anchors: Vec<OffsetAnchor>| TrackOffsetData {
        anchors,
        global_offset,
        track_id: id.to_string(),
        last_modified: 0,
    };
    let mut store = OffsetManager::new();
    store.set_global_offset("old", 1, 1);
    store.load_cache(
        vec![
            record("a", 1, vec![anchor(10, 1), anchor(20, 2)]),
            record("b", 2, Vec::new()),
            record("a", 3, vec![anchor(5, 5)]),
        ],
        4,
    );
    assert_eq!(store.get_global_offset("old"), 0);
    assert_eq!(store.get_global_offset("a"), 3);
    assert_eq!(store.get_track_anchors("a"), vec![anchor(5, 5)]);
    assert_eq!(store.get_global_offset("b"), 2);
    assert_eq!(store.snapshot().version, 4);
}

#[test]
fn anchors_out_of_order_are_put_in_order_on_loading() {
    let record = |id: &str, anchors: Vec<OffsetAnchor>| TrackOffsetData {
        anchors,
        global_offset: 9,
        track_id: id.to_string(),
        last_modified: 0,
    };
    let mut store = OffsetManager::new();
    store.load_cache(
        vec![
            record("c", Vec::new()),
            record(
                "d",
                vec![anchor(5000, -100), anchor(1000, 7), anchor(3000, 3), anchor(1000, 50)],
            ),
        ],
        7,
    );
    assert_eq!(store.get_global_offset("c"), 9);
    assert_eq!(
        store.get_track_anchors("d"),
        vec![anchor(1000, 50), anchor(3000, 3), anchor(5000, -100)]
    );
    assert_eq!(store.get_offset_for_timestamp("d", 500), 9);
    assert_eq!(store.get_offset_for_timestamp("d", 1200), 50);
    assert_eq!(store.get_offset_for_timestamp("d", 6000), -100);
    assert_eq!(store.snapshot().version, 7);
}

#[test]
fn anchors_are_put_in_order_with_the_later_of_two_staying() {
    assert!(put_anchors_in_order(&Vec::new()).is_empty());
    assert_eq!(
        put_anchors_in_order(&vec![anchor(1, 0), anchor(2, 0)]),
        vec![anchor(1, 0), anchor(2, 0)]
    );
    assert_eq!(
        put_anchors_in_order(&vec![anchor(2, 1), anchor(1, 2), anchor(2, 3), anchor(1, 4)]),
        vec![anchor(1, 4), anchor(2, 3)]
    );
    assert_eq!(put_anchors_in_order(&vec![anchor(7, 1), anchor(7, 2)]), vec![anchor(7, 2)]);
}

#[test]
fn order_of_anchors_is_strict() {
    assert!(anchors_in_order(&Vec::new()));
    assert!(anchors_in_order(&vec![anchor(1, 0)]));
    assert!(anchors_in_order(&vec![anchor(1, 0), anchor(2, 0), anchor(9, 0)]));
    assert!(!anchors_in_order(&vec![anchor(1, 0), anchor(1, 0)]));
    assert!(!anchors_in_order(&vec![anchor(1, 0), anchor(3, 0), anchor(2, 0)]));
}

#[test]
fn store_starts_from_what_was_saved() {
    let record = |id: &str, anchors: Vec<OffsetAnchor>| TrackOffsetData {
        anchors,
        global_offset: 4,
        track_id: id.to_string(),
        last_modified: 0,
    };
    let mut store = OffsetManager::new();
    assert!(!store.initialize(None, 9));
    assert_eq!(store.snapshot().version, 1);
    assert!(store.initialize(Some(vec![record("a", vec![anchor(2, 0), anchor(1, 0)])]), 9));
    assert_eq!(store.get_global_offset("a"), 4);
    assert_eq!(store.get_track_anchors("a"), vec![anchor(1, 0), anchor(2, 0)]);
    assert_eq!(store.snapshot().version, 9);
    assert!(store.initialize(Some(Vec::new()), 2));
    assert_eq!(store.get_global_offset("a"), 0);
    assert!(!store.initialize(None, 5));
    assert_eq!(store.snapshot().version, 2);
}
