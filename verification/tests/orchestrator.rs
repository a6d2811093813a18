use zm_aidect::classmap::ClassMap;
use zm_aidect::coalescing::EventTracker;
use zm_aidect::detection::{BoundingBox, Detection};
use zm_aidect::orchestrator::{analyze, describe, filter_detections, score_of};

fn det(class_id: i32, confidence: u32, x: i32, y: i32, w: i32, h: i32) -> Detection {
    Detection {
        class_id,
        confidence,
        bounding_box: BoundingBox { x, y, width: w, height: h },
    }
}

fn configured_classes() -> ClassMap {
    let mut classes = ClassMap::new();
    classes.insert(1, String::from("Human"));
    classes.insert(3, String::from("Car"));
    classes.insert(15, String::from("Bird"));
    classes.insert(16, String::from("Cat"));
    classes.insert(17, String::from("Dog"));
    classes
}

#[test]
fn unknown_class_is_filtered_before_the_tracker() {
    let classes = configured_classes();
    let dets = vec![det(99, 950, 10, 10, 20, 20)];
    let kept = filter_detections(&dets, &classes, 0);
    assert!(kept.is_empty());
    assert!(analyze(&dets, &classes, 0).is_none());
}

#[test]
fn min_area_filters_small_boxes() {
    let classes = configured_classes();
    let small = det(1, 900, 0, 0, 5, 5);
    let large = det(1, 400, 0, 0, 20, 20);
    let dets = vec![small, large];
    let kept = filter_detections(&dets, &classes, 100);
    assert_eq!(kept.len(), 1);
    assert_eq!(kept[0], large);
    assert_eq!(analyze(&dets, &classes, 100), Some(large));
}

#[test]
fn area_at_the_minimum_is_retained() {
    let classes = configured_classes();
    let boundary = det(1, 500, 0, 0, 10, 10);
    let kept = filter_detections(&vec![boundary], &classes, 100);
    assert_eq!(kept.len(), 1);
}

#[test]
fn analyze_picks_best_survivor() {
    let classes = configured_classes();
    let filtered_out = det(99, 990, 0, 0, 50, 50);
    let low = det(1, 300, 0, 0, 10, 10);
    let high = det(3, 800, 5, 5, 10, 10);
    let dets = vec![filtered_out, low, high];
    assert_eq!(analyze(&dets, &classes, 0), Some(high));
}

#[test]
fn score_is_whole_percent() {
    assert_eq!(score_of(&det(1, 900, 0, 0, 5, 5)), 90);
    assert_eq!(score_of(&det(1, 457, 0, 0, 5, 5)), 45);
    assert_eq!(score_of(&det(1, 0, 0, 0, 5, 5)), 0);
    assert_eq!(score_of(&det(1, 1000, 0, 0, 5, 5)), 100);
}

#[test]
fn description_has_exact_format() {
    let classes = configured_classes();
    let region = BoundingBox { x: 0, y: 0, width: 100, height: 100 };
    let d = det(1, 900, 12, 12, 5, 5);
    let text = describe(&classes, &region, &d);
    assert_eq!(text, "Human (90.0%) 5x5 (=25) at 12x12");
}

#[test]
fn description_translates_by_region_origin() {
    let classes = configured_classes();
    let region = BoundingBox { x: 50, y: 60, width: 200, height: 100 };
    let d = det(3, 457, 12, 7, 30, 14);
    let text = describe(&classes, &region, &d);
    assert_eq!(text, "Car (45.7%) 30x14 (=420) at 62x67");
}

#[test]
fn description_handles_negative_full_frame_coordinates() {
    let classes = configured_classes();
    let region = BoundingBox { x: -40, y: 0, width: 100, height: 100 };
    let d = det(17, 80, 10, 3, 7, 9);
    let text = describe(&classes, &region, &d);
    assert_eq!(text, "Dog (8.0%) 7x9 (=63) at -30x3");
}

#[test]
fn idle_clear_after_one_event_reports_the_best_detection() {
    let classes = configured_classes();
    let region = BoundingBox { x: 0, y: 0, width: 100, height: 100 };
    let first = det(1, 400, 10, 10, 5, 5);
    let second = det(1, 900, 12, 12, 5, 5);

    let mut tracker = EventTracker::new();
    for frame in [vec![first], vec![second]] {
        if let Some(best) = analyze(&frame, &classes, 0) {
            assert!(tracker.push_detection(best, 7).is_none());
        }
    }
    // the feed went idle: flush the current event
    let update = tracker.clear().expect("exactly one update for the event");
    assert!(tracker.clear().is_none());
    assert_eq!(update.event_id, 7);
    assert_eq!(update.detection, second);
    let text = describe(&classes, &region, &update.detection);
    assert!(text.contains("90.0%"));
    assert!(text.contains("at 12x12"));
}

#[test]
fn class_map_lookup_and_shadowing() {
    let mut classes = ClassMap::new();
    assert!(!classes.contains(1));
    assert!(classes.get(1).is_none());
    classes.insert(1, String::from("Human"));
    classes.insert(3, String::from("Car"));
    assert!(classes.contains(1));
    assert_eq!(classes.get(3).map(String::as_str), Some("Car"));
    classes.insert(3, String::from("Vehicle"));
    assert_eq!(classes.get(3).map(String::as_str), Some("Vehicle"));
    assert!(!classes.contains(99));
}
