use stellar_router::cardinality_limit::{LabelCardinalityLimiter, DEFAULT_MAX_CARDINALITY, OTHER_BUCKET};

#[test]
fn test_under_cap_passes_through() {
    let mut limiter = LabelCardinalityLimiter::new(5);
    let result = limiter.map_label("test_metric", "route_a");
    assert_eq!(result, "route_a");
}

#[test]
fn test_same_label_repeated_is_free() {
    let mut limiter = LabelCardinalityLimiter::new(3);
    for _ in 0..100 {
        let result = limiter.map_label("test_metric", "route_a");
        assert_eq!(result, "route_a");
    }
}

#[test]
fn test_at_cap_redirects_to_other() {
    let mut limiter = LabelCardinalityLimiter::new(2);
    assert_eq!(limiter.map_label("m", "a"), "a");
    assert_eq!(limiter.map_label("m", "b"), "b");
    assert_eq!(limiter.map_label("m", "c"), OTHER_BUCKET);
    assert_eq!(limiter.map_label("m", "d"), OTHER_BUCKET);
}

#[test]
fn test_zero_cap_everything_goes_to_other() {
    let mut limiter = LabelCardinalityLimiter::new(0);
    assert_eq!(limiter.map_label("m", "a"), OTHER_BUCKET);
    assert_eq!(limiter.map_label("m", "b"), OTHER_BUCKET);
}

#[test]
fn test_independent_metrics() {
    let mut limiter = LabelCardinalityLimiter::new(2);
    assert_eq!(limiter.map_label("m1", "a"), "a");
    assert_eq!(limiter.map_label("m2", "b"), "b");
    assert_eq!(limiter.map_label("m1", "c"), "c");
    assert_eq!(limiter.map_label("m2", "d"), "d");
    assert_eq!(limiter.map_label("m1", "e"), OTHER_BUCKET);
    assert_eq!(limiter.map_label("m2", "f"), OTHER_BUCKET);
}

#[test]
fn test_tracked_count() {
    let mut limiter = LabelCardinalityLimiter::new(10);
    assert_eq!(limiter.tracked_count("m"), 0);
    limiter.map_label("m", "a");
    limiter.map_label("m", "b");
    assert_eq!(limiter.tracked_count("m"), 2);
}

#[test]
fn test_reset() {
    let mut limiter = LabelCardinalityLimiter::new(1);
    limiter.map_label("m", "a");
    assert_eq!(limiter.tracked_count("m"), 1);
    limiter.reset("m");
    assert_eq!(limiter.tracked_count("m"), 0);
    assert_eq!(limiter.map_label("m", "b"), "b");
}

#[test]
fn test_reset_all() {
    let mut limiter = LabelCardinalityLimiter::new(10);
    limiter.map_label("m1", "a");
    limiter.map_label("m2", "b");
    limiter.reset_all();
    assert_eq!(limiter.tracked_count("m1"), 0);
    assert_eq!(limiter.tracked_count("m2"), 0);
}

#[test]
fn test_composite_label_under_cap() {
    let mut limiter = LabelCardinalityLimiter::new(5);
    let result = limiter.map_composite_label("test", &["contract_id", "oracle"]);
    assert_eq!(result, vec!["contract_id", "oracle"]);
}

#[test]
fn test_composite_label_overflow_replaces_tail() {
    let mut limiter = LabelCardinalityLimiter::new(2);
    limiter.map_composite_label("m", &["cid", "route1"]);
    limiter.map_composite_label("m", &["cid", "route2"]);
    let result = limiter.map_composite_label("m", &["cid", "route3"]);
    assert_eq!(result, vec!["cid", OTHER_BUCKET]);
}

#[test]
fn test_composite_label_overflow_reuses_other() {
    let mut limiter = LabelCardinalityLimiter::new(1);
    limiter.map_composite_label("m", &["cid", "route1"]);
    let r1 = limiter.map_composite_label("m", &["cid", "route2"]);
    let r2 = limiter.map_composite_label("m", &["cid", "route3"]);
    assert_eq!(r1, vec!["cid", OTHER_BUCKET]);
    assert_eq!(r2, vec!["cid", OTHER_BUCKET]);
}

#[test]
fn test_max_cardinality_accessor() {
    let limiter = LabelCardinalityLimiter::new(42);
    assert_eq!(limiter.max_cardinality(), 42);
}

#[test]
fn composite_tails_are_tracked_apart_from_plain_labels() {
    let mut limiter = LabelCardinalityLimiter::new(DEFAULT_MAX_CARDINALITY);
    limiter.map_composite_label("m", &["cid", "route1"]);
    assert_eq!(limiter.tracked_count("m"), 0);
    assert_eq!(limiter.tracked_count("m:tail"), 1);
}

#[test]
fn composite_label_edge_cases() {
    let mut limiter = LabelCardinalityLimiter::new(0);
    assert_eq!(limiter.map_composite_label("m", &["a", "b", "c"]), vec!["a", "b", OTHER_BUCKET]);
    assert!(limiter.map_composite_label("m", &[]).is_empty());
    let mut limiter = LabelCardinalityLimiter::new(1);
    assert!(limiter.map_composite_label("m", &[]).is_empty());
    assert_eq!(limiter.tracked_count("m:tail"), 1);
    assert_eq!(limiter.map_composite_label("m", &["only"]), vec![OTHER_BUCKET]);
}
