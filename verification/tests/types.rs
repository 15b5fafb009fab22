use legend::clock::timestamp_from;
use legend::types::{Feature, FeatureStatus, LegendState, SCORE_MAX, SCORE_MIN};

#[test]
fn test_feature_creation() {
    let feature = Feature::new(
        "auth".to_string(),
        "Authentication".to_string(),
        "security".to_string(),
        "User authentication system with JWT tokens".to_string(),
    );

    assert_eq!(feature.id, "auth");
    assert_eq!(feature.name, "Authentication");
    assert_eq!(feature.domain, "security");
    assert_eq!(feature.description, "User authentication system with JWT tokens");
    assert_eq!(feature.status, FeatureStatus::Pending);
    assert!(feature.tags.is_empty());
    assert!(feature.context.is_none());
    assert!(feature.files_involved.is_empty());
    assert!(!feature.is_complete());
}

#[test]
fn test_feature_mark_complete() {
    let mut feature = Feature::new(
        "auth".to_string(),
        "Authentication".to_string(),
        "security".to_string(),
        "User authentication system".to_string(),
    );

    feature.mark_complete();

    assert_eq!(feature.status, FeatureStatus::Complete);
    assert!(feature.is_complete());
}

#[test]
fn test_legend_state() {
    let mut state = LegendState::new("My Project".to_string());

    assert_eq!(state.project_name, "My Project");
    assert!(state.features.is_empty());

    let feature = Feature::new(
        "auth".to_string(),
        "Authentication".to_string(),
        "security".to_string(),
        "User authentication system".to_string(),
    );
    state.add_feature(feature);

    assert_eq!(state.features.len(), 1);

    let found = state.find_feature("auth");
    assert!(found.is_some());
    assert_eq!(found.unwrap().name, "Authentication");
    assert_eq!(found.unwrap().domain, "security");

    let not_found = state.find_feature("nonexistent");
    assert!(not_found.is_none());
}

#[test]
fn new_feature_starts_at_the_highest_score() {
    let feature = Feature::new_at("a".to_string(), "A".to_string(), "d".to_string(), "x".to_string(), 42);
    assert_eq!(feature.created_at, 42);
    assert_eq!(feature.last_updated, 42);
    assert_eq!(feature.recency_score, SCORE_MAX);
    assert_eq!(f64::from_bits(feature.recency_score), 1.0);
}

#[test]
fn score_bounds_are_the_bits_of_their_values() {
    assert_eq!(SCORE_MAX, 1.0f64.to_bits());
    assert_eq!(SCORE_MIN, 0.01f64.to_bits());
    assert!(SCORE_MIN < SCORE_MAX);
}

#[test]
fn mark_complete_at_sets_status_and_time_together() {
    let mut feature = Feature::new_at("a".to_string(), "A".to_string(), "d".to_string(), "x".to_string(), 10);
    feature.mark_complete_at(25);
    assert_eq!(feature.status, FeatureStatus::Complete);
    assert_eq!(feature.last_updated, 25);
    assert_eq!(feature.created_at, 10);
    assert_eq!(feature.name, "A");
}

#[test]
fn touch_at_moves_only_last_updated() {
    let mut feature = Feature::new_at("a".to_string(), "A".to_string(), "d".to_string(), "x".to_string(), 10);
    feature.touch_at(11);
    assert_eq!(feature.last_updated, 11);
    assert_eq!(feature.created_at, 10);
    assert_eq!(feature.status, FeatureStatus::Pending);

    let mut state = LegendState::new_at("P".to_string(), 5);
    state.touch_at(9);
    assert_eq!(state.created_at, 5);
    assert_eq!(state.last_updated, 9);
}

#[test]
fn add_feature_at_appends_and_touches() {
    let mut state = LegendState::new_at("P".to_string(), 5);
    state.add_feature_at(
        Feature::new_at("a".to_string(), "A".to_string(), "d".to_string(), "x".to_string(), 6),
        7,
    );
    state.add_feature_at(
        Feature::new_at("b".to_string(), "B".to_string(), "d".to_string(), "y".to_string(), 8),
        9,
    );
    assert_eq!(state.features.len(), 2);
    assert_eq!(state.features[0].id, "a");
    assert_eq!(state.features[1].id, "b");
    assert_eq!(state.last_updated, 9);
    assert_eq!(state.created_at, 5);
}

#[test]
fn find_feature_takes_the_first_of_equal_ids() {
    let mut state = LegendState::new_at("P".to_string(), 0);
    state.add_feature_at(
        Feature::new_at("a".to_string(), "first".to_string(), "d".to_string(), "x".to_string(), 1),
        1,
    );
    state.add_feature_at(
        Feature::new_at("a".to_string(), "second".to_string(), "d".to_string(), "x".to_string(), 2),
        2,
    );
    assert_eq!(state.first_index("a"), Some(0));
    assert_eq!(state.first_index("b"), None);
    assert_eq!(state.find_feature("a").unwrap().name, "first");
}

#[test]
fn find_feature_mut_changes_the_feature_in_place() {
    let mut state = LegendState::new_at("P".to_string(), 0);
    state.add_feature_at(
        Feature::new_at("a".to_string(), "A".to_string(), "d".to_string(), "x".to_string(), 1),
        1,
    );
    state.add_feature_at(
        Feature::new_at("b".to_string(), "B".to_string(), "d".to_string(), "y".to_string(), 2),
        2,
    );
    state.find_feature_mut("b").unwrap().mark_complete_at(30);
    assert!(state.find_feature_mut("zzz").is_none());
    assert_eq!(state.features[0].status, FeatureStatus::Pending);
    assert_eq!(state.features[1].status, FeatureStatus::Complete);
    assert_eq!(state.features[1].last_updated, 30);
    assert_eq!(state.last_updated, 2);
}

#[test]
fn clock_reads_after_the_epoch() {
    let now = legend::clock::current_timestamp();
    assert!(now > 1_600_000_000);
    let state = LegendState::new("P".to_string());
    assert!(state.created_at >= now);
    assert_eq!(state.created_at, state.last_updated);
}

#[test]
fn timestamp_from_keeps_readings_in_range() {
    assert_eq!(timestamp_from(None), 0);
    assert_eq!(timestamp_from(Some(0)), 0);
    assert_eq!(timestamp_from(Some(1_700_000_000)), 1_700_000_000);
    assert_eq!(timestamp_from(Some(i64::MAX as u64)), i64::MAX);
    assert_eq!(timestamp_from(Some(i64::MAX as u64 + 1)), i64::MAX);
    assert_eq!(timestamp_from(Some(u64::MAX)), i64::MAX);
}

#[test]
fn touch_records_a_reading_of_the_clock() {
    let mut feature = Feature::new_at("a".to_string(), "A".to_string(), "d".to_string(), "x".to_string(), -50);
    feature.last_updated = -40;
    feature.touch();
    assert!(feature.last_updated > 1_600_000_000);
    assert_eq!(feature.created_at, -50);
    assert_eq!(feature.name, "A");

    let mut state = LegendState::new_at("P".to_string(), -50);
    state.touch();
    assert!(state.last_updated > 1_600_000_000);
    assert_eq!(state.created_at, -50);
    assert_eq!(state.project_name, "P");
}
