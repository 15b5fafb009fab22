use legend::clock::current_timestamp;
use legend::recency::{clamp_score, feature_age, recalculate_recency_scores, recalculate_recency_scores_at, HALF_LIFE_SECONDS};
use legend::types::{Feature, LegendState, SCORE_MAX, SCORE_MIN};

fn decay(age: i64) -> u64 {
    let decay_rate = 0.693147 / (HALF_LIFE_SECONDS as f64);
    (-decay_rate * age as f64).exp().to_bits()
}

fn score(state: &LegendState, id: &str) -> f64 {
    f64::from_bits(state.find_feature(id).unwrap().recency_score)
}

#[test]
fn test_recency_decay() {
    let mut state = LegendState::new("Test".to_string());

    let mut old_feature = Feature::new(
        "old".to_string(),
        "Old Feature".to_string(),
        "test".to_string(),
        "An old feature".to_string(),
    );
    old_feature.last_updated = current_timestamp() - (30 * 24 * 60 * 60);
    state.add_feature(old_feature);

    let new_feature = Feature::new(
        "new".to_string(),
        "New Feature".to_string(),
        "test".to_string(),
        "A new feature".to_string(),
    );
    state.add_feature(new_feature);

    recalculate_recency_scores(&mut state, decay);

    let old_score = score(&state, "old");
    let new_score = score(&state, "new");

    assert!(new_score > old_score, "New features should have higher recency");
    assert!(new_score > 0.9, "Recent feature should be close to 1.0");
    assert!(old_score < 0.1, "30-day-old feature should have low recency");
}

#[test]
fn decay_boundary_values() {
    let now = 10_000_000;
    let mut state = LegendState::new_at("P".to_string(), 0);
    for (id, last_updated) in [
        ("fresh", now),
        ("half", now - HALF_LIFE_SECONDS),
        ("ancient", now - 1000 * HALF_LIFE_SECONDS),
        ("future", now + 3 * HALF_LIFE_SECONDS),
    ] {
        let mut feature = Feature::new_at(id.to_string(), id.to_string(), "d".to_string(), "x".to_string(), 0);
        feature.last_updated = last_updated;
        state.features.push(feature);
    }
    recalculate_recency_scores_at(&mut state, now, decay);
    assert_eq!(score(&state, "fresh"), 1.0);
    assert!((score(&state, "half") - 0.5).abs() < 1e-3);
    assert_eq!(score(&state, "ancient"), 0.01);
    assert_eq!(score(&state, "future"), 1.0);
    assert_eq!(state.features[0].last_updated, now);
    assert_eq!(state.last_updated, 0);
}

#[test]
fn later_update_never_scores_lower() {
    let now = 5_000_000;
    let mut state = LegendState::new_at("P".to_string(), 0);
    let stamps = [now, now - 1, now - 3600, now - 86_400, now - HALF_LIFE_SECONDS, now - 40 * 86_400, 0, -now];
    for (i, stamp) in stamps.iter().enumerate() {
        let mut feature = Feature::new_at(format!("f{}", i), "n".to_string(), "d".to_string(), "x".to_string(), 0);
        feature.last_updated = *stamp;
        feature.recency_score = SCORE_MIN;
        state.features.push(feature);
    }
    recalculate_recency_scores_at(&mut state, now, decay);
    for pair in state.features.windows(2) {
        assert!(pair[0].last_updated > pair[1].last_updated);
        assert!(pair[0].recency_score >= pair[1].recency_score);
        assert!(f64::from_bits(pair[0].recency_score) >= f64::from_bits(pair[1].recency_score));
    }
    for feature in &state.features {
        assert!(SCORE_MIN <= feature.recency_score && feature.recency_score <= SCORE_MAX);
    }
}

#[test]
fn rescoring_forgets_the_earlier_score() {
    let mut state = LegendState::new_at("P".to_string(), 0);
    let mut feature = Feature::new_at("a".to_string(), "n".to_string(), "d".to_string(), "x".to_string(), 0);
    feature.recency_score = 0.25f64.to_bits();
    state.features.push(feature);
    recalculate_recency_scores_at(&mut state, 0, |_age| 0.75f64.to_bits());
    assert_eq!(score(&state, "a"), 0.75);
    recalculate_recency_scores_at(&mut state, 0, |age| age as u64);
    assert_eq!(state.features[0].recency_score, SCORE_MIN);
}

#[test]
fn clamp_score_keeps_the_range() {
    assert_eq!(clamp_score(0), SCORE_MIN);
    assert_eq!(clamp_score(SCORE_MIN - 1), SCORE_MIN);
    assert_eq!(clamp_score(SCORE_MIN), SCORE_MIN);
    assert_eq!(clamp_score(0.5f64.to_bits()), 0.5f64.to_bits());
    assert_eq!(clamp_score(SCORE_MAX), SCORE_MAX);
    assert_eq!(clamp_score(SCORE_MAX + 1), SCORE_MAX);
    assert_eq!(clamp_score(u64::MAX), SCORE_MAX);
    assert_eq!(f64::from_bits(clamp_score(0.001f64.to_bits())), 0.01);
    assert_eq!(f64::from_bits(clamp_score(7.5f64.to_bits())), 1.0);
}

#[test]
fn feature_age_is_the_difference_within_range() {
    assert_eq!(feature_age(100, 40), 60);
    assert_eq!(feature_age(40, 100), -60);
    assert_eq!(feature_age(0, 0), 0);
    assert_eq!(feature_age(i64::MAX, -1), i64::MAX);
    assert_eq!(feature_age(i64::MAX, i64::MIN), i64::MAX);
    assert_eq!(feature_age(i64::MIN, 1), i64::MIN);
    assert_eq!(feature_age(-2, i64::MAX), i64::MIN);
    assert_eq!(feature_age(-1, i64::MAX), i64::MIN);
    assert_eq!(feature_age(0, i64::MIN + 1), i64::MAX);
    assert_eq!(HALF_LIFE_SECONDS, 7 * 24 * 60 * 60);
}
