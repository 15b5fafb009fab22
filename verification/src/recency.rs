use crate::clock::current_timestamp;
use crate::types::{ids_of, FeatureView, LegendState, LegendStateView, SCORE_MAX, SCORE_MIN};
use vstd::prelude::*;

verus! {

/// Seconds in the seven-day half-life of the recency score.
pub const HALF_LIFE_SECONDS: i64 = 604800;

/// The age in seconds of a feature last updated at `last_updated`, seen from
/// `now`. It is negative for a feature dated in the future.
pub open spec fn age_between(now: i64, last_updated: i64) -> int {
    now - last_updated
}

/// An age brought into the range of `i64`. Ages that far out lie a long
/// way past the point where the score has reached its floor or ceiling.
pub open spec fn bounded_age(age: int) -> i64 {
    if age < i64::MIN {
        i64::MIN
    } else if age > i64::MAX {
        i64::MAX
    } else {
        age as i64
    }
}

/// A raw score brought into `[0.01, 1.0]`.
pub open spec fn clamped(raw: u64) -> u64 {
    if raw < SCORE_MIN {
        SCORE_MIN
    } else if raw > SCORE_MAX {
        SCORE_MAX
    } else {
        raw
    }
}

/// `feature` with its recency score replaced by `raw`, clamped.
pub open spec fn rescored(feature: FeatureView, raw: u64) -> FeatureView {
    FeatureView { recency_score: clamped(raw), ..feature }
}

/// The age in seconds of a feature last updated at `last_updated`, seen from
/// `now`, brought into the range of `i64`.
pub fn feature_age(now: i64, last_updated: i64) -> (age: i64)
    ensures
        age == bounded_age(age_between(now, last_updated)),
{
    match now.checked_sub(last_updated) {
        Some(age) => age,
        None => if last_updated < 0 {
            i64::MAX
        } else {
            i64::MIN
        },
    }
}

/// Brings a raw score into `[0.01, 1.0]`: anything below the floor becomes
/// the floor, anything above the ceiling the ceiling.
pub fn clamp_score(raw: u64) -> (score: u64)
    ensures
        score == clamped(raw),
        SCORE_MIN <= score <= SCORE_MAX,
{
    if raw < SCORE_MIN {
        SCORE_MIN
    } else if raw > SCORE_MAX {
        SCORE_MAX
    } else {
        raw
    }
}

/// Whether `after` is `before` rescored at `now` under the curve `decay`:
/// the same feature but for its score, which is what `decay` gave for the
/// feature's age, clamped.
pub open spec fn rescored_under<F: Fn(i64) -> u64>(
    decay: F,
    before: FeatureView,
    after: FeatureView,
    now: i64,
) -> bool {
    exists|raw: u64|
        #[trigger] call_ensures(decay, (bounded_age(age_between(now, before.last_updated)),), raw)
            && after == rescored(before, raw)
}

/// What a rescoring of `before` at `now` under the curve `decay` leaves:
/// every feature as it was but for its score, which is what `decay` gave
/// for the feature's age, clamped; and nothing else in the state changed.
pub open spec fn rescoring<F: Fn(i64) -> u64>(
    decay: F,
    before: LegendStateView,
    after: LegendStateView,
    now: i64,
) -> bool {
    &&& after.project_name == before.project_name
    &&& after.created_at == before.created_at
    &&& after.last_updated == before.last_updated
    &&& after.features.len() == before.features.len()
    &&& forall|i: int|
        0 <= i < before.features.len() ==> #[trigger] rescored_under(
            decay,
            before.features[i],
            after.features[i],
            now,
        )
}

/// Recomputes the recency score of every feature of `state`, not only of
/// those lately touched, as seen from `now`.
///
/// `decay` is the decay curve: it is handed the age of each feature in
/// seconds, once, in order, and what it returns is clamped into
/// `[0.01, 1.0]` and stored. Nothing else in the state changes, and no
/// earlier score enters the new one.
pub fn recalculate_recency_scores_at<F: Fn(i64) -> u64>(state: &mut LegendState, now: i64, decay: F)
    requires
        forall|age: i64| call_requires(decay, (age,)),
    ensures
        rescoring(decay, old(state)@, final(state)@, now),
{
    let ghost before = state@.features;
    let mut i: usize = 0;
    while i < state.features.len()
        invariant
            i <= state.features.len(),
            before == old(state)@.features,
            forall|age: i64| call_requires(decay, (age,)),
            state.project_name == old(state).project_name,
            state.created_at == old(state).created_at,
            state.last_updated == old(state).last_updated,
            state.features.len() == before.len(),
            forall|j: int| i <= j < before.len() ==> #[trigger] state@.features[j] == before[j],
            forall|j: int|
                0 <= j < i ==> #[trigger] rescored_under(decay, before[j], state@.features[j], now),
        decreases state.features.len() - i,
    {
        let ghost held = state@.features;
        assert(held[i as int] == before[i as int]);
        let age = feature_age(now, state.features[i].last_updated);
        let raw = decay(age);
        let score = clamp_score(raw);
        state.features[i].recency_score = score;
        proof {
            let after = state@.features;
            assert(after[i as int] == rescored(before[i as int], raw));
            assert(rescored_under(decay, before[i as int], after[i as int], now));
            assert forall|j: int| 0 <= j < before.len() && j != i implies after[j] == held[j] by {}
            assert forall|j: int| 0 <= j < i implies #[trigger] rescored_under(
                decay,
                before[j],
                after[j],
                now,
            ) by {
                assert(rescored_under(decay, before[j], held[j], now));
            }
        }
        i += 1;
    }
}

/// Recomputes the recency score of every feature of `state` as seen from
/// the moment the system clock shows; see
/// [`recalculate_recency_scores_at`].
pub fn recalculate_recency_scores<F: Fn(i64) -> u64>(state: &mut LegendState, decay: F)
    requires
        forall|age: i64| call_requires(decay, (age,)),
    ensures
        exists|now: i64| now >= 0 && #[trigger] rescoring(decay, old(state)@, final(state)@, now),
{
    let now = current_timestamp();
    recalculate_recency_scores_at(state, now, decay);
    assert(rescoring(decay, old(state)@, state@, now));
}

/// Clamping keeps the order of raw scores: of two features the one whose
/// raw score is not smaller ends with a score that is not smaller.
pub proof fn lemma_clamp_keeps_order(lower: u64, higher: u64)
    requires
        lower <= higher,
    ensures
        clamped(lower) <= clamped(higher),
{
}

/// Every score lies in `[0.01, 1.0]`: a raw score however small ends at
/// the floor, never below it, and one however large at the ceiling.
pub proof fn lemma_clamp_bounds(raw: u64)
    ensures
        SCORE_MIN <= clamped(raw) <= SCORE_MAX,
        raw <= SCORE_MIN ==> clamped(raw) == SCORE_MIN,
        raw >= SCORE_MAX ==> clamped(raw) == SCORE_MAX,
        SCORE_MIN <= raw <= SCORE_MAX ==> clamped(raw) == raw,
{
}

/// A decay curve that never rises with age: whatever it may return for an
/// age is at least whatever it may return for a greater one.
pub open spec fn never_rises<F: Fn(i64) -> u64>(decay: F) -> bool {
    forall|younger: i64, older: i64, high: u64, low: u64|
        younger <= older && #[trigger] call_ensures(decay, (younger,), high) && #[trigger] call_ensures(
            decay,
            (older,),
            low,
        ) ==> low <= high
}

/// After a rescoring every score lies in `[0.01, 1.0]`, and a state that
/// was well formed still is.
pub proof fn lemma_rescoring_keeps_wf<F: Fn(i64) -> u64>(
    decay: F,
    before: LegendStateView,
    after: LegendStateView,
    now: i64,
)
    requires
        rescoring(decay, before, after, now),
    ensures
        forall|i: int|
            0 <= i < after.features.len() ==> SCORE_MIN <= (#[trigger] after.features[i]).recency_score
                <= SCORE_MAX,
        before.wf() ==> after.wf(),
{
    assert forall|i: int| 0 <= i < after.features.len() implies SCORE_MIN <= (
    #[trigger] after.features[i]).recency_score <= SCORE_MAX && after.features[i].id
        == before.features[i].id && (before.features[i].wf() ==> after.features[i].wf()) by {
        assert(rescored_under(decay, before.features[i], after.features[i], now));
    }
    if before.wf() {
        assert(ids_of(after.features) =~= ids_of(before.features));
        assert forall|i: int| 0 <= i < after.features.len() implies (
        #[trigger] after.features[i]).wf() by {
            assert(before.features[i].wf());
        }
    }
}

/// A rescoring changes scores only: every feature keeps its id and every
/// other field, in its place.
pub proof fn lemma_rescoring_changes_scores_only<F: Fn(i64) -> u64>(
    decay: F,
    before: LegendStateView,
    after: LegendStateView,
    now: i64,
)
    requires
        rescoring(decay, before, after, now),
    ensures
        ids_of(after.features) == ids_of(before.features),
        forall|i: int|
            0 <= i < before.features.len() ==> (#[trigger] after.features[i]) == (FeatureView {
                recency_score: after.features[i].recency_score,
                ..before.features[i]
            }),
{
    assert forall|i: int| 0 <= i < before.features.len() implies (#[trigger] after.features[i])
        == (FeatureView {
        recency_score: after.features[i].recency_score,
        ..before.features[i]
    }) by {
        assert(rescored_under(decay, before.features[i], after.features[i], now));
    }
    assert(ids_of(after.features) =~= ids_of(before.features));
}

/// A decay curve that is full for what is fresh: whatever it may return
/// for an age of zero or less is at least the highest score.
pub open spec fn full_when_fresh<F: Fn(i64) -> u64>(decay: F) -> bool {
    forall|age: i64, raw: u64| age <= 0 && #[trigger] call_ensures(decay, (age,), raw) ==> raw >= SCORE_MAX
}

/// Under a curve that is full for what is fresh, a feature updated at `now`
/// or dated later has exactly the highest score after a rescoring at `now`.
pub proof fn lemma_fresh_feature_scores_full<F: Fn(i64) -> u64>(
    decay: F,
    before: LegendStateView,
    after: LegendStateView,
    now: i64,
    at: int,
)
    requires
        rescoring(decay, before, after, now),
        full_when_fresh(decay),
        0 <= at < before.features.len(),
        before.features[at].last_updated >= now,
    ensures
        after.features[at].recency_score == SCORE_MAX,
{
    assert(rescored_under(decay, before.features[at], after.features[at], now));
}

/// Under a curve that never rises with age, two features with the same
/// `last_updated` have the same score after a rescoring, whatever their
/// scores were.
pub proof fn lemma_equal_updates_score_equal<F: Fn(i64) -> u64>(
    decay: F,
    before: LegendStateView,
    after: LegendStateView,
    now: i64,
    one: int,
    other: int,
)
    requires
        rescoring(decay, before, after, now),
        never_rises(decay),
        0 <= one < before.features.len(),
        0 <= other < before.features.len(),
        before.features[one].last_updated == before.features[other].last_updated,
    ensures
        after.features[one].recency_score == after.features[other].recency_score,
{
    lemma_later_update_scores_higher(decay, before, after, now, one, other);
    lemma_later_update_scores_higher(decay, before, after, now, other, one);
}

/// Under a curve that never rises with age, of two features rescored at
/// one shared `now` the one updated later has the score that is not
/// smaller.
pub proof fn lemma_later_update_scores_higher<F: Fn(i64) -> u64>(
    decay: F,
    before: LegendStateView,
    after: LegendStateView,
    now: i64,
    later: int,
    earlier: int,
)
    requires
        rescoring(decay, before, after, now),
        never_rises(decay),
        0 <= later < before.features.len(),
        0 <= earlier < before.features.len(),
        before.features[later].last_updated >= before.features[earlier].last_updated,
    ensures
        after.features[later].recency_score >= after.features[earlier].recency_score,
{
    assert(rescored_under(decay, before.features[later], after.features[later], now));
    assert(rescored_under(decay, before.features[earlier], after.features[earlier], now));
    let young = bounded_age(age_between(now, before.features[later].last_updated));
    let old_age = bounded_age(age_between(now, before.features[earlier].last_updated));
    let high = choose|raw: u64| #[trigger]
        call_ensures(decay, (young,), raw) && after.features[later] == rescored(
            before.features[later],
            raw,
        );
    let low = choose|raw: u64| #[trigger]
        call_ensures(decay, (old_age,), raw) && after.features[earlier] == rescored(
            before.features[earlier],
            raw,
        );
    assert(young <= old_age);
    assert(low <= high);
}

} // verus!
