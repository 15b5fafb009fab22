use crate::clock::current_timestamp;
use crate::error::{Failure, LegendError, RequiredField};
use crate::recency::{
    lemma_rescoring_changes_scores_only, lemma_rescoring_keeps_wf, recalculate_recency_scores_at,
    rescoring,
};
use crate::types::{
    feature_views, first_position, ids_of, ids_unique, last_position, lemma_first_position,
    lemma_last_position, lemma_last_position_push, lemma_last_position_update, optional_text,
    texts, Feature, FeatureStatus, FeatureView, LegendState, LegendStateView, SCORE_MAX,
};
use vstd::hash_map::StringHashMap;
use vstd::hash_set::StringHashSet;
use vstd::prelude::*;

verus! {

/// A partial change to one feature: the id it is keyed by, and for every
/// other field either a new value or nothing.
#[derive(Debug, Clone)]
pub struct FeatureUpdate {
    pub id: String,
    pub name: Option<String>,
    pub domain: Option<String>,
    pub description: Option<String>,
    pub status: Option<FeatureStatus>,
    pub tags: Option<Vec<String>>,
    pub context: Option<String>,
    pub files_involved: Option<Vec<String>>,
}

/// An update batch: partial changes in the order they apply, and the ids of
/// the features to remove afterwards.
#[derive(Debug, Clone)]
pub struct Update {
    pub features: Vec<FeatureUpdate>,
    pub remove_features: Vec<String>,
}

/// The mathematical content of a [`FeatureUpdate`].
pub struct FeatureUpdateView {
    pub id: Seq<char>,
    pub name: Option<Seq<char>>,
    pub domain: Option<Seq<char>>,
    pub description: Option<Seq<char>>,
    pub status: Option<FeatureStatus>,
    pub tags: Option<Seq<Seq<char>>>,
    pub context: Option<Seq<char>>,
    pub files_involved: Option<Seq<Seq<char>>>,
}

/// The mathematical content of an [`Update`].
pub struct UpdateView {
    pub features: Seq<FeatureUpdateView>,
    pub remove_features: Seq<Seq<char>>,
}

/// The texts of an optional list of strings.
pub open spec fn optional_texts(list: Option<Vec<String>>) -> Option<Seq<Seq<char>>> {
    match list {
        Some(items) => Some(texts(items@)),
        None => None,
    }
}

/// The contents of a list of changes, in order.
pub open spec fn change_views(list: Seq<FeatureUpdate>) -> Seq<FeatureUpdateView> {
    list.map_values(|c: FeatureUpdate| c@)
}

impl View for FeatureUpdate {
    type V = FeatureUpdateView;

    open spec fn view(&self) -> FeatureUpdateView {
        FeatureUpdateView {
            id: self.id@,
            name: optional_text(self.name),
            domain: optional_text(self.domain),
            description: optional_text(self.description),
            status: self.status,
            tags: optional_texts(self.tags),
            context: optional_text(self.context),
            files_involved: optional_texts(self.files_involved),
        }
    }
}

impl View for Update {
    type V = UpdateView;

    open spec fn view(&self) -> UpdateView {
        UpdateView {
            features: change_views(self.features@),
            remove_features: texts(self.remove_features@),
        }
    }
}

/// The value a field takes under a change: the one given, else the one kept.
pub open spec fn given_or<T>(given: Option<T>, kept: T) -> T {
    match given {
        Some(value) => value,
        None => kept,
    }
}

/// An existing feature after `change` was applied to it at `now`: each field
/// that the change carries is overwritten, every other keeps its value, and
/// `last_updated` becomes `now` whether or not anything changed. The id, the
/// creation time and the recency score are never touched.
pub open spec fn merged(feature: FeatureView, change: FeatureUpdateView, now: i64) -> FeatureView {
    FeatureView {
        id: feature.id,
        name: given_or(change.name, feature.name),
        domain: given_or(change.domain, feature.domain),
        tags: given_or(change.tags, feature.tags),
        status: given_or(change.status, feature.status),
        description: given_or(change.description, feature.description),
        context: if change.context is Some {
            change.context
        } else {
            feature.context
        },
        files_involved: given_or(change.files_involved, feature.files_involved),
        created_at: feature.created_at,
        last_updated: now,
        recency_score: feature.recency_score,
    }
}

/// The first of name, domain and description that `change` lacks, if it
/// lacks one. A change that lacks none can create a feature.
pub open spec fn missing_field(change: FeatureUpdateView) -> Option<RequiredField> {
    if change.name is None {
        Some(RequiredField::Name)
    } else if change.domain is None {
        Some(RequiredField::Domain)
    } else if change.description is None {
        Some(RequiredField::Description)
    } else {
        None
    }
}

/// The feature that `change` creates at `now`: what the change carries, and
/// for the rest a pending status, no tags, no context, no files and the
/// highest recency score.
pub open spec fn created(change: FeatureUpdateView, now: i64) -> FeatureView {
    FeatureView {
        id: change.id,
        name: change.name->0,
        domain: change.domain->0,
        tags: given_or(change.tags, Seq::empty()),
        status: given_or(change.status, FeatureStatus::Pending),
        description: change.description->0,
        context: change.context,
        files_involved: given_or(change.files_involved, Seq::empty()),
        created_at: now,
        last_updated: now,
        recency_score: SCORE_MAX,
    }
}

/// What fails where a change cannot create its feature.
pub open spec fn rejection(change: FeatureUpdateView) -> Failure {
    Failure::MissingRequiredField { id: change.id, field: missing_field(change)->0 }
}

/// Applies `update` to `feature` at `now`. Only the fields that the update
/// carries are overwritten; a context that is given, the empty one too,
/// replaces the old one, and one that is absent leaves it.
pub fn apply_update(feature: &mut Feature, update: FeatureUpdate, now: i64)
    ensures
        final(feature)@ == merged(old(feature)@, update@, now),
{
    let FeatureUpdate { id: _, name, domain, description, status, tags, context, files_involved } =
        update;
    match name {
        Some(name) => {
            feature.name = name;
        },
        None => {},
    }
    match domain {
        Some(domain) => {
            feature.domain = domain;
        },
        None => {},
    }
    match description {
        Some(description) => {
            feature.description = description;
        },
        None => {},
    }
    match status {
        Some(status) => {
            feature.status = status;
        },
        None => {},
    }
    match tags {
        Some(tags) => {
            feature.tags = tags;
        },
        None => {},
    }
    if context.is_some() {
        feature.context = context;
    }
    match files_involved {
        Some(files) => {
            feature.files_involved = files;
        },
        None => {},
    }
    feature.last_updated = now;
}

/// Builds the feature that `update` creates at `now`, or reports the first
/// of name, domain and description that it lacks.
pub fn create_feature_from_update(update: FeatureUpdate, now: i64) -> (result: Result<
    Feature,
    LegendError,
>)
    ensures
        match result {
            Ok(feature) => missing_field(update@) is None && feature@ == created(update@, now),
            Err(error) => missing_field(update@) is Some && error@.failure() == rejection(update@),
        },
{
    let FeatureUpdate { id, name, domain, description, status, tags, context, files_involved } =
        update;
    let name = match name {
        Some(name) => name,
        None => {
            return Err(LegendError::MissingRequiredField { id, field: RequiredField::Name });
        },
    };
    let domain = match domain {
        Some(domain) => domain,
        None => {
            return Err(LegendError::MissingRequiredField { id, field: RequiredField::Domain });
        },
    };
    let description = match description {
        Some(description) => description,
        None => {
            return Err(
                LegendError::MissingRequiredField { id, field: RequiredField::Description },
            );
        },
    };
    let status = match status {
        Some(status) => status,
        None => FeatureStatus::Pending,
    };
    let tags = match tags {
        Some(tags) => tags,
        None => Vec::new(),
    };
    let files_involved = match files_involved {
        Some(files) => files,
        None => Vec::new(),
    };
    let feature = Feature {
        id,
        name,
        domain,
        tags,
        status,
        description,
        context,
        files_involved,
        created_at: now,
        last_updated: now,
        recency_score: SCORE_MAX,
    };
    proof {
        if update.tags is None {
            assert(texts(feature.tags@) =~= Seq::empty());
        }
        if update.files_involved is None {
            assert(texts(feature.files_involved@) =~= Seq::empty());
        }
    }
    Ok(feature)
}

/// Whether `change` is turned down by `features`: no feature carries its
/// id, so it would create one, and it lacks a required field.
pub open spec fn is_rejected(features: Seq<FeatureView>, change: FeatureUpdateView) -> bool {
    last_position(features, change.id) is None && missing_field(change) is Some
}

/// The features after one change: where a feature carries the id (the last
/// such, if ids repeat) it is merged in place, else a feature is created
/// at the end.
pub open spec fn apply_change(
    features: Seq<FeatureView>,
    change: FeatureUpdateView,
    now: i64,
) -> Seq<FeatureView> {
    match last_position(features, change.id) {
        Some(at) => features.update(at, merged(features[at], change, now)),
        None => features.push(created(change, now)),
    }
}

/// The features after `changes` were applied one after the other.
pub open spec fn apply_changes(
    features: Seq<FeatureView>,
    changes: Seq<FeatureUpdateView>,
    now: i64,
) -> Seq<FeatureView>
    decreases changes.len(),
{
    if changes.len() == 0 {
        features
    } else {
        apply_change(apply_changes(features, changes.drop_last(), now), changes.last(), now)
    }
}

/// The position of the first change that is turned down by the features as
/// the changes before it left them, if there is one.
pub open spec fn first_rejected(
    features: Seq<FeatureView>,
    changes: Seq<FeatureUpdateView>,
    now: i64,
) -> Option<int>
    decreases changes.len(),
{
    if changes.len() == 0 {
        None
    } else {
        match first_rejected(features, changes.drop_last(), now) {
            Some(k) => Some(k),
            None => if is_rejected(
                apply_changes(features, changes.drop_last(), now),
                changes.last(),
            ) {
                Some(changes.len() - 1)
            } else {
                None
            },
        }
    }
}

/// The features whose id is not among `ids`, in their order.
pub open spec fn without_ids(features: Seq<FeatureView>, ids: Seq<Seq<char>>) -> Seq<FeatureView> {
    features.filter(|f: FeatureView| !ids.contains(f.id))
}

/// The state after a batch that is not turned down, before the scores are
/// recomputed: every change applied in order, then every listed id removed,
/// then the state's own `last_updated` set to `now`.
pub open spec fn merged_state(state: LegendStateView, update: UpdateView, now: i64) -> LegendStateView {
    LegendStateView {
        features: without_ids(
            apply_changes(state.features, update.features, now),
            update.remove_features,
        ),
        last_updated: now,
        ..state
    }
}

/// The state in memory when the change at `k` was turned down: the changes
/// before it applied, nothing removed, the state's timestamps as they were.
pub open spec fn stopped_state(
    state: LegendStateView,
    update: UpdateView,
    now: i64,
    k: int,
) -> LegendStateView {
    LegendStateView { features: apply_changes(state.features, update.features.take(k), now), ..state }
}

/// The content of what a merge returns: nothing, or what failed.
pub open spec fn outcome_view(result: Result<(), LegendError>) -> Result<(), Failure> {
    match result {
        Ok(_) => Ok(()),
        Err(error) => Err(error@.failure()),
    }
}

/// What applying the batch `update` to `before` at `now` leaves and
/// returns, before any score is recomputed.
///
/// Where no change is turned down it returns `Ok` and leaves the merged
/// state. Else it returns `MissingRequiredField` for the first change that
/// is turned down, with that change's id and the first field it lacks, and
/// leaves the state as the changes before that one made it.
pub open spec fn batch_outcome(
    before: LegendStateView,
    update: UpdateView,
    now: i64,
    after: LegendStateView,
    result: Result<(), Failure>,
) -> bool {
    match first_rejected(before.features, update.features, now) {
        None => result is Ok && after == merged_state(before, update, now),
        Some(k) => result == Err::<(), Failure>(rejection(update.features[k])) && after
            == stopped_state(before, update, now, k),
    }
}

/// A rejection found among the first `m` changes is the rejection of the
/// whole batch.
pub proof fn lemma_first_rejected_stays(
    features: Seq<FeatureView>,
    changes: Seq<FeatureUpdateView>,
    now: i64,
    m: int,
    k: int,
)
    requires
        0 <= m <= changes.len(),
        first_rejected(features, changes.take(m), now) == Some(k),
    ensures
        first_rejected(features, changes, now) == Some(k),
    decreases changes.len() - m,
{
    if m == changes.len() {
        assert(changes.take(m) =~= changes);
    } else {
        assert(changes.take(m + 1).drop_last() =~= changes.take(m));
        lemma_first_rejected_stays(features, changes, now, m + 1, k);
    }
}

/// One more change: what `apply_changes` and `first_rejected` say of the
/// first `m + 1` changes, in terms of the first `m`.
pub proof fn lemma_changes_step(
    features: Seq<FeatureView>,
    changes: Seq<FeatureUpdateView>,
    now: i64,
    m: int,
)
    requires
        0 <= m < changes.len(),
    ensures
        apply_changes(features, changes.take(m + 1), now) == apply_change(
            apply_changes(features, changes.take(m), now),
            changes[m],
            now,
        ),
        first_rejected(features, changes.take(m + 1), now) == match first_rejected(
            features,
            changes.take(m),
            now,
        ) {
            Some(k) => Some(k),
            None => if is_rejected(apply_changes(features, changes.take(m), now), changes[m]) {
                Some(m)
            } else {
                None
            },
        },
{
    assert(changes.take(m + 1).drop_last() =~= changes.take(m));
    assert(changes.take(m + 1).last() == changes[m]);
}

/// What the id index holds for `features`: for every id the last position
/// that carries it, and nothing for an id that no feature carries.
pub open spec fn index_matches(index: Map<Seq<char>, usize>, features: Seq<FeatureView>) -> bool {
    forall|id: Seq<char>|
        match #[trigger] last_position(features, id) {
            Some(at) => index.contains_key(id) && index[id] as int == at,
            None => !index.contains_key(id),
        }
}

/// Builds the id index of `features`, once, for the lookups of one batch.
fn build_index(features: &Vec<Feature>) -> (index: StringHashMap<usize>)
    ensures
        index_matches(index@, feature_views(features@)),
{
    let mut index: StringHashMap<usize> = StringHashMap::new();
    let ghost all = feature_views(features@);
    let mut i: usize = 0;
    proof {
        assert(all.take(0) =~= Seq::empty());
        assert forall|id: Seq<char>| #[trigger] last_position(all.take(0), id) is None by {
            lemma_last_position(all.take(0), id);
        }
    }
    while i < features.len()
        invariant
            i <= features.len(),
            all == feature_views(features@),
            index_matches(index@, all.take(i as int)),
        decreases features.len() - i,
    {
        let ghost before = index@;
        index.insert(features[i].id.clone(), i);
        proof {
            assert(all.take(i + 1) =~= all.take(i as int).push(all[i as int]));
            assert forall|id: Seq<char>|
                match #[trigger] last_position(all.take(i + 1), id) {
                    Some(at) => index@.contains_key(id) && index@[id] as int == at,
                    None => !index@.contains_key(id),
                } by {
                lemma_last_position_push(all.take(i as int), all[i as int], id);
                assert(last_position(all.take(i as int), id) is None ==> !before.contains_key(id));
            }
        }
        i += 1;
    }
    proof {
        assert(all.take(features.len() as int) =~= all);
    }
    index
}

/// Keeps the features whose id is not among `ids`, in their order.
fn remove_listed(features: &mut Vec<Feature>, ids: Vec<String>)
    ensures
        feature_views(final(features)@) == without_ids(feature_views(old(features)@), texts(ids@)),
{
    let ghost listed = texts(ids@);
    let ghost all = feature_views(features@);
    let mut remove_set = StringHashSet::new();
    for id in iter: ids
        invariant
            iter.seq() == ids@,
            listed == texts(ids@),
            forall|text: Seq<char>|
                remove_set@.contains(text) <==> listed.take(iter.index() as int).contains(text),
    {
        let ghost seen = listed.take(iter.index() as int);
        proof {
            assert(listed[iter.index() as int] == id@);
            assert(listed.take(iter.index() + 1) =~= seen.push(id@));
            assert forall|text: Seq<char>|
                (text == id@ || seen.contains(text)) <==> seen.push(id@).contains(text) by {
                if seen.contains(text) {
                    let j = choose|j: int| 0 <= j < seen.len() && seen[j] == text;
                    assert(seen.push(id@)[j] == text);
                }
                if text == id@ {
                    assert(seen.push(id@)[seen.len() as int] == text);
                }
            }
        }
        remove_set.insert(id);
    }
    proof {
        assert(listed.take(ids@.len() as int) =~= listed);
    }
    let mut everything: Vec<Feature> = Vec::new();
    std::mem::swap(features, &mut everything);
    proof {
        assert(all.take(0) =~= Seq::empty());
        reveal(Seq::filter);
        assert(feature_views(features@) =~= without_ids(all.take(0), listed));
    }
    for feature in iter: everything
        invariant
            iter.seq() == everything@,
            all == feature_views(everything@),
            forall|text: Seq<char>| remove_set@.contains(text) <==> listed.contains(text),
            feature_views(features@) == without_ids(all.take(iter.index() as int), listed),
    {
        proof {
            let done = all.take(iter.index() as int);
            assert(all.take(iter.index() + 1) =~= done.push(feature@));
            done.lemma_filter_push(feature@, |f: FeatureView| !listed.contains(f.id));
        }
        let ghost kept = features@;
        if !remove_set.contains(feature.id.as_str()) {
            features.push(feature);
            proof {
                assert(feature_views(features@) =~= feature_views(kept).push(feature@));
            }
        }
    }
    proof {
        assert(all.take(everything@.len() as int) =~= all);
    }
}

/// Applies the changes and removals of the batch `update` to `state` at
/// `now`, and recomputes no score: the first steps of a merge.
///
/// The changes apply in batch order: one whose id a feature carries is
/// merged into that feature, any other creates a feature at the end and
/// needs name, domain and description for it. Then every feature whose id
/// is listed for removal is dropped, so an id that is both changed and
/// listed ends up removed. Then the state's `last_updated` becomes `now`.
///
/// The first change that cannot create its feature stops the batch with
/// `MissingRequiredField`: the changes before it stay applied in memory,
/// nothing is removed and the state's timestamps stay as they were.
pub fn apply_batch_at(state: &mut LegendState, update: Update, now: i64) -> (result: Result<
    (),
    LegendError,
>)
    ensures
        batch_outcome(old(state)@, update@, now, final(state)@, outcome_view(result)),
{
    let ghost before = state@;
    let ghost changes = update@.features;
    let mut index = build_index(&state.features);
    let Update { features: change_list, remove_features } = update;
    proof {
        assert(changes.take(0) =~= Seq::empty());
    }
    for change in iter: change_list
        invariant
            iter.seq() == change_list@,
            changes == change_views(change_list@),
            changes == update@.features,
            before == old(state)@,
            state.project_name == old(state).project_name,
            state.created_at == old(state).created_at,
            state.last_updated == old(state).last_updated,
            first_rejected(before.features, changes.take(iter.index() as int), now) is None,
            feature_views(state.features@) == apply_changes(
                before.features,
                changes.take(iter.index() as int),
                now,
            ),
            index_matches(index@, feature_views(state.features@)),
    {
        let ghost m = iter.index() as int;
        let ghost current = feature_views(state.features@);
        let ghost step = change@;
        proof {
            assert(changes[m] == step);
            lemma_changes_step(before.features, changes, now, m);
            lemma_last_position(current, step.id);
        }
        let found = match index.get(change.id.as_str()) {
            Some(at) => Some(*at),
            None => None,
        };
        match found {
            Some(at) => {
                assert(last_position(current, step.id) == Some(at as int));
                let ghost held = state.features@;
                apply_update(&mut state.features[at], change, now);
                proof {
                    let merged_one = merged(current[at as int], step, now);
                    assert(state.features@ == held.update(at as int, state.features@[at as int]));
                    assert(feature_views(state.features@) =~= current.update(at as int, merged_one));
                    assert forall|id: Seq<char>|
                        match #[trigger] last_position(feature_views(state.features@), id) {
                            Some(p) => index@.contains_key(id) && index@[id] as int == p,
                            None => !index@.contains_key(id),
                        } by {
                        lemma_last_position_update(current, at as int, merged_one, id);
                        assert(last_position(current, id) is None ==> !index@.contains_key(id));
                    }
                }
            },
            None => {
                assert(last_position(current, step.id) is None);
                match create_feature_from_update(change, now) {
                    Ok(feature) => {
                        let ghost held = index@;
                        let position = state.features.len();
                        index.insert(feature.id.clone(), position);
                        state.features.push(feature);
                        proof {
                            assert(feature_views(state.features@) =~= current.push(feature@));
                            assert forall|id: Seq<char>|
                                match #[trigger] last_position(feature_views(state.features@), id) {
                                    Some(p) => index@.contains_key(id) && index@[id] as int == p,
                                    None => !index@.contains_key(id),
                                } by {
                                lemma_last_position_push(current, feature@, id);
                                assert(last_position(current, id) is None ==> !held.contains_key(id));
                            }
                        }
                    },
                    Err(error) => {
                        proof {
                            lemma_first_rejected_stays(before.features, changes, now, m + 1, m);
                        }
                        return Err(error);
                    },
                }
            },
        }
    }
    proof {
        assert(changes.take(change_list@.len() as int) =~= changes);
    }
    remove_listed(&mut state.features, remove_features);
    state.last_updated = now;
    Ok(())
}

/// What a merge of `update` into `before` at `now` under the decay curve
/// `decay` leaves and returns.
///
/// Where no change is turned down it returns `Ok` and leaves the merged
/// state with the score of every feature recomputed, of those that the
/// batch did not touch too. Else it returns `MissingRequiredField` for the
/// first change that is turned down, with that change's id and the first
/// field it lacks, and leaves the state as the changes before that one made
/// it, with no score recomputed.
pub open spec fn merge_outcome<F: Fn(i64) -> u64>(
    decay: F,
    before: LegendStateView,
    update: UpdateView,
    now: i64,
    after: LegendStateView,
    result: Result<(), Failure>,
) -> bool {
    match first_rejected(before.features, update.features, now) {
        None => result is Ok && rescoring(decay, merged_state(before, update, now), after, now),
        Some(k) => result == Err::<(), Failure>(rejection(update.features[k])) && after
            == stopped_state(before, update, now, k),
    }
}

/// Merges the batch `update` into `state` at `now`: applies the changes in
/// batch order, drops the features listed for removal, sets the state's
/// `last_updated`, and then recomputes the recency score of every feature
/// of the result under the curve `decay`. What it leaves is ready to be
/// saved.
///
/// A batch that is turned down leaves the state as [`apply_batch_at`]
/// does, and no score is recomputed.
pub fn merge_updates_at<F: Fn(i64) -> u64>(
    state: &mut LegendState,
    update: Update,
    now: i64,
    decay: F,
) -> (result: Result<(), LegendError>)
    requires
        forall|age: i64| call_requires(decay, (age,)),
    ensures
        merge_outcome(decay, old(state)@, update@, now, final(state)@, outcome_view(result)),
{
    match apply_batch_at(state, update, now) {
        Ok(_) => {
            recalculate_recency_scores_at(state, now, decay);
            Ok(())
        },
        Err(error) => Err(error),
    }
}

/// Merges the batch `update` into `state` at the moment the system clock
/// shows; see [`merge_updates_at`].
pub fn merge_updates<F: Fn(i64) -> u64>(state: &mut LegendState, update: Update, decay: F) -> (result:
    Result<(), LegendError>)
    requires
        forall|age: i64| call_requires(decay, (age,)),
    ensures
        exists|now: i64|
            now >= 0 && #[trigger] merge_outcome(
                decay,
                old(state)@,
                update@,
                now,
                final(state)@,
                outcome_view(result),
            ),
{
    let now = current_timestamp();
    let result = merge_updates_at(state, update, now, decay);
    assert(merge_outcome(decay, old(state)@, update@, now, state@, outcome_view(result)));
    result
}

/// A change leaves every field it does not carry exactly as it was, and
/// never touches the id, the creation time or the recency score; what it
/// does carry it puts in place, and `last_updated` becomes `now`.
pub proof fn lemma_merge_keeps_absent_fields(feature: FeatureView, change: FeatureUpdateView, now: i64)
    ensures
        merged(feature, change, now).id == feature.id,
        merged(feature, change, now).created_at == feature.created_at,
        merged(feature, change, now).recency_score == feature.recency_score,
        merged(feature, change, now).last_updated == now,
        change.name is None ==> merged(feature, change, now).name == feature.name,
        change.domain is None ==> merged(feature, change, now).domain == feature.domain,
        change.description is None ==> merged(feature, change, now).description
            == feature.description,
        change.status is None ==> merged(feature, change, now).status == feature.status,
        change.tags is None ==> merged(feature, change, now).tags == feature.tags,
        change.context is None ==> merged(feature, change, now).context == feature.context,
        change.files_involved is None ==> merged(feature, change, now).files_involved
            == feature.files_involved,
        change.name is Some ==> merged(feature, change, now).name == change.name->0,
        change.domain is Some ==> merged(feature, change, now).domain == change.domain->0,
        change.description is Some ==> merged(feature, change, now).description
            == change.description->0,
        change.status is Some ==> merged(feature, change, now).status == change.status->0,
        change.tags is Some ==> merged(feature, change, now).tags == change.tags->0,
        change.context is Some ==> merged(feature, change, now).context == change.context,
        change.files_involved is Some ==> merged(feature, change, now).files_involved
            == change.files_involved->0,
{
}

/// A change whose id a feature carries is never turned down, whatever it
/// lacks; it changes that one feature and leaves every other, and the
/// number of features, as they were.
pub proof fn lemma_change_touches_one(
    features: Seq<FeatureView>,
    change: FeatureUpdateView,
    now: i64,
    at: int,
)
    requires
        last_position(features, change.id) == Some(at),
    ensures
        !is_rejected(features, change),
        0 <= at < features.len(),
        apply_change(features, change, now).len() == features.len(),
        apply_change(features, change, now)[at] == merged(features[at], change, now),
        forall|j: int|
            0 <= j < features.len() && j != at ==> #[trigger] apply_change(features, change, now)[j]
                == features[j],
{
    lemma_last_position(features, change.id);
}

/// A change whose id no feature carries is turned down exactly when it
/// lacks name, domain or description; else it adds the feature it creates
/// at the end and leaves every other as it was.
pub proof fn lemma_change_creates(features: Seq<FeatureView>, change: FeatureUpdateView, now: i64)
    requires
        last_position(features, change.id) is None,
    ensures
        is_rejected(features, change) <==> (change.name is None || change.domain is None
            || change.description is None),
        apply_change(features, change, now) == features.push(created(change, now)),
{
}

/// Whether a batch is turned down, and where, and the ids that the changes
/// leave, do not depend on the time at which they apply.
pub proof fn lemma_changes_ignore_time(
    features: Seq<FeatureView>,
    changes: Seq<FeatureUpdateView>,
    one: i64,
    other: i64,
)
    ensures
        ids_of(apply_changes(features, changes, one)) == ids_of(
            apply_changes(features, changes, other),
        ),
        first_rejected(features, changes, one) == first_rejected(features, changes, other),
    decreases changes.len(),
{
    if changes.len() > 0 {
        lemma_changes_ignore_time(features, changes.drop_last(), one, other);
        let change = changes.last();
        let left = apply_changes(features, changes.drop_last(), one);
        let right = apply_changes(features, changes.drop_last(), other);
        lemma_last_position(left, change.id);
        lemma_last_position(right, change.id);
        match last_position(left, change.id) {
            Some(at) => {
                assert(ids_of(left.update(at, merged(left[at], change, one))) =~= ids_of(left));
                assert(ids_of(right.update(at, merged(right[at], change, other))) =~= ids_of(right));
            },
            None => {
                assert(ids_of(left.push(created(change, one))) =~= ids_of(left).push(change.id));
                assert(ids_of(right.push(created(change, other))) =~= ids_of(right).push(change.id));
            },
        }
    }
}

/// Removal wins: after a batch that is not turned down no feature carries
/// an id that the batch lists for removal, whether or not the batch also
/// changed or created a feature of that id.
pub proof fn lemma_removal_wins(state: LegendStateView, update: UpdateView, now: i64, id: Seq<char>)
    requires
        update.remove_features.contains(id),
    ensures
        !ids_of(merged_state(state, update, now).features).contains(id),
        first_position(merged_state(state, update, now).features, id) is None,
{
    let changed = apply_changes(state.features, update.features, now);
    let kept = without_ids(changed, update.remove_features);
    let keep = |f: FeatureView| !update.remove_features.contains(f.id);
    assert forall|j: int| 0 <= j < kept.len() implies (#[trigger] kept[j]).id != id by {
        changed.lemma_filter_pred(keep, j);
    }
    assert forall|j: int| 0 <= j < ids_of(kept).len() implies ids_of(kept)[j] != id by {
        assert(ids_of(kept)[j] == kept[j].id);
    }
    lemma_first_position(kept, id);
}

/// A feature whose id is not listed for removal survives the removal, and
/// nothing appears that was not there.
pub proof fn lemma_removal_keeps_unlisted(features: Seq<FeatureView>, ids: Seq<Seq<char>>)
    ensures
        forall|j: int|
            0 <= j < features.len() && !ids.contains((#[trigger] features[j]).id) ==> without_ids(
                features,
                ids,
            ).contains(features[j]),
        forall|j: int|
            0 <= j < without_ids(features, ids).len() ==> features.contains(
                #[trigger] without_ids(features, ids)[j],
            ),
        ids.len() == 0 ==> without_ids(features, ids) == features,
    decreases features.len(),
{
    let keep = |f: FeatureView| !ids.contains(f.id);
    let kept = features.filter(keep);
    assert forall|j: int| 0 <= j < features.len() && !ids.contains(
        (#[trigger] features[j]).id,
    ) implies kept.contains(features[j]) by {
        features.lemma_filter_contains(keep, j);
    }
    assert forall|j: int| 0 <= j < kept.len() implies features.contains(#[trigger] kept[j]) by {
        features.lemma_filter_contains_rev(keep, kept[j]);
    }
    if ids.len() == 0 {
        reveal(Seq::filter);
        if features.len() > 0 {
            lemma_removal_keeps_unlisted(features.drop_last(), ids);
            assert(features.drop_last().push(features.last()) =~= features);
        }
    }
}

/// Removal keeps ids unique.
pub proof fn lemma_removal_keeps_unique(features: Seq<FeatureView>, ids: Seq<Seq<char>>)
    requires
        ids_unique(features),
    ensures
        ids_unique(without_ids(features, ids)),
        forall|j: int|
            0 <= j < without_ids(features, ids).len() ==> features.contains(
                #[trigger] without_ids(features, ids)[j],
            ),
    decreases features.len(),
{
    reveal(Seq::filter);
    lemma_removal_keeps_unlisted(features, ids);
    if features.len() > 0 {
        let front = features.drop_last();
        let last = features.last();
        assert(ids_of(front) =~= ids_of(features).drop_last());
        lemma_removal_keeps_unique(front, ids);
        let kept_front = without_ids(front, ids);
        if !ids.contains(last.id) {
            let kept = kept_front.push(last);
            assert(without_ids(features, ids) == kept);
            assert forall|i: int, j: int|
                0 <= i < ids_of(kept).len() && 0 <= j < ids_of(kept).len() && i != j implies ids_of(
                kept,
            )[i] != ids_of(kept)[j] by {
                let n = kept_front.len() as int;
                if i < n && j < n {
                    assert(ids_of(kept_front)[i] != ids_of(kept_front)[j]);
                } else {
                    let inner = if i < n {
                        i
                    } else {
                        j
                    };
                    assert(front.contains(kept_front[inner]));
                    let at = choose|at: int| 0 <= at < front.len() && front[at] == kept_front[inner];
                    assert(ids_of(features)[at] != ids_of(features)[features.len() - 1]);
                }
            }
        }
    }
}

/// A state whose timestamps are all at or before `now`.
pub open spec fn not_after(state: LegendStateView, now: i64) -> bool {
    &&& state.last_updated <= now
    &&& forall|i: int|
        0 <= i < state.features.len() ==> (#[trigger] state.features[i]).last_updated <= now
}

/// One change keeps the features well formed, their ids unique and their
/// timestamps at or before `now`, provided `now` is not before any of them.
pub proof fn lemma_change_keeps_wf(features: Seq<FeatureView>, change: FeatureUpdateView, now: i64)
    requires
        ids_unique(features),
        forall|i: int| 0 <= i < features.len() ==> (#[trigger] features[i]).wf(),
        forall|i: int| 0 <= i < features.len() ==> (#[trigger] features[i]).last_updated <= now,
    ensures
        ids_unique(apply_change(features, change, now)),
        forall|i: int|
            0 <= i < apply_change(features, change, now).len() ==> (#[trigger] apply_change(
                features,
                change,
                now,
            )[i]).wf(),
        forall|i: int|
            0 <= i < apply_change(features, change, now).len() ==> (#[trigger] apply_change(
                features,
                change,
                now,
            )[i]).last_updated <= now,
{
    let after = apply_change(features, change, now);
    lemma_last_position(features, change.id);
    match last_position(features, change.id) {
        Some(at) => {
            assert(ids_of(after) =~= ids_of(features));
            assert forall|i: int| 0 <= i < after.len() implies (#[trigger] after[i]).wf()
                && after[i].last_updated <= now by {
                if i != at {
                    assert(after[i] == features[i]);
                } else {
                    assert(features[at].wf());
                    assert(features[at].last_updated <= now);
                }
            }
        },
        None => {
            assert(ids_of(after) =~= ids_of(features).push(change.id));
            assert forall|i: int, j: int|
                0 <= i < ids_of(after).len() && 0 <= j < ids_of(after).len() && i != j implies ids_of(
                after,
            )[i] != ids_of(after)[j] by {
                let n = features.len() as int;
                if i < n && j < n {
                    assert(ids_of(features)[i] != ids_of(features)[j]);
                } else if i < n {
                    assert(features[i].id != change.id);
                } else {
                    assert(features[j].id != change.id);
                }
            }
            assert forall|i: int| 0 <= i < after.len() implies (#[trigger] after[i]).wf()
                && after[i].last_updated <= now by {
                if i < features.len() {
                    assert(after[i] == features[i]);
                }
            }
        },
    }
}

/// A run of changes keeps the features well formed, their ids unique and
/// their timestamps at or before `now`, provided `now` is not before any of
/// them.
pub proof fn lemma_changes_keep_wf(
    features: Seq<FeatureView>,
    changes: Seq<FeatureUpdateView>,
    now: i64,
)
    requires
        ids_unique(features),
        forall|i: int| 0 <= i < features.len() ==> (#[trigger] features[i]).wf(),
        forall|i: int| 0 <= i < features.len() ==> (#[trigger] features[i]).last_updated <= now,
    ensures
        ids_unique(apply_changes(features, changes, now)),
        forall|i: int|
            0 <= i < apply_changes(features, changes, now).len() ==> (#[trigger] apply_changes(
                features,
                changes,
                now,
            )[i]).wf(),
        forall|i: int|
            0 <= i < apply_changes(features, changes, now).len() ==> (#[trigger] apply_changes(
                features,
                changes,
                now,
            )[i]).last_updated <= now,
    decreases changes.len(),
{
    if changes.len() > 0 {
        lemma_changes_keep_wf(features, changes.drop_last(), now);
        lemma_change_keeps_wf(
            apply_changes(features, changes.drop_last(), now),
            changes.last(),
            now,
        );
    }
}

/// A merge keeps the state well formed: ids stay unique, no feature and not
/// the state itself is updated before it was created, and every score stays
/// in range, provided `now` is not before any timestamp in the state.
pub proof fn lemma_merge_keeps_wf(state: LegendStateView, update: UpdateView, now: i64)
    requires
        state.wf(),
        not_after(state, now),
    ensures
        merged_state(state, update, now).wf(),
        not_after(merged_state(state, update, now), now),
        forall|k: int|
            0 <= k <= update.features.len() ==> (#[trigger] stopped_state(state, update, now, k)).wf(),
{
    lemma_changes_keep_wf(state.features, update.features, now);
    let changed = apply_changes(state.features, update.features, now);
    lemma_removal_keeps_unique(changed, update.remove_features);
    let kept = without_ids(changed, update.remove_features);
    assert forall|i: int| 0 <= i < kept.len() implies (#[trigger] kept[i]).wf()
        && kept[i].last_updated <= now by {
        assert(changed.contains(kept[i]));
        let at = choose|at: int| 0 <= at < changed.len() && changed[at] == kept[i];
        assert(changed[at].wf());
    }
    assert forall|k: int| 0 <= k <= update.features.len() implies (#[trigger] stopped_state(
        state,
        update,
        now,
        k,
    )).wf() by {
        lemma_changes_keep_wf(state.features, update.features.take(k), now);
    }
}

/// Removal wins in what a merge leaves: after a merge that returns `Ok`,
/// scores recomputed, no feature carries an id that the batch lists for
/// removal.
pub proof fn lemma_removal_wins_in_merge<F: Fn(i64) -> u64>(
    decay: F,
    before: LegendStateView,
    update: UpdateView,
    now: i64,
    after: LegendStateView,
    id: Seq<char>,
)
    requires
        merge_outcome(decay, before, update, now, after, Ok(())),
        update.remove_features.contains(id),
    ensures
        !ids_of(after.features).contains(id),
        first_position(after.features, id) is None,
{
    let merged_one = merged_state(before, update, now);
    lemma_removal_wins(before, update, now, id);
    lemma_rescoring_changes_scores_only(decay, merged_one, after, now);
    lemma_first_position(after.features, id);
    match first_position(after.features, id) {
        Some(at) => {
            assert(ids_of(after.features)[at] == id);
        },
        None => {},
    }
}

/// A merge that returns `Ok` keeps the state well formed, with every score
/// in `[0.01, 1.0]`, provided `now` is not before any timestamp in the
/// state.
pub proof fn lemma_merge_leaves_wf<F: Fn(i64) -> u64>(
    decay: F,
    before: LegendStateView,
    update: UpdateView,
    now: i64,
    after: LegendStateView,
)
    requires
        merge_outcome(decay, before, update, now, after, Ok(())),
        before.wf(),
        not_after(before, now),
    ensures
        after.wf(),
        not_after(after, now),
{
    let merged_one = merged_state(before, update, now);
    lemma_merge_keeps_wf(before, update, now);
    lemma_rescoring_keeps_wf(decay, merged_one, after, now);
    lemma_rescoring_changes_scores_only(decay, merged_one, after, now);
    assert forall|i: int| 0 <= i < after.features.len() implies (#[trigger] after.features[i]).last_updated
        <= now by {
        assert(merged_one.features[i].last_updated <= now);
    }
}

} // verus!
