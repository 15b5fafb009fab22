use crate::clock::current_timestamp;
use vstd::prelude::*;

verus! {

/// Bit pattern of the score `1.0`, the largest a recency score can be.
pub const SCORE_MAX: u64 = 0x3FF0_0000_0000_0000;

/// Bit pattern of the score `0.01`, the smallest a recency score can be.
pub const SCORE_MIN: u64 = 0x3F84_7AE1_47AE_147B;

/// Where a feature stands.
#[derive(Debug, Clone, Copy, PartialEq, Eq, Structural)]
pub enum FeatureStatus {
    Pending,
    InProgress,
    Blocked,
    Complete,
}

/// One tracked unit of work.
///
/// `recency_score` holds a value in `[0.01, 1.0]` as the bit pattern of an
/// IEEE-754 double. Within that range the bit patterns, read as unsigned
/// integers, order exactly as the values do.
#[derive(Debug, Clone)]
pub struct Feature {
    pub id: String,
    pub name: String,
    pub domain: String,
    pub tags: Vec<String>,
    pub status: FeatureStatus,
    pub description: String,
    pub context: Option<String>,
    pub files_involved: Vec<String>,
    pub created_at: i64,
    pub last_updated: i64,
    pub recency_score: u64,
}

/// The mathematical content of a [`Feature`].
pub struct FeatureView {
    pub id: Seq<char>,
    pub name: Seq<char>,
    pub domain: Seq<char>,
    pub tags: Seq<Seq<char>>,
    pub status: FeatureStatus,
    pub description: Seq<char>,
    pub context: Option<Seq<char>>,
    pub files_involved: Seq<Seq<char>>,
    pub created_at: i64,
    pub last_updated: i64,
    pub recency_score: u64,
}

/// The texts of a list of strings, in order.
pub open spec fn texts(list: Seq<String>) -> Seq<Seq<char>> {
    list.map_values(|s: String| s@)
}

/// The text of an optional string.
pub open spec fn optional_text(s: Option<String>) -> Option<Seq<char>> {
    match s {
        Some(text) => Some(text@),
        None => None,
    }
}

impl View for Feature {
    type V = FeatureView;

    open spec fn view(&self) -> FeatureView {
        FeatureView {
            id: self.id@,
            name: self.name@,
            domain: self.domain@,
            tags: texts(self.tags@),
            status: self.status,
            description: self.description@,
            context: optional_text(self.context),
            files_involved: texts(self.files_involved@),
            created_at: self.created_at,
            last_updated: self.last_updated,
            recency_score: self.recency_score,
        }
    }
}

impl FeatureView {
    /// A feature is never updated before it was created, and its score lies
    /// in `[0.01, 1.0]`.
    pub open spec fn wf(self) -> bool {
        &&& self.created_at <= self.last_updated
        &&& SCORE_MIN <= self.recency_score <= SCORE_MAX
    }

    /// A feature as it is when first created at `now`.
    pub open spec fn fresh(
        id: Seq<char>,
        name: Seq<char>,
        domain: Seq<char>,
        description: Seq<char>,
        now: i64,
    ) -> FeatureView {
        FeatureView {
            id,
            name,
            domain,
            tags: Seq::empty(),
            status: FeatureStatus::Pending,
            description,
            context: None,
            files_involved: Seq::empty(),
            created_at: now,
            last_updated: now,
            recency_score: SCORE_MAX,
        }
    }
}

impl Feature {
    /// Builds a feature created at `now`: pending, without tags, context or
    /// files, and with the highest recency score.
    pub fn new_at(id: String, name: String, domain: String, description: String, now: i64) -> (feature: Feature)
        ensures
            feature@ == FeatureView::fresh(id@, name@, domain@, description@, now),
            feature@.wf(),
    {
        let feature = Feature {
            id,
            name,
            domain,
            tags: Vec::new(),
            status: FeatureStatus::Pending,
            description,
            context: None,
            files_involved: Vec::new(),
            created_at: now,
            last_updated: now,
            recency_score: SCORE_MAX,
        };
        assert(texts(feature.tags@) =~= Seq::empty());
        assert(texts(feature.files_involved@) =~= Seq::empty());
        feature
    }

    /// Builds a feature created at the moment the system clock shows.
    pub fn new(id: String, name: String, domain: String, description: String) -> (feature: Feature)
        ensures
            feature@ == FeatureView::fresh(id@, name@, domain@, description@, feature.created_at),
            feature@.wf(),
            feature.created_at >= 0,
    {
        Feature::new_at(id, name, domain, description, current_timestamp())
    }

    /// Whether the feature's status is `Complete`.
    pub fn is_complete(&self) -> (complete: bool)
        ensures
            complete == (self.status == FeatureStatus::Complete),
    {
        self.status == FeatureStatus::Complete
    }

    /// Records `now` as the moment of the last change.
    pub fn touch_at(&mut self, now: i64)
        ensures
            final(self)@ == (FeatureView { last_updated: now, ..old(self)@ }),
    {
        self.last_updated = now;
    }

    /// Records the moment the system clock shows as that of the last change.
    pub fn touch(&mut self)
        ensures
            final(self)@ == (FeatureView { last_updated: final(self).last_updated, ..old(self)@ }),
            final(self).last_updated >= 0,
    {
        self.touch_at(current_timestamp());
    }

    /// Sets the status to `Complete` and records `now` as the moment of the
    /// last change, in one step.
    pub fn mark_complete_at(&mut self, now: i64)
        ensures
            final(self)@ == (FeatureView {
                status: FeatureStatus::Complete,
                last_updated: now,
                ..old(self)@
            }),
    {
        self.status = FeatureStatus::Complete;
        self.touch_at(now);
    }

    /// Sets the status to `Complete` and records the moment the system clock
    /// shows as that of the last change, in one step.
    pub fn mark_complete(&mut self)
        ensures
            final(self)@ == (FeatureView {
                status: FeatureStatus::Complete,
                last_updated: final(self).last_updated,
                ..old(self)@
            }),
            final(self).last_updated >= 0,
    {
        self.mark_complete_at(current_timestamp());
    }
}

/// The whole persisted unit: a project's name, its features in insertion
/// order, and the state's own timestamps.
#[derive(Debug, Clone)]
pub struct LegendState {
    pub project_name: String,
    pub features: Vec<Feature>,
    pub created_at: i64,
    pub last_updated: i64,
}

/// The mathematical content of a [`LegendState`].
pub struct LegendStateView {
    pub project_name: Seq<char>,
    pub features: Seq<FeatureView>,
    pub created_at: i64,
    pub last_updated: i64,
}

/// The contents of a list of features, in order.
pub open spec fn feature_views(list: Seq<Feature>) -> Seq<FeatureView> {
    list.map_values(|f: Feature| f@)
}

/// The ids of a list of features, in order.
pub open spec fn ids_of(features: Seq<FeatureView>) -> Seq<Seq<char>> {
    features.map_values(|f: FeatureView| f.id)
}

/// The first position at which `id` occurs among `features`, if any.
pub open spec fn first_position(features: Seq<FeatureView>, id: Seq<char>) -> Option<int> {
    ids_of(features).index_of_first(id)
}

/// The last position at which `id` occurs among `features`, if any.
pub open spec fn last_position(features: Seq<FeatureView>, id: Seq<char>) -> Option<int> {
    ids_of(features).index_of_last(id)
}

/// No id occurs twice among `features`.
pub open spec fn ids_unique(features: Seq<FeatureView>) -> bool {
    ids_of(features).no_duplicates()
}

/// `first_position` is `Some(i)` exactly for the smallest `i` whose feature
/// carries `id`, and `None` exactly when no feature does.
pub proof fn lemma_first_position(features: Seq<FeatureView>, id: Seq<char>)
    ensures
        match first_position(features, id) {
            Some(i) => {
                &&& 0 <= i < features.len()
                &&& features[i].id == id
                &&& forall|j: int| 0 <= j < i ==> features[j].id != id
            },
            None => forall|j: int| 0 <= j < features.len() ==> features[j].id != id,
        },
{
    let ids = ids_of(features);
    ids.index_of_first_ensures(id);
    match ids.index_of_first(id) {
        Some(i) => {
            assert forall|j: int| 0 <= j < i implies features[j].id != id by {
                assert(ids[j] != id);
            }
        },
        None => {
            assert forall|j: int| 0 <= j < features.len() implies features[j].id != id by {
                assert(ids[j] == features[j].id);
            }
        },
    }
}

/// `last_position` is `Some(i)` exactly for the largest `i` whose feature
/// carries `id`, and `None` exactly when no feature does.
pub proof fn lemma_last_position(features: Seq<FeatureView>, id: Seq<char>)
    ensures
        match last_position(features, id) {
            Some(i) => {
                &&& 0 <= i < features.len()
                &&& features[i].id == id
                &&& forall|j: int| i < j < features.len() ==> features[j].id != id
            },
            None => forall|j: int| 0 <= j < features.len() ==> features[j].id != id,
        },
{
    let ids = ids_of(features);
    ids.index_of_last_ensures(id);
    match ids.index_of_last(id) {
        Some(i) => {
            assert forall|j: int| i < j < features.len() implies features[j].id != id by {
                assert(ids[j] != id);
            }
        },
        None => {
            assert forall|j: int| 0 <= j < features.len() implies features[j].id != id by {
                assert(ids[j] == features[j].id);
            }
        },
    }
}

/// The last position of `id` is `i` once `i` carries `id` and nothing after
/// it does.
pub proof fn lemma_last_position_is(features: Seq<FeatureView>, id: Seq<char>, i: int)
    requires
        0 <= i < features.len(),
        features[i].id == id,
        forall|j: int| i < j < features.len() ==> features[j].id != id,
    ensures
        last_position(features, id) == Some(i),
{
    lemma_last_position(features, id);
}

/// An id that no feature carries has no last position.
pub proof fn lemma_last_position_none(features: Seq<FeatureView>, id: Seq<char>)
    requires
        forall|j: int| 0 <= j < features.len() ==> features[j].id != id,
    ensures
        last_position(features, id) is None,
{
    lemma_last_position(features, id);
}

/// Appending a feature makes its own position the last one of its id and
/// leaves the last position of every other id as it was.
pub proof fn lemma_last_position_push(features: Seq<FeatureView>, added: FeatureView, id: Seq<char>)
    ensures
        last_position(features.push(added), id) == if added.id == id {
            Some(features.len() as int)
        } else {
            last_position(features, id)
        },
{
    let grown = features.push(added);
    lemma_last_position(features, id);
    if added.id == id {
        lemma_last_position_is(grown, id, features.len() as int);
    } else {
        match last_position(features, id) {
            Some(i) => {
                assert(grown[i] == features[i]);
                assert forall|j: int| i < j < grown.len() implies grown[j].id != id by {
                    if j < features.len() {
                        assert(grown[j] == features[j]);
                    }
                }
                lemma_last_position_is(grown, id, i);
            },
            None => {
                assert forall|j: int| 0 <= j < grown.len() implies grown[j].id != id by {
                    if j < features.len() {
                        assert(grown[j] == features[j]);
                    }
                }
                lemma_last_position_none(grown, id);
            },
        }
    }
}

/// Replacing a feature by one with the same id moves no last position.
pub proof fn lemma_last_position_update(
    features: Seq<FeatureView>,
    at: int,
    replacement: FeatureView,
    id: Seq<char>,
)
    requires
        0 <= at < features.len(),
        replacement.id == features[at].id,
    ensures
        last_position(features.update(at, replacement), id) == last_position(features, id),
{
    assert(ids_of(features.update(at, replacement)) =~= ids_of(features));
}

/// Where ids are unique, the first and the last position of an id agree.
pub proof fn lemma_unique_position(features: Seq<FeatureView>, id: Seq<char>)
    requires
        ids_unique(features),
    ensures
        first_position(features, id) == last_position(features, id),
{
    lemma_first_position(features, id);
    lemma_last_position(features, id);
    let ids = ids_of(features);
    match (first_position(features, id), last_position(features, id)) {
        (Some(i), Some(j)) => {
            assert(ids[i] == id && ids[j] == id);
        },
        _ => {},
    }
}

impl View for LegendState {
    type V = LegendStateView;

    open spec fn view(&self) -> LegendStateView {
        LegendStateView {
            project_name: self.project_name@,
            features: feature_views(self.features@),
            created_at: self.created_at,
            last_updated: self.last_updated,
        }
    }
}

impl LegendStateView {
    /// Ids are unique, every feature is well formed, and the state is never
    /// updated before it was created.
    pub open spec fn wf(self) -> bool {
        &&& ids_unique(self.features)
        &&& forall|i: int| 0 <= i < self.features.len() ==> (#[trigger] self.features[i]).wf()
        &&& self.created_at <= self.last_updated
    }

    /// The state as it is when first created at `now`: no features yet.
    pub open spec fn fresh(project_name: Seq<char>, now: i64) -> LegendStateView {
        LegendStateView {
            project_name,
            features: Seq::empty(),
            created_at: now,
            last_updated: now,
        }
    }
}

impl LegendState {
    /// An empty state for the project `project_name`, created at `now`.
    pub fn new_at(project_name: String, now: i64) -> (state: LegendState)
        ensures
            state@ == LegendStateView::fresh(project_name@, now),
            state@.wf(),
    {
        let state = LegendState { project_name, features: Vec::new(), created_at: now, last_updated: now };
        assert(feature_views(state.features@) =~= Seq::empty());
        state
    }

    /// An empty state for the project `project_name`, created at the moment
    /// the system clock shows.
    pub fn new(project_name: String) -> (state: LegendState)
        ensures
            state@ == LegendStateView::fresh(project_name@, state.created_at),
            state@.wf(),
            state.created_at >= 0,
    {
        LegendState::new_at(project_name, current_timestamp())
    }

    /// Records `now` as the moment of the state's last change.
    pub fn touch_at(&mut self, now: i64)
        ensures
            final(self)@ == (LegendStateView { last_updated: now, ..old(self)@ }),
    {
        self.last_updated = now;
    }

    /// Records the moment the system clock shows as that of the state's last
    /// change.
    pub fn touch(&mut self)
        ensures
            final(self)@ == (LegendStateView { last_updated: final(self).last_updated, ..old(self)@ }),
            final(self).last_updated >= 0,
    {
        self.touch_at(current_timestamp());
    }

    /// Appends `feature` and records `now` as the moment of the state's last
    /// change. Whether the id is already taken is not looked at.
    pub fn add_feature_at(&mut self, feature: Feature, now: i64)
        ensures
            final(self)@ == (LegendStateView {
                features: old(self)@.features.push(feature@),
                last_updated: now,
                ..old(self)@
            }),
    {
        self.features.push(feature);
        self.touch_at(now);
        assert(feature_views(self.features@) =~= feature_views(old(self).features@).push(feature@));
    }

    /// Appends `feature` and records the moment the system clock shows as
    /// that of the state's last change.
    pub fn add_feature(&mut self, feature: Feature)
        ensures
            final(self)@ == (LegendStateView {
                features: old(self)@.features.push(feature@),
                last_updated: final(self).last_updated,
                ..old(self)@
            }),
            final(self).last_updated >= 0,
    {
        self.add_feature_at(feature, current_timestamp());
    }

    /// The index of the first feature that carries `id`, if any does.
    pub fn first_index(&self, id: &str) -> (found: Option<usize>)
        ensures
            match found {
                Some(i) => i < self.features.len() && first_position(self@.features, id@) == Some(
                    i as int,
                ),
                None => first_position(self@.features, id@) is None,
            },
    {
        let wanted = id.to_owned();
        let mut i: usize = 0;
        while i < self.features.len()
            invariant
                i <= self.features.len(),
                wanted@ == id@,
                forall|j: int| 0 <= j < i ==> (#[trigger] self.features@[j]).id@ != id@,
            decreases self.features.len() - i,
        {
            if self.features[i].id == wanted {
                proof {
                    lemma_first_position(self@.features, id@);
                    assert(self@.features[i as int].id == id@);
                    assert forall|j: int| 0 <= j < i implies self@.features[j].id != id@ by {
                        assert(self.features@[j].id@ != id@);
                    }
                }
                return Some(i);
            }
            i += 1;
        }
        proof {
            lemma_first_position(self@.features, id@);
            match first_position(self@.features, id@) {
                Some(k) => {
                    assert(self.features@[k].id@ != id@);
                },
                None => {},
            }
        }
        None
    }

    /// The first feature that carries `id`, if any does.
    pub fn find_feature(&self, id: &str) -> (found: Option<&Feature>)
        ensures
            match found {
                Some(feature) => first_position(self@.features, id@) matches Some(i)
                    && *feature == self.features@[i],
                None => first_position(self@.features, id@) is None,
            },
    {
        match self.first_index(id) {
            Some(i) => Some(&self.features[i]),
            None => None,
        }
    }

    /// The first feature that carries `id`, if any does, for the caller to
    /// change in place. Nothing else in the state changes.
    pub fn find_feature_mut(&mut self, id: &str) -> (found: Option<&mut Feature>)
        ensures
            match found {
                Some(feature) => first_position(old(self)@.features, id@) matches Some(i)
                    && 0 <= i < old(self).features@.len()
                    && *feature == old(self).features@[i]
                    && final(self).features@ == old(self).features@.update(i, *final(feature))
                    && final(self).project_name == old(self).project_name
                    && final(self).created_at == old(self).created_at
                    && final(self).last_updated == old(self).last_updated,
                None => first_position(old(self)@.features, id@) is None && *final(self) == *old(
                    self,
                ),
            },
    {
        match self.first_index(id) {
            Some(i) => Some(&mut self.features[i]),
            None => None,
        }
    }
}

} // verus!
