use crate::codec::encoded;
use crate::error::{Failure, LegendError};
use crate::recency::rescoring;
use crate::storage::{
    after_steps, is_initialized, lemma_save_is_atomic, load_state, loaded, save_state, save_steps,
    step_views, stored_at, stored_view, DiskView, FileStep, FileStepView, Store,
};
use crate::types::{LegendState, LegendStateView};
use crate::update::{
    first_rejected, merge_updates_at, merged_state, rejection, Update, UpdateView,
};
use vstd::prelude::*;

verus! {

/// A plan: the snapshot to keep in memory and the steps that persist it.
pub type Plan = (LegendState, Vec<FileStep>);

/// The mathematical content of a [`Plan`].
pub type PlanView = (LegendStateView, Seq<FileStepView>);

/// The content of what planning returns.
pub open spec fn plan_view(result: Result<Plan, LegendError>) -> Result<PlanView, Failure> {
    match result {
        Ok(plan) => Ok((plan.0@, step_views(plan.1@))),
        Err(error) => Err(error@.failure()),
    }
}

/// The plan that persists `state` at `path`, or the error of encoding it.
pub open spec fn persisted(state: LegendStateView, path: Seq<char>) -> Result<
    PlanView,
    Failure,
> {
    match encoded(state) {
        Ok(bytes) => Ok((state, save_steps(path, bytes))),
        Err(error) => Err(error),
    }
}

/// What an update of the store at `path` gives, for what the canonical path
/// holds, a batch, the time and the decay curve.
///
/// What is stored is loaded; the batch is merged into it; every feature is
/// rescored; the result is planned for saving. Whatever fails first is the
/// error, and then there is no plan: nothing is persisted, in part or in
/// whole.
pub open spec fn update_outcome<F: Fn(i64) -> u64>(
    decay: F,
    path: Seq<char>,
    stored: Option<Seq<u8>>,
    update: UpdateView,
    now: i64,
    result: Result<PlanView, Failure>,
) -> bool {
    match loaded(stored) {
        Err(error) => result == Err::<PlanView, Failure>(error),
        Ok(before) => match first_rejected(before.features, update.features, now) {
            Some(k) => result == Err::<PlanView, Failure>(rejection(update.features[k])),
            None => exists|after: LegendStateView| #[trigger]
                rescoring(decay, merged_state(before, update, now), after, now) && result
                    == persisted(after, path),
        },
    }
}

/// Plans one update of `store`: loads what the canonical path holds,
/// merges `update` into it at `now`, which rescores every feature under
/// `decay`, and plans the save of the result.
pub fn plan_update<F: Fn(i64) -> u64>(
    store: &Store,
    stored: Option<&[u8]>,
    update: Update,
    now: i64,
    decay: F,
) -> (result: Result<Plan, LegendError>)
    requires
        forall|age: i64| call_requires(decay, (age,)),
    ensures
        update_outcome(decay, store.path@, stored_view(stored), update@, now, plan_view(result)),
{
    let mut state = load_state(stored)?;
    let ghost before = state@;
    match merge_updates_at(&mut state, update, now, decay) {
        Ok(_) => {},
        Err(error) => {
            return Err(error);
        },
    }
    proof {
        assert(rescoring(decay, merged_state(before, update@, now), state@, now));
    }
    let steps = save_state(store, &state)?;
    Ok((state, steps))
}

/// Plans the first save of a store: an empty state named `project_name`,
/// created at `now`. A store that already holds something is left alone:
/// there is then no plan.
pub fn plan_init(store: &Store, stored: Option<&[u8]>, project_name: String, now: i64) -> (result:
    Result<Option<Plan>, LegendError>)
    ensures
        match result {
            Ok(None) => stored is Some,
            Ok(Some(plan)) => stored is None && plan.0@ == LegendStateView::fresh(project_name@, now)
                && persisted(plan.0@, store.path@) == Ok::<PlanView, Failure>(
                (plan.0@, step_views(plan.1@)),
            ),
            Err(error) => stored is None && persisted(
                LegendStateView::fresh(project_name@, now),
                store.path@,
            ) == Err::<PlanView, Failure>(error@.failure()),
        },
{
    if is_initialized(stored) {
        return Ok(None);
    }
    let state = LegendState::new_at(project_name, now);
    let steps = save_state(store, &state)?;
    Ok(Some((state, steps)))
}

/// The disk after what planning returned was carried out: every step of a
/// plan taken whole, and nothing at all for an error.
pub open spec fn disk_after(disk: DiskView, result: Result<PlanView, Failure>) -> DiskView {
    match result {
        Ok(plan) => after_steps(disk, plan.1, plan.1.len()),
        Err(_) => disk,
    }
}

/// A batch that would create a feature without name, domain or description
/// fails with `MissingRequiredField`, and the disk is as it was: a load
/// afterwards gives what a load before gave.
pub proof fn lemma_rejected_batch_changes_nothing<F: Fn(i64) -> u64>(
    decay: F,
    disk: DiskView,
    path: Seq<char>,
    update: UpdateView,
    now: i64,
    result: Result<PlanView, Failure>,
)
    requires
        update_outcome(decay, path, stored_at(disk, path), update, now, result),
        loaded(stored_at(disk, path)) matches Ok(before) && first_rejected(
            before.features,
            update.features,
            now,
        ) is Some,
    ensures
        result matches Err(Failure::MissingRequiredField { .. }),
        disk_after(disk, result) == disk,
        loaded(stored_at(disk_after(disk, result), path)) == loaded(stored_at(disk, path)),
{
}

/// Any update that fails, at whatever step, leaves the disk as it was.
pub proof fn lemma_failed_update_changes_nothing(
    disk: DiskView,
    result: Result<PlanView, Failure>,
)
    requires
        result is Err,
    ensures
        disk_after(disk, result) == disk,
{
}

/// An update that succeeds leaves at the canonical path exactly the bytes
/// that the new snapshot encodes to, and touches no path but that and the
/// temporary one.
pub proof fn lemma_update_persists_snapshot<F: Fn(i64) -> u64>(
    decay: F,
    disk: DiskView,
    path: Seq<char>,
    update: UpdateView,
    now: i64,
    result: Result<PlanView, Failure>,
)
    requires
        update_outcome(decay, path, stored_at(disk, path), update, now, result),
        result is Ok,
    ensures
        encoded(result->Ok_0.0) == Ok::<Seq<u8>, Failure>(
            stored_at(disk_after(disk, result), path)->0,
        ),
        stored_at(disk_after(disk, result), path) is Some,
{
    let plan = result->Ok_0;
    let bytes = encoded(plan.0)->Ok_0;
    assert(plan.1 == save_steps(path, bytes));
    lemma_save_is_atomic(disk, path, bytes, Seq::empty());
}

} // verus!
