//! Reconciliation of the stored view counts with the remote report.
//!
//! A pass reads the whole report once, drops the entries that name no video
//! and writes one count after the other. A write that fails, or that finds
//! no row, does not stop the writes that follow. [`ViewReconciler`] holds the
//! decisions of a pass and leaves the fetching and the writing to its caller.

use crate::brightcove::analytics::{
    spec_view_updates, view_updates, VideosResponse, VideosResponseModel, ViewUpdate,
    ViewUpdateModel,
};
use crate::error::{PersistenceError, SyncError};
use vstd::prelude::*;

verus! {

/// Mathematical value of a [`ViewReconciler`]: a pass that has a count to
/// write.
pub struct ViewReconcilerModel {
    /// The updates of the pass, in the report's order.
    pub updates: Seq<ViewUpdateModel>,
    /// Place of the update to write now.
    pub next: int,
    /// Number of writes so far that changed a row.
    pub updated: int,
}

/// Mathematical value of a [`ReconcileStep`].
pub enum ReconcileStepModel {
    Write(ViewReconcilerModel),
    Done(int),
    Abort(SyncError),
}

/// Mathematical value of the outcome of fetching the report.
pub open spec fn spec_fetched(fetched: Result<VideosResponse, SyncError>) -> Result<
    VideosResponseModel,
    SyncError,
> {
    match fetched {
        Ok(report) => Ok(report@),
        Err(error) => Err(error),
    }
}

/// Whether a write changed a row: it was carried out and found one.
pub open spec fn spec_changed(outcome: Result<bool, PersistenceError>) -> bool {
    outcome == Ok::<bool, PersistenceError>(true)
}

/// How a pass begins once the report was asked for. A failed fetch ends it
/// with nothing written; a report that names no video ends it with nothing
/// to write.
pub open spec fn spec_begin(fetched: Result<VideosResponseModel, SyncError>) -> ReconcileStepModel {
    match fetched {
        Err(error) => ReconcileStepModel::Abort(error),
        Ok(report) => if spec_view_updates(report.items).len() == 0 {
            ReconcileStepModel::Done(0)
        } else {
            ReconcileStepModel::Write(
                ViewReconcilerModel {
                    updates: spec_view_updates(report.items),
                    next: 0,
                    updated: 0,
                },
            )
        },
    }
}

/// What a pass does with the outcome of the write it asked for: it counts
/// the write where it changed a row, and goes on to the next update
/// whatever the outcome was.
pub open spec fn spec_record(
    state: ViewReconcilerModel,
    outcome: Result<bool, PersistenceError>,
) -> ReconcileStepModel {
    let updated = if spec_changed(outcome) {
        state.updated + 1
    } else {
        state.updated
    };
    if state.next + 1 >= state.updates.len() {
        ReconcileStepModel::Done(updated)
    } else {
        ReconcileStepModel::Write(
            ViewReconcilerModel { updates: state.updates, next: state.next + 1, updated },
        )
    }
}

/// Number of `outcomes` that changed a row.
pub open spec fn spec_changes(outcomes: Seq<Result<bool, PersistenceError>>) -> int
    decreases outcomes.len(),
{
    if outcomes.len() == 0 {
        0
    } else if spec_changed(outcomes.last()) {
        spec_changes(outcomes.drop_last()) + 1
    } else {
        spec_changes(outcomes.drop_last())
    }
}

/// What `state` runs to when its writes end as `outcomes` say, one outcome
/// for each update that is left.
pub open spec fn spec_run_writes(
    state: ViewReconcilerModel,
    outcomes: Seq<Result<bool, PersistenceError>>,
) -> ReconcileStepModel
    decreases outcomes.len(),
{
    if outcomes.len() == 0 {
        ReconcileStepModel::Write(state)
    } else {
        match spec_record(state, outcomes[0]) {
            ReconcileStepModel::Write(next) => spec_run_writes(next, outcomes.drop_first()),
            ended => ended,
        }
    }
}

/// A pass that is handed one outcome for each update it has left ends, and
/// reports the writes that changed a row: no failed write keeps a later one
/// from being counted.
pub proof fn lemma_every_write_is_counted(
    state: ViewReconcilerModel,
    outcomes: Seq<Result<bool, PersistenceError>>,
)
    requires
        0 <= state.next < state.updates.len(),
        outcomes.len() == state.updates.len() - state.next,
    ensures
        spec_run_writes(state, outcomes) == ReconcileStepModel::Done(
            state.updated + spec_changes(outcomes),
        ),
    decreases outcomes.len(),
{
    lemma_changes_from_front(outcomes);
    match spec_record(state, outcomes[0]) {
        ReconcileStepModel::Write(next) => {
            lemma_every_write_is_counted(next, outcomes.drop_first());
        },
        _ => {
            assert(outcomes.drop_first().len() == 0);
            assert(spec_changes(outcomes.drop_first()) == 0);
        },
    }
}

proof fn lemma_changes_from_front(outcomes: Seq<Result<bool, PersistenceError>>)
    requires
        outcomes.len() > 0,
    ensures
        spec_changes(outcomes) == spec_changes(outcomes.drop_first()) + if spec_changed(
            outcomes[0],
        ) {
            1int
        } else {
            0int
        },
    decreases outcomes.len(),
{
    if outcomes.len() == 1 {
        assert(outcomes.drop_first() == outcomes.drop_last());
        assert(spec_changes(outcomes.drop_last()) == 0);
    } else {
        let middle = outcomes.drop_first().drop_last();
        lemma_changes_from_front(outcomes.drop_last());
        assert(outcomes.drop_last().drop_first() == middle);
        assert(outcomes.drop_first().last() == outcomes.last());
        assert(outcomes.drop_last()[0] == outcomes[0]);
    }
}

/// A reconciliation pass that has a count to write.
///
/// The caller writes [`ViewReconciler::update`] to its table and hands the
/// outcome to [`ViewReconciler::record`].
pub struct ViewReconciler {
    updates: Vec<ViewUpdate>,
    next: usize,
    updated: usize,
}

/// What the caller of a reconciliation pass does next.
pub enum ReconcileStep {
    /// Write the update that this pass holds out.
    Write(ViewReconciler),
    /// The pass is over: so many writes changed a row.
    Done(usize),
    /// The report could not be had: nothing was written.
    Abort(SyncError),
}

impl View for ViewReconciler {
    type V = ViewReconcilerModel;

    closed spec fn view(&self) -> ViewReconcilerModel {
        ViewReconcilerModel {
            updates: self.updates.deep_view(),
            next: self.next as int,
            updated: self.updated as int,
        }
    }
}

impl View for ReconcileStep {
    type V = ReconcileStepModel;

    open spec fn view(&self) -> ReconcileStepModel {
        match self {
            ReconcileStep::Write(state) => ReconcileStepModel::Write(state@),
            ReconcileStep::Done(updated) => ReconcileStepModel::Done(*updated as int),
            ReconcileStep::Abort(error) => ReconcileStepModel::Abort(*error),
        }
    }
}

impl ViewReconciler {
    #[verifier::type_invariant]
    spec fn well_formed(self) -> bool {
        &&& self.next < self.updates.len()
        &&& self.updated <= self.next
    }

    /// Begins a pass with the outcome of fetching the report.
    pub fn begin(fetched: Result<VideosResponse, SyncError>) -> (step: ReconcileStep)
        ensures
            step@ == spec_begin(spec_fetched(fetched)),
    {
        match fetched {
            Err(error) => ReconcileStep::Abort(error),
            Ok(report) => {
                let updates = view_updates(&report);
                if updates.len() == 0 {
                    ReconcileStep::Done(0)
                } else {
                    ReconcileStep::Write(ViewReconciler { updates, next: 0, updated: 0 })
                }
            },
        }
    }

    /// The update to write now.
    pub fn update(&self) -> (update: &ViewUpdate)
        ensures
            0 <= self@.next < self@.updates.len(),
            update@ == self@.updates[self@.next],
    {
        proof {
            use_type_invariant(self);
        }
        &self.updates[self.next]
    }

    /// Takes the outcome of the write and says what to do next.
    pub fn record(self, outcome: Result<bool, PersistenceError>) -> (step: ReconcileStep)
        ensures
            step@ == spec_record(self@, outcome),
    {
        proof {
            use_type_invariant(&self);
        }
        let ViewReconciler { updates, next, updated } = self;
        let changed = match outcome {
            Ok(found) => found,
            Err(_) => false,
        };
        let updated = if changed {
            updated + 1
        } else {
            updated
        };
        if next + 1 >= updates.len() {
            ReconcileStep::Done(updated)
        } else {
            ReconcileStep::Write(ViewReconciler { updates, next: next + 1, updated })
        }
    }
}

} // verus!
