//! What follows for a cluster that the orchestrator can reach: which record
//! may be launched, that no state goes back, and what a second pass over the
//! same record does.

use crate::benchmark::{BenchmarkState, BenchmarkStatus, BenchmarkView};
use crate::cluster::{
    after_call, holds_place, is_addressed, is_under_way, lemma_finalize_keeps_sound,
    lemma_head_is_held_once, lemma_reconcile_keeps_sound, reconciled, Cluster, Step,
};
use crate::controller::{state_patch, EffectView};
use crate::patch::patched;
use crate::queue::{
    admission_position, admitted, all_behind_are_pending, is_dense,
    lemma_reorder_restores_density_after_deletion, moved_up, moves_up, reorder, with_state,
    StatusPatchView,
};
use crate::state::{EventTime, StateDataView};
use vstd::prelude::*;

verus! {

/// One record at most is due for launch: of any two records of a sound
/// cluster that are due, each is the other.
pub proof fn lemma_one_record_is_due(cluster: Cluster, i: int, j: int)
    requires
        cluster.is_sound(),
        0 <= i < cluster.records.len(),
        0 <= j < cluster.records.len(),
        cluster.records[i].is_due(cluster.cell),
        cluster.records[j].is_due(cluster.cell),
    ensures
        i == j,
{
    lemma_head_is_held_once(cluster, i, j);
}

/// While a record is `Running` or `Done`, no record is due for launch.
pub proof fn lemma_none_is_due_while_running(cluster: Cluster, i: int, j: int)
    requires
        cluster.is_sound(),
        0 <= i < cluster.records.len(),
        0 <= j < cluster.records.len(),
        cluster.records[i].status matches Some(status) && (status.state == BenchmarkState::Running
            || status.state == BenchmarkState::Done),
    ensures
        !cluster.records[j].is_due(cluster.cell),
{
    if cluster.records[j].is_due(cluster.cell) {
        assert(is_under_way(cluster.records[i]));
        lemma_head_is_held_once(cluster, i, j);
    }
}

/// The call comes in its order: a workload that calls *started* belongs to
/// a record that is `Pending` or `Running`, and one that calls *done* to a
/// record that has not completed. Left out is a call of *started* for a
/// record that is `Done` already, and any call for a record that is
/// `Completed`; the state is written all the same, and that is a step back.
pub open spec fn is_in_order(step: Step, cluster: Cluster) -> bool {
    forall|i: int|
        0 <= i < cluster.records.len() && is_addressed(
            #[trigger] cluster.records[i],
            cluster.cell.benchmark_name,
            cluster.cell.namespace,
        ) && cluster.records[i].status is Some ==> (step is Started
            ==> cluster.records[i].is_queued()) && (step is Done ==> holds_place(
            cluster.records[i],
        ))
}

/// No state goes back: a record that has a status before a step has one
/// after it, and its state stands no earlier in the progression `Pending`,
/// `Running`, `Done`, `Completed` than before. This holds of every enabled
/// step but a call that comes out of its order.
pub proof fn lemma_state_never_goes_back(cluster: Cluster, step: Step, i: int, j: int)
    requires
        cluster.is_sound(),
        step.is_enabled(cluster),
        is_in_order(step, cluster),
        0 <= i < cluster.records.len(),
        0 <= j < step.after(cluster).records.len(),
        step.after(cluster).records[j].name_any() == cluster.records[i].name_any(),
        cluster.records[i].status is Some,
    ensures
        step.after(cluster).records[j].status is Some,
        step.after(cluster).records[j].status->0.state.rank()
            >= cluster.records[i].status->0.state.rank(),
{
    let records = cluster.records;
    let after = step.after(cluster).records;
    match step {
        Step::Create { record } => {
            if j < records.len() {
                assert(after[j] == records[j]);
                assert(j == i);
            }
        },
        Step::Reconcile { index, now } => {
            lemma_reconcile_keeps_sound(cluster, index, now);
            assert(after == reconciled(records, index));
            match records[index].status {
                None => {
                    if j == index {
                        assert(after[j].name_any() == records[index].name_any());
                    } else {
                        assert(after[j] == records[j]);
                    }
                    assert(j == i);
                },
                Some(status) => {
                    if status.state == BenchmarkState::Done {
                        let completed = records.update(
                            index,
                            with_state(records[index], BenchmarkState::Completed),
                        );
                        assert(after[j] == moved_up(completed[j], status.queue_position as nat));
                        assert(after[j].name_any() == records[j].name_any());
                        assert(j == i);
                    } else {
                        assert(j == i);
                    }
                },
            }
        },
        Step::Finalize { index, now } => {
            lemma_finalize_keeps_sound(cluster, index, now);
            let from = if j < index {
                j
            } else {
                j + 1
            };
            let left = records.remove(index);
            assert(left[j] == records[from]);
            match records[index].status {
                None => {
                    assert(after[j] == records[from]);
                },
                Some(status) => {
                    assert(after[j] == moved_up(left[j], status.queue_position as nat));
                },
            }
            assert(after[j].name_any() == records[from].name_any());
            assert(from == i);
        },
        Step::Started { now } => {
            lemma_call_writes(cluster, BenchmarkState::Running, now, j);
            assert(j == i);
        },
        Step::Done { now } => {
            lemma_call_writes(cluster, BenchmarkState::Done, now, j);
            assert(j == i);
        },
    }
}

/// What a call of a workload leaves of one record.
proof fn lemma_call_writes(cluster: Cluster, state: BenchmarkState, now: EventTime, j: int)
    requires
        0 <= j < cluster.records.len(),
    ensures
        after_call(cluster, state, now).records.len() == cluster.records.len(),
        after_call(cluster, state, now).records[j] == if is_addressed(
            cluster.records[j],
            cluster.cell.benchmark_name,
            cluster.cell.namespace,
        ) {
            with_state(cluster.records[j], state)
        } else {
            cluster.records[j]
        },
{
}

/// Admission happens once: a pass over a record that has a status asks for
/// no admission.
pub proof fn lemma_no_second_admission(record: BenchmarkView, cell: StateDataView, k: int)
    requires
        record.status is Some,
        0 <= k < record.reconcile_effects(cell).len(),
    ensures
        !(record.reconcile_effects(cell)[k] is Admit),
{
}

/// Admission is idempotent: the pass that follows the admission of a record
/// writes nothing on any record.
pub proof fn lemma_admission_is_idempotent(
    cluster: Cluster,
    index: int,
    first: EventTime,
    second: EventTime,
)
    requires
        cluster.is_sound(),
        (Step::Reconcile { index, now: first }).is_enabled(cluster),
        cluster.records[index].status is None,
    ensures
        (Step::Reconcile { index, now: second }).after(
            (Step::Reconcile { index, now: first }).after(cluster),
        ).records == (Step::Reconcile { index, now: first }).after(cluster).records,
{
    let once = (Step::Reconcile { index, now: first }).after(cluster);
    lemma_reconcile_keeps_sound(cluster, index, first);
    assert(once.records[index].status is Some);
    lemma_reconcile_keeps_sound(once, index, second);
}

/// The teardown comes before the completion: where a plan sets `Completed`
/// on a record, it has asked before for the pods of the record's namespace
/// to be deleted and for its charts to be removed.
pub proof fn lemma_teardown_precedes_completion(record: BenchmarkView, cell: StateDataView, k: int)
    requires
        0 <= k < record.reconcile_effects(cell).len(),
        record.reconcile_effects(cell)[k] matches EffectView::SetState { state, .. } && state
            == BenchmarkState::Completed,
    ensures
        k == 2,
        record.reconcile_effects(cell)[0] == (EffectView::DeletePods {
            namespace: record.namespace_or_default(),
        }),
        record.reconcile_effects(cell)[1] is UninstallCharts,
{
    match record.status {
        None => {},
        Some(status) => match status.state {
            BenchmarkState::Pending => {
                if record.is_due(cell) {
                    assert(k == 0 || record.reconcile_effects(cell)[k] is Launch);
                }
            },
            _ => {},
        },
    }
}

/// The finalizer entered twice. The second pass writes the cell as the
/// first did. It leaves the records as the first did exactly where no
/// `Pending` record stood more than one place behind the record that goes:
/// a record further behind moves up a second time.
pub proof fn lemma_cleanup_entered_twice(cluster: Cluster, index: int, now: EventTime)
    requires
        0 <= index < cluster.records.len(),
    ensures
        ({
            let record = cluster.records[index];
            let once = cluster.after_effects(record.cleanup_effects(), now);
            let twice = once.after_effects(once.records[index].cleanup_effects(), now);
            &&& once.records[index] == record
            &&& twice.cell == once.cell
            &&& (twice.records == once.records <==> (record.status matches Some(status)
                ==> forall|i: int|
                0 <= i < cluster.records.len() ==> !moves_up(
                    #[trigger] cluster.records[i],
                    (status.queue_position + 1) as nat,
                )))
        }),
{
    let records = cluster.records;
    let record = records[index];
    let effects = record.cleanup_effects();
    let once = cluster.after_effects(effects, now);
    match record.status {
        None => {
            assert(once == cluster) by {
                reveal_with_fuel(Cluster::after_effects_from, 2);
            }
        },
        Some(status) => {
            let exiting = status.queue_position as nat;
            assert(once.records == reorder(records, exiting) && once.cell == if status.state
                == BenchmarkState::Running {
                StateDataView::cleared(now)
            } else {
                cluster.cell
            }) by {
                reveal_with_fuel(Cluster::after_effects_from, 4);
            }
            assert(once.records[index] == moved_up(record, exiting));
            let twice = once.after_effects(effects, now);
            assert(twice.records == reorder(once.records, exiting) && twice.cell
                == once.cell) by {
                reveal_with_fuel(Cluster::after_effects_from, 4);
            }
            let behind = (status.queue_position + 1) as nat;
            if forall|i: int| 0 <= i < records.len() ==> !moves_up(#[trigger] records[i], behind) {
                assert forall|i: int| 0 <= i < records.len() implies twice.records[i]
                    == once.records[i] by {
                    assert(!moves_up(records[i], behind));
                    assert(once.records[i] == moved_up(records[i], exiting));
                    assert(twice.records[i] == moved_up(once.records[i], exiting));
                }
                assert(twice.records =~= once.records);
            } else {
                let i = choose|i: int| 0 <= i < records.len() && moves_up(#[trigger] records[i], behind);
                assert(once.records[i] == moved_up(records[i], exiting));
                assert(twice.records[i] == moved_up(once.records[i], exiting));
                assert(twice.records[i] != once.records[i]);
            }
        },
    }
}

/// Writing the patch that `set_benchmark_state` gives for a record sets the
/// state on that record and keeps its position.
pub proof fn lemma_state_patch_sets_state(record: BenchmarkView, state: BenchmarkState)
    requires
        record.status is Some,
    ensures
        state_patch(record.name_any(), record.status, state) is Ok,
        patched(record, state_patch(record.name_any(), record.status, state)->Ok_0) == with_state(
            record,
            state,
        ),
{
}

/// Writing the status of admission on a record admits it.
pub proof fn lemma_admission_patch_admits(records: Seq<BenchmarkView>, index: int)
    requires
        0 <= index < records.len(),
        admission_position(records) <= u32::MAX,
    ensures
        patched(
            records[index],
            StatusPatchView {
                name: records[index].name_any(),
                status: BenchmarkStatus {
                    state: BenchmarkState::Pending,
                    queue_position: admission_position(records) as u32,
                },
            },
        ) == admitted(records[index], admission_position(records)),
{
}

/// Deleting a `Pending` record collapses the positions behind it: after its
/// finalizer every `Pending` record that stood behind it stands one place
/// further up, every other record is as it was, and the cell is as it was.
/// Where the queue was dense and no `Running` record stood behind the
/// deleted one, it is dense again.
pub proof fn lemma_deleting_pending_closes_queue(cluster: Cluster, index: int, now: EventTime)
    requires
        0 <= index < cluster.records.len(),
        cluster.records[index].status matches Some(status) && status.state
            == BenchmarkState::Pending,
    ensures
        ({
            let exiting = cluster.records[index].status->0.queue_position as nat;
            let left = cluster.records.remove(index);
            let after = (Step::Finalize { index, now }).after(cluster);
            &&& after.cell == cluster.cell
            &&& after.records.len() == left.len()
            &&& forall|j: int|
                0 <= j < left.len() ==> #[trigger] after.records[j] == moved_up(left[j], exiting)
            &&& is_dense(cluster.records) && all_behind_are_pending(cluster.records, exiting)
                ==> is_dense(after.records)
        }),
{
    let records = cluster.records;
    let exiting = records[index].status->0.queue_position as nat;
    let left = records.remove(index);
    let effects = records[index].cleanup_effects();
    let cleaned = cluster.after_effects(effects, now);
    assert(cleaned.records == reorder(records, exiting) && cleaned.cell == cluster.cell) by {
        reveal_with_fuel(Cluster::after_effects_from, 4);
    }
    assert(reorder(records, exiting).remove(index) =~= reorder(left, exiting));
    if is_dense(records) && all_behind_are_pending(records, exiting) {
        lemma_reorder_restores_density_after_deletion(records, index);
    }
}

} // verus!
