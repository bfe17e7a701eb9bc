//! The cluster as the orchestrator changes it: the records of one scope and
//! the shared state cell, the steps that the reconciler, the finalizer and
//! the coordination endpoint take on them, and what holds of every cluster
//! that these steps can reach.
//!
//! A step stands for a plan performed in one piece on the record as the
//! store holds it. What the steps take for granted of their surroundings is
//! said in `Step::is_enabled`.

use crate::benchmark::{BenchmarkState, BenchmarkView};
use crate::controller::EffectView;
use crate::density::{
    close_gap, count_at, is_prefix, lemma_close_gap_restores_prefix, lemma_count_positive,
    lemma_count_remove, lemma_count_update, lemma_exit_leaves_gap, occupied,
};
use crate::patch::names_differ;
use crate::queue::{
    admission_position, admitted, is_dense, lemma_admission_goes_last, lemma_dense_iff_prefix,
    lemma_next_position_is_least_above, lemma_positions_counted, moved_up, moves_up,
    next_position, queue_positions, queue_slots, reorder, with_state,
};
use crate::state::{EventTime, StateDataView};
use vstd::prelude::*;

verus! {

/// The records of one scope and the shared state cell.
pub struct Cluster {
    pub records: Seq<BenchmarkView>,
    pub cell: StateDataView,
}

/// The record keeps a place in the queue: it has a status and has not come
/// to `Completed`. A `Done` record keeps its place until the reconciler has
/// torn it down and closed the queue up behind it.
pub open spec fn holds_place(record: BenchmarkView) -> bool {
    record.status matches Some(status) && status.state != BenchmarkState::Completed
}

/// The slot of a record: its position where it keeps a place.
pub open spec fn held_slot(record: BenchmarkView) -> Option<nat> {
    if holds_place(record) {
        Some(record.status->0.queue_position as nat)
    } else {
        None
    }
}

/// The slots of a listing.
pub open spec fn held_slots(records: Seq<BenchmarkView>) -> Seq<Option<nat>> {
    records.map_values(|record: BenchmarkView| held_slot(record))
}

/// No record waits to be torn down: none is `Done`.
pub open spec fn is_settled(records: Seq<BenchmarkView>) -> bool {
    forall|i: int|
        0 <= i < records.len() ==> !((#[trigger] records[i]).status matches Some(status)
            && status.state == BenchmarkState::Done)
}

/// The record is `Running` or `Done`.
pub open spec fn is_under_way(record: BenchmarkView) -> bool {
    record.status matches Some(status) && (status.state == BenchmarkState::Running || status.state
        == BenchmarkState::Done)
}

/// A record that is `Running` or `Done` stands at the head of the queue.
pub open spec fn runs_at_head(records: Seq<BenchmarkView>) -> bool {
    forall|i: int|
        0 <= i < records.len() && is_under_way(#[trigger] records[i])
            ==> records[i].status->0.queue_position == 0
}

/// The record is the one that name and namespace address.
pub open spec fn is_addressed(record: BenchmarkView, name: Seq<char>, namespace: Seq<char>) -> bool {
    record.name_any() == name && record.namespace_or_default() == namespace
}

impl Cluster {
    /// What holds of every cluster that the steps reach (see
    /// `lemma_reached_cluster_is_sound`): the records differ in their names,
    /// the places kept are `0, …, k − 1`, each once, and whatever runs or is
    /// done stands at the head.
    pub open spec fn is_sound(self) -> bool {
        &&& names_differ(self.records)
        &&& is_prefix(held_slots(self.records))
        &&& runs_at_head(self.records)
    }

    /// The cluster after one effect, written at `now`. Pods and charts are
    /// no part of the cluster: what creates or removes them leaves it as it
    /// is.
    pub open spec fn after_effect(self, effect: EffectView, now: EventTime) -> Cluster {
        match effect {
            EffectView::Admit { name } => Cluster {
                records: self.records.map_values(
                    |record: BenchmarkView|
                        if record.name_any() == name {
                            admitted(record, admission_position(self.records))
                        } else {
                            record
                        },
                ),
                ..self
            },
            EffectView::Select { name, namespace } => Cluster {
                cell: StateDataView::selected(name, namespace, now),
                ..self
            },
            EffectView::ClearSelection => Cluster { cell: StateDataView::cleared(now), ..self },
            EffectView::SetRunning(flag) => Cluster {
                cell: StateDataView {
                    last_event_time: now,
                    is_benchmark_running: flag,
                    ..self.cell
                },
                ..self
            },
            EffectView::SetDone(flag) => Cluster {
                cell: StateDataView { last_event_time: now, is_benchmark_done: flag, ..self.cell },
                ..self
            },
            EffectView::Launch(_) => self,
            EffectView::DeletePods { namespace } => self,
            EffectView::UninstallCharts(_) => self,
            EffectView::SetState { name, namespace, state } => Cluster {
                records: self.records.map_values(
                    |record: BenchmarkView|
                        if is_addressed(record, name, namespace) {
                            with_state(record, state)
                        } else {
                            record
                        },
                ),
                ..self
            },
            EffectView::Reorder { exiting } => Cluster {
                records: reorder(self.records, exiting as nat),
                ..self
            },
        }
    }

    /// The cluster after the effects from the `from`-th on, one after the
    /// other.
    pub open spec fn after_effects_from(
        self,
        effects: Seq<EffectView>,
        from: int,
        now: EventTime,
    ) -> Cluster
        decreases effects.len() - from,
    {
        if 0 <= from < effects.len() {
            self.after_effect(effects[from], now).after_effects_from(effects, from + 1, now)
        } else {
            self
        }
    }

    /// The cluster after a plan.
    pub open spec fn after_effects(self, effects: Seq<EffectView>, now: EventTime) -> Cluster {
        self.after_effects_from(effects, 0, now)
    }
}

/// While no record is `Done`, the places kept are the places of the queue.
pub proof fn lemma_settled_slots(records: Seq<BenchmarkView>)
    requires
        is_settled(records),
    ensures
        held_slots(records) == queue_slots(records),
{
    assert(held_slots(records) =~= queue_slots(records));
}

/// In a sound cluster one record at most keeps the head of the queue.
pub proof fn lemma_head_is_held_once(cluster: Cluster, i: int, j: int)
    requires
        cluster.is_sound(),
        0 <= i < cluster.records.len(),
        0 <= j < cluster.records.len(),
        held_slots(cluster.records)[i] == Some(0nat),
        held_slots(cluster.records)[j] == Some(0nat),
    ensures
        i == j,
{
    if i != j {
        let slots = held_slots(cluster.records);
        lemma_count_update(slots, i, None);
        let without = slots.update(i, None);
        assert(count_at(without, 0) + 1 == count_at(slots, 0));
        assert(without[j] == Some(0nat));
        lemma_count_positive(without, 0);
        assert(count_at(slots, 0) == if 0 < occupied(slots) {
            1nat
        } else {
            0nat
        });
    }
}

/// At most one record is running: of any two records of a sound cluster at
/// most one is `Running`.
pub proof fn lemma_at_most_one_running(cluster: Cluster, i: int, j: int)
    requires
        cluster.is_sound(),
        0 <= i < cluster.records.len(),
        0 <= j < cluster.records.len(),
        cluster.records[i].status matches Some(status) && status.state == BenchmarkState::Running,
        cluster.records[j].status matches Some(status) && status.state == BenchmarkState::Running,
    ensures
        i == j,
{
    assert(is_under_way(cluster.records[i]));
    assert(is_under_way(cluster.records[j]));
    lemma_head_is_held_once(cluster, i, j);
}

/// Queue density: in a sound cluster in which no record waits to be torn
/// down, the positions of the `Pending` and `Running` records are
/// `{0, 1, …, k − 1}` as a multiset.
pub proof fn lemma_settled_cluster_is_dense(cluster: Cluster)
    requires
        cluster.is_sound(),
        is_settled(cluster.records),
    ensures
        is_dense(cluster.records),
{
    lemma_settled_slots(cluster.records);
    lemma_dense_iff_prefix(cluster.records);
}

/// A step of the cluster.
pub enum Step {
    /// The user declares a record.
    Create { record: BenchmarkView },
    /// The reconciler passes over the record at this index.
    Reconcile { index: int, now: EventTime },
    /// The finalizer passes over the record at this index, and the store
    /// lets the record go.
    Finalize { index: int, now: EventTime },
    /// A workload calls *started*.
    Started { now: EventTime },
    /// A workload calls *done*.
    Done { now: EventTime },
}

impl Step {
    /// What a step takes for granted. Three kinds of step are left out; the
    /// contracts of the library say what happens there all the same, but
    /// the cluster need not stay sound.
    ///
    /// - A new record has no status, and a name that no record of the scope
    ///   has.
    /// - A record is admitted while the next position can be counted. Left
    ///   out: an admission into an empty queue while a record waits to be
    ///   torn down. The new record takes position `0`, and when the record
    ///   that is `Done` completes, the reorder moves whatever was admitted
    ///   behind the new record to position `0` as well.
    /// - Left out: the finalizer of a `Completed` record while a `Pending`
    ///   record stands behind its old position. The place was given up at
    ///   completion, and the reorder of the finalizer moves those records
    ///   up a second time.
    /// - A workload that calls belongs to the record that the cell selects.
    ///   Left out: a call while the selected record is not at the head of
    ///   the queue, as after a record was deleted and declared again under
    ///   its name, or while it is `Completed` and other records keep places.
    ///   The state is written all the same.
    pub open spec fn is_enabled(self, cluster: Cluster) -> bool {
        match self {
            Step::Create { record } => record.status is None && forall|i: int|
                0 <= i < cluster.records.len() ==> (#[trigger] cluster.records[i]).name_any()
                    != record.name_any(),
            Step::Reconcile { index, now } => 0 <= index < cluster.records.len() && (
            cluster.records[index].status is None ==> (is_settled(cluster.records)
                || queue_positions(cluster.records).len() > 0) && admission_position(
                cluster.records,
            ) <= u32::MAX),
            Step::Finalize { index, now } => 0 <= index < cluster.records.len() && (
            cluster.records[index].status matches Some(status) && status.state
                == BenchmarkState::Completed ==> forall|i: int|
                0 <= i < cluster.records.len() ==> !moves_up(
                    #[trigger] cluster.records[i],
                    cluster.records[index].status->0.queue_position as nat,
                )),
            Step::Started { now } => caller_holds_head(cluster),
            Step::Done { now } => caller_holds_head(cluster),
        }
    }

    /// The cluster after the step.
    pub open spec fn after(self, cluster: Cluster) -> Cluster {
        match self {
            Step::Create { record } => Cluster {
                records: cluster.records.push(record),
                ..cluster
            },
            Step::Reconcile { index, now } => cluster.after_effects(
                cluster.records[index].reconcile_effects(cluster.cell),
                now,
            ),
            Step::Finalize { index, now } => {
                let cleaned = cluster.after_effects(cluster.records[index].cleanup_effects(), now);
                Cluster { records: cleaned.records.remove(index), ..cleaned }
            },
            Step::Started { now } => after_call(cluster, BenchmarkState::Running, now),
            Step::Done { now } => after_call(cluster, BenchmarkState::Done, now),
        }
    }
}

/// Every record that the cell selects and that has a status stands at the
/// head of the queue: its position is `0`, and it has not completed, unless
/// no record at all keeps a place.
pub open spec fn caller_holds_head(cluster: Cluster) -> bool {
    forall|i: int|
        0 <= i < cluster.records.len() && is_addressed(
            #[trigger] cluster.records[i],
            cluster.cell.benchmark_name,
            cluster.cell.namespace,
        ) && cluster.records[i].status is Some ==> cluster.records[i].status->0.queue_position
            == 0 && (holds_place(cluster.records[i]) || occupied(held_slots(cluster.records))
            == 0)
}

/// The cluster after a call of a workload: the cell is marked as written,
/// and the state is set on the record that the cell selects.
pub open spec fn after_call(cluster: Cluster, state: BenchmarkState, now: EventTime) -> Cluster {
    let write = cluster.cell.write_of(state);
    (Cluster { cell: cluster.cell.touched(now), ..cluster }).after_effect(
        EffectView::SetState { name: write.name, namespace: write.namespace, state: write.state },
        now,
    )
}

/// Effects that launch leave the cluster as it is.
proof fn lemma_launches_change_nothing(
    cluster: Cluster,
    effects: Seq<EffectView>,
    from: int,
    now: EventTime,
)
    requires
        0 <= from,
        forall|k: int| from <= k < effects.len() ==> (#[trigger] effects[k]) is Launch,
    ensures
        cluster.after_effects_from(effects, from, now) == cluster,
    decreases effects.len() - from,
{
    if from < effects.len() {
        assert(effects[from] is Launch);
        lemma_launches_change_nothing(cluster, effects, from + 1, now);
    }
}

/// The listing after the record at `index` was replaced, where a write
/// addressed it by its name.
proof fn lemma_write_by_name(
    records: Seq<BenchmarkView>,
    index: int,
    written: Seq<BenchmarkView>,
    record: BenchmarkView,
)
    requires
        names_differ(records),
        0 <= index < records.len(),
        written.len() == records.len(),
        forall|i: int|
            0 <= i < records.len() ==> #[trigger] written[i] == if records[i].name_any()
                == records[index].name_any() {
                record
            } else {
                records[i]
            },
    ensures
        written == records.update(index, record),
{
    assert forall|i: int| 0 <= i < records.len() implies written[i] == records.update(
        index,
        record,
    )[i] by {
        if i != index {
            assert(records[i].name_any() != records[index].name_any());
        }
    }
    assert(written =~= records.update(index, record));
}

/// The names of a listing stay different where every record keeps its name.
proof fn lemma_names_kept(before: Seq<BenchmarkView>, after: Seq<BenchmarkView>)
    requires
        names_differ(before),
        after.len() == before.len(),
        forall|i: int|
            0 <= i < before.len() ==> (#[trigger] after[i]).name_any() == before[i].name_any(),
    ensures
        names_differ(after),
{
    assert forall|i: int, j: int|
        0 <= i < after.len() && 0 <= j < after.len() && i != j implies (
    #[trigger] after[i]).name_any() != (#[trigger] after[j]).name_any() by {
        assert(before[i].name_any() != before[j].name_any());
    }
}

/// In a sound listing the position of admission is the next place, unless
/// the queue is empty while a record waits to be torn down.
pub proof fn lemma_admission_takes_next_place(cluster: Cluster)
    requires
        cluster.is_sound(),
        is_settled(cluster.records) || queue_positions(cluster.records).len() > 0,
    ensures
        admission_position(cluster.records) == occupied(held_slots(cluster.records)),
{
    let records = cluster.records;
    let positions = queue_positions(records);
    let queued = queue_slots(records);
    let held = held_slots(records);
    let places = occupied(held);
    lemma_positions_counted(records);
    if is_settled(records) {
        lemma_settled_slots(records);
        lemma_dense_iff_prefix(records);
        lemma_admission_goes_last(records);
    } else {
        positions.to_multiset_ensures();
        lemma_next_position_is_least_above(positions);
        assert forall|at: int| 0 <= at < positions.len() implies positions[at] < places by {
            let v = positions[at];
            assert(positions.contains(v));
            assert(positions.to_multiset().count(v) > 0);
            assert(positions.to_multiset().count(v) == count_at(queued, v));
            lemma_count_positive(queued, v);
            let i = choose|i: int| 0 <= i < queued.len() && queued[i] == Some(v);
            assert(held[i] == Some(v));
            lemma_count_positive(held, v);
            assert(count_at(held, v) == if v < places {
                1nat
            } else {
                0nat
            });
        }
        assert(positions[0] < places);
        let top = (places - 1) as nat;
        assert(count_at(held, top) == if top < places {
            1nat
        } else {
            0nat
        });
        lemma_count_positive(held, top);
        let j = choose|j: int| 0 <= j < held.len() && held[j] == Some(top);
        if !records[j].is_queued() {
            assert(is_under_way(records[j]));
            let first = positions[0];
            assert(positions.contains(first));
            assert(positions.to_multiset().count(first) > 0);
            assert(positions.to_multiset().count(first) == count_at(queued, first));
            lemma_count_positive(queued, first);
            let i = choose|i: int| 0 <= i < queued.len() && queued[i] == Some(first);
            assert(held[i] == Some(first));
            lemma_head_is_held_once(cluster, i, j);
        }
        assert(queued[j] == Some(top));
        lemma_count_positive(queued, top);
        assert(positions.to_multiset().count(top) == count_at(queued, top));
        assert(positions.contains(top));
        let at = choose|at: int| 0 <= at < positions.len() && positions[at] == top;
        assert(positions[at] < next_position(positions));
    }
}

/// Admission keeps the cluster sound.
proof fn lemma_admit_keeps_sound(cluster: Cluster, index: int, now: EventTime)
    requires
        cluster.is_sound(),
        0 <= index < cluster.records.len(),
        cluster.records[index].status is None,
        is_settled(cluster.records) || queue_positions(cluster.records).len() > 0,
        admission_position(cluster.records) <= u32::MAX,
    ensures
        (Step::Reconcile { index, now }).after(cluster).is_sound(),
        (Step::Reconcile { index, now }).after(cluster).records == cluster.records.update(
            index,
            admitted(cluster.records[index], admission_position(cluster.records)),
        ),
        (Step::Reconcile { index, now }).after(cluster).cell == cluster.cell,
{
    let records = cluster.records;
    let position = admission_position(records);
    let effects = records[index].reconcile_effects(cluster.cell);
    let after = cluster.after_effects(effects, now);
    assert(effects.len() == 1);
    assert(after == cluster.after_effect(effects[0], now)) by {
        reveal_with_fuel(Cluster::after_effects_from, 3);
    }
    lemma_write_by_name(records, index, after.records, admitted(records[index], position));
    lemma_names_kept(records, after.records);
    lemma_admission_takes_next_place(cluster);
    let slots = held_slots(records);
    assert(held_slots(after.records) =~= slots.update(index, Some(position)));
    lemma_count_update(slots, index, Some(position));
    assert forall|v: nat| #[trigger]
        count_at(held_slots(after.records), v) == if v < occupied(held_slots(after.records)) {
            1nat
        } else {
            0nat
        } by {
        assert(count_at(slots, v) == if v < occupied(slots) {
            1nat
        } else {
            0nat
        });
    }
    assert forall|i: int|
        0 <= i < after.records.len() && is_under_way(
            #[trigger] after.records[i],
        ) implies after.records[i].status->0.queue_position == 0 by {
        assert(i != index);
        assert(is_under_way(records[i]));
    }
}

/// The listing closes up behind a record that has given up its place.
proof fn lemma_exit_keeps_sound(
    before: Seq<BenchmarkView>,
    left: Seq<BenchmarkView>,
    exiting: nat,
)
    requires
        is_prefix(held_slots(before)),
        runs_at_head(left),
        names_differ(left),
        occupied(held_slots(left)) + 1 == occupied(held_slots(before)),
        forall|v: nat| #[trigger]
            count_at(held_slots(left), v) + (if v == exiting {
                1nat
            } else {
                0nat
            }) == count_at(held_slots(before), v),
    ensures
        is_prefix(held_slots(reorder(left, exiting))),
        runs_at_head(reorder(left, exiting)),
        names_differ(reorder(left, exiting)),
{
    let after = reorder(left, exiting);
    lemma_exit_leaves_gap(held_slots(before), held_slots(left), exiting);
    assert forall|i: int| 0 <= i < left.len() implies held_slots(after)[i] == close_gap(
        held_slots(left),
        exiting,
    )[i] by {
        assert(after[i] == moved_up(left[i], exiting));
        if holds_place(left[i]) && left[i].status->0.queue_position > exiting {
            assert(!is_under_way(left[i]));
        }
    }
    assert(held_slots(after) =~= close_gap(held_slots(left), exiting));
    lemma_close_gap_restores_prefix(held_slots(left), exiting);
    lemma_names_kept(left, after);
    assert forall|i: int|
        0 <= i < after.len() && is_under_way(
            #[trigger] after[i],
        ) implies after[i].status->0.queue_position == 0 by {
        assert(after[i] == moved_up(left[i], exiting));
        assert(is_under_way(left[i]));
    }
}

/// Completion keeps the cluster sound.
proof fn lemma_complete_keeps_sound(cluster: Cluster, index: int, now: EventTime)
    requires
        cluster.is_sound(),
        0 <= index < cluster.records.len(),
        cluster.records[index].status matches Some(status) && status.state
            == BenchmarkState::Done,
    ensures
        (Step::Reconcile { index, now }).after(cluster).is_sound(),
        (Step::Reconcile { index, now }).after(cluster).records == reorder(
            cluster.records.update(
                index,
                with_state(cluster.records[index], BenchmarkState::Completed),
            ),
            cluster.records[index].status->0.queue_position as nat,
        ),
{
    let records = cluster.records;
    let exiting = records[index].status->0.queue_position as nat;
    let effects = records[index].reconcile_effects(cluster.cell);
    let after = cluster.after_effects(effects, now);
    let completed = with_state(records[index], BenchmarkState::Completed);
    let written = cluster.after_effect(effects[2], now);
    assert(effects.len() == 6);
    assert(after.records == reorder(written.records, exiting)) by {
        reveal_with_fuel(Cluster::after_effects_from, 8);
    }
    assert forall|i: int| 0 <= i < records.len() implies #[trigger] written.records[i]
        == if records[i].name_any() == records[index].name_any() {
        completed
    } else {
        records[i]
    } by {
        if i != index {
            assert(records[i].name_any() != records[index].name_any());
        }
    }
    lemma_write_by_name(records, index, written.records, completed);
    let left = written.records;
    lemma_names_kept(records, left);
    let slots = held_slots(records);
    assert(held_slots(left) =~= slots.update(index, None));
    lemma_count_update(slots, index, None);
    assert forall|i: int|
        0 <= i < left.len() && is_under_way(
            #[trigger] left[i],
        ) implies left[i].status->0.queue_position == 0 by {
        assert(i != index);
        assert(is_under_way(records[i]));
    }
    lemma_exit_keeps_sound(records, left, exiting);
}

/// The listing after a pass of the reconciler over the record at `index`:
/// a record without status is admitted, a `Done` record is completed and
/// the queue closes up behind it, and nothing else is written.
pub open spec fn reconciled(records: Seq<BenchmarkView>, index: int) -> Seq<BenchmarkView> {
    match records[index].status {
        None => records.update(index, admitted(records[index], admission_position(records))),
        Some(status) => if status.state == BenchmarkState::Done {
            reorder(
                records.update(index, with_state(records[index], BenchmarkState::Completed)),
                status.queue_position as nat,
            )
        } else {
            records
        },
    }
}

/// A pass of the reconciler keeps the cluster sound, and writes what
/// `reconciled` says.
pub proof fn lemma_reconcile_keeps_sound(cluster: Cluster, index: int, now: EventTime)
    requires
        cluster.is_sound(),
        (Step::Reconcile { index, now }).is_enabled(cluster),
    ensures
        (Step::Reconcile { index, now }).after(cluster).is_sound(),
        (Step::Reconcile { index, now }).after(cluster).records == reconciled(
            cluster.records,
            index,
        ),
{
    let record = cluster.records[index];
    let effects = record.reconcile_effects(cluster.cell);
    match record.status {
        None => {
            lemma_admit_keeps_sound(cluster, index, now);
        },
        Some(status) => match status.state {
            BenchmarkState::Pending => {
                if record.is_due(cluster.cell) {
                    let selected = cluster.after_effect(effects[0], now);
                    lemma_launches_change_nothing(selected, effects, 1, now);
                    assert(cluster.after_effects(effects, now) == selected) by {
                        reveal_with_fuel(Cluster::after_effects_from, 2);
                    }
                    assert(selected.records == cluster.records);
                } else {
                    assert(cluster.after_effects(effects, now) == cluster);
                }
            },
            BenchmarkState::Running => {
                assert(cluster.after_effects(effects, now).records == cluster.records) by {
                    reveal_with_fuel(Cluster::after_effects_from, 3);
                }
            },
            BenchmarkState::Done => {
                lemma_complete_keeps_sound(cluster, index, now);
            },
            BenchmarkState::Completed => {
                assert(cluster.after_effects(effects, now) == cluster);
            },
        },
    }
}

/// The finalizer keeps the cluster sound, and the listing that it leaves is
/// the listing without the record, closed up behind it.
pub proof fn lemma_finalize_keeps_sound(cluster: Cluster, index: int, now: EventTime)
    requires
        cluster.is_sound(),
        (Step::Finalize { index, now }).is_enabled(cluster),
    ensures
        (Step::Finalize { index, now }).after(cluster).is_sound(),
        (Step::Finalize { index, now }).after(cluster).records == match cluster.records[index].status {
            Some(status) => reorder(
                cluster.records.remove(index),
                status.queue_position as nat,
            ),
            None => cluster.records.remove(index),
        },
{
    let records = cluster.records;
    let record = records[index];
    let effects = record.cleanup_effects();
    let cleaned = cluster.after_effects(effects, now);
    let left = records.remove(index);
    let slots = held_slots(records);
    assert(held_slots(left) =~= slots.remove(index));
    lemma_count_remove(slots, index);
    assert(names_differ(left)) by {
        assert forall|i: int, j: int|
            0 <= i < left.len() && 0 <= j < left.len() && i != j implies (
        #[trigger] left[i]).name_any() != (#[trigger] left[j]).name_any() by {
            let from_i = if i < index {
                i
            } else {
                i + 1
            };
            let from_j = if j < index {
                j
            } else {
                j + 1
            };
            assert(left[i] == records[from_i]);
            assert(left[j] == records[from_j]);
        }
    }
    assert(runs_at_head(left)) by {
        assert forall|i: int|
            0 <= i < left.len() && is_under_way(
                #[trigger] left[i],
            ) implies left[i].status->0.queue_position == 0 by {
            let from = if i < index {
                i
            } else {
                i + 1
            };
            assert(left[i] == records[from]);
            assert(is_under_way(records[from]));
        }
    }
    match record.status {
        None => {
            assert(cleaned.records == records) by {
                reveal_with_fuel(Cluster::after_effects_from, 2);
            }
            assert forall|v: nat| #[trigger]
                count_at(held_slots(left), v) == if v < occupied(held_slots(left)) {
                    1nat
                } else {
                    0nat
                } by {
                assert(count_at(slots, v) == if v < occupied(slots) {
                    1nat
                } else {
                    0nat
                });
            }
        },
        Some(status) => {
            let exiting = status.queue_position as nat;
            assert(cleaned.records == reorder(records, exiting)) by {
                reveal_with_fuel(Cluster::after_effects_from, 4);
            }
            assert(reorder(records, exiting).remove(index) =~= reorder(left, exiting));
            if status.state == BenchmarkState::Completed {
                assert forall|i: int| 0 <= i < left.len() implies reorder(left, exiting)[i]
                    == left[i] by {
                    let from = if i < index {
                        i
                    } else {
                        i + 1
                    };
                    assert(left[i] == records[from]);
                    assert(!moves_up(records[from], exiting));
                }
                assert(reorder(left, exiting) =~= left);
                assert forall|v: nat| #[trigger]
                    count_at(held_slots(left), v) == if v < occupied(held_slots(left)) {
                        1nat
                    } else {
                        0nat
                    } by {
                    assert(count_at(slots, v) == if v < occupied(slots) {
                        1nat
                    } else {
                        0nat
                    });
                }
            } else {
                lemma_exit_keeps_sound(records, left, exiting);
            }
        },
    }
}

/// A call of a workload keeps the cluster sound.
pub proof fn lemma_call_keeps_sound(cluster: Cluster, state: BenchmarkState, now: EventTime)
    requires
        cluster.is_sound(),
        caller_holds_head(cluster),
        state == BenchmarkState::Running || state == BenchmarkState::Done,
    ensures
        after_call(cluster, state, now).is_sound(),
{
    let records = cluster.records;
    let after = after_call(cluster, state, now).records;
    let slots = held_slots(records);
    assert forall|i: int| 0 <= i < records.len() implies #[trigger] after[i] == if is_addressed(
        records[i],
        cluster.cell.benchmark_name,
        cluster.cell.namespace,
    ) {
        with_state(records[i], state)
    } else {
        records[i]
    } by {}
    assert forall|i: int| 0 <= i < records.len() implies (#[trigger] after[i]).name_any()
        == records[i].name_any() by {}
    lemma_names_kept(records, after);
    assert forall|i: int|
        0 <= i < after.len() && is_under_way(
            #[trigger] after[i],
        ) implies after[i].status->0.queue_position == 0 by {
        if !is_addressed(records[i], cluster.cell.benchmark_name, cluster.cell.namespace) {
            assert(is_under_way(records[i]));
        }
    }
    if exists|i: int|
        0 <= i < records.len() && is_addressed(
            #[trigger] records[i],
            cluster.cell.benchmark_name,
            cluster.cell.namespace,
        ) && records[i].status is Some && !holds_place(records[i]) {
        let i = choose|i: int|
            0 <= i < records.len() && is_addressed(
                #[trigger] records[i],
                cluster.cell.benchmark_name,
                cluster.cell.namespace,
            ) && records[i].status is Some && !holds_place(records[i]);
        assert forall|k: int| 0 <= k < records.len() implies held_slots(after)[k] == slots.update(
            i,
            Some(0nat),
        )[k] by {
            if k != i {
                assert(records[k].name_any() != records[i].name_any());
            }
        }
        assert(held_slots(after) =~= slots.update(i, Some(0nat)));
        lemma_count_update(slots, i, Some(0nat));
        assert forall|v: nat| #[trigger]
            count_at(held_slots(after), v) == if v < occupied(held_slots(after)) {
                1nat
            } else {
                0nat
            } by {
            assert(count_at(slots, v) == if v < occupied(slots) {
                1nat
            } else {
                0nat
            });
        }
    } else {
        assert forall|k: int| 0 <= k < records.len() implies held_slots(after)[k]
            == slots[k] by {}
        assert(held_slots(after) =~= slots);
    }
}

/// A new record keeps the cluster sound.
pub proof fn lemma_create_keeps_sound(cluster: Cluster, record: BenchmarkView)
    requires
        cluster.is_sound(),
        (Step::Create { record }).is_enabled(cluster),
    ensures
        (Step::Create { record }).after(cluster).is_sound(),
{
    let records = cluster.records;
    let after = records.push(record);
    assert(held_slots(after).drop_last() =~= held_slots(records));
    assert(held_slots(after).last() == None::<nat>);
    assert forall|v: nat| #[trigger]
        count_at(held_slots(after), v) == if v < occupied(held_slots(after)) {
            1nat
        } else {
            0nat
        } by {
        assert(count_at(held_slots(records), v) == if v < occupied(held_slots(records)) {
            1nat
        } else {
            0nat
        });
    }
    assert forall|i: int|
        0 <= i < after.len() && is_under_way(
            #[trigger] after[i],
        ) implies after[i].status->0.queue_position == 0 by {
        if i < records.len() {
            assert(after[i] == records[i]);
            assert(is_under_way(records[i]));
        }
    }
    assert forall|i: int, j: int|
        0 <= i < after.len() && 0 <= j < after.len() && i != j implies (
    #[trigger] after[i]).name_any() != (#[trigger] after[j]).name_any() by {
        if i < records.len() {
            assert(after[i] == records[i]);
        }
        if j < records.len() {
            assert(after[j] == records[j]);
        }
    }
}

/// No step leads out of the sound clusters.
pub proof fn lemma_step_keeps_sound(cluster: Cluster, step: Step)
    requires
        cluster.is_sound(),
        step.is_enabled(cluster),
    ensures
        step.after(cluster).is_sound(),
{
    match step {
        Step::Create { record } => lemma_create_keeps_sound(cluster, record),
        Step::Reconcile { index, now } => lemma_reconcile_keeps_sound(cluster, index, now),
        Step::Finalize { index, now } => lemma_finalize_keeps_sound(cluster, index, now),
        Step::Started { now } => lemma_call_keeps_sound(cluster, BenchmarkState::Running, now),
        Step::Done { now } => lemma_call_keeps_sound(cluster, BenchmarkState::Done, now),
    }
}

/// The cluster after a run of steps, the first of them first.
pub open spec fn after_steps(start: Cluster, steps: Seq<Step>) -> Cluster
    decreases steps.len(),
{
    if steps.len() == 0 {
        start
    } else {
        steps.last().after(after_steps(start, steps.drop_last()))
    }
}

/// Each step of the run is enabled in the cluster that it is taken in.
pub open spec fn is_run(start: Cluster, steps: Seq<Step>) -> bool
    decreases steps.len(),
{
    steps.len() == 0 || (is_run(start, steps.drop_last()) && steps.last().is_enabled(
        after_steps(start, steps.drop_last()),
    ))
}

/// Every cluster that a run of enabled steps reaches from a cluster without
/// records is sound. `Step::is_enabled` names the steps that are left out
/// of such a run.
pub proof fn lemma_reached_cluster_is_sound(cell: StateDataView, steps: Seq<Step>)
    requires
        is_run(Cluster { records: Seq::empty(), cell }, steps),
    ensures
        after_steps(Cluster { records: Seq::empty(), cell }, steps).is_sound(),
    decreases steps.len(),
{
    let start = Cluster { records: Seq::empty(), cell };
    if steps.len() == 0 {
        lemma_empty_cluster_is_sound(cell);
    } else {
        lemma_reached_cluster_is_sound(cell, steps.drop_last());
        lemma_step_keeps_sound(after_steps(start, steps.drop_last()), steps.last());
    }
}

/// The cluster without records is sound, whatever the cell holds.
pub proof fn lemma_empty_cluster_is_sound(cell: StateDataView)
    ensures
        (Cluster { records: Seq::empty(), cell }).is_sound(),
{
    let slots = held_slots(Seq::<BenchmarkView>::empty());
    assert(slots =~= Seq::<Option<nat>>::empty());
}

} // verus!
