//! The queue manager: which position a newly admitted record gets, and how
//! the positions close up when a record leaves the queue.

use crate::benchmark::{Benchmark, BenchmarkState, BenchmarkStatus, BenchmarkView};
use crate::density::{
    close_gap, count_at, is_prefix, lemma_close_gap_restores_prefix, lemma_count_positive,
    lemma_count_remove, lemma_count_update, lemma_exit_leaves_gap, occupied,
};
use vstd::multiset::Multiset;
use vstd::prelude::*;

verus! {

/// The positions held in a listing, one for each queued record, in listing
/// order.
pub open spec fn queue_positions(records: Seq<BenchmarkView>) -> Seq<nat>
    decreases records.len(),
{
    if records.len() == 0 {
        Seq::empty()
    } else {
        let rest = queue_positions(records.drop_last());
        match records.last().status {
            Some(status) if status.state.is_queued() => rest.push(status.queue_position as nat),
            _ => rest,
        }
    }
}

/// The multiset `{0, 1, …, k − 1}`.
pub open spec fn first_naturals(k: nat) -> Multiset<nat>
    decreases k,
{
    if k == 0 {
        Multiset::empty()
    } else {
        first_naturals((k - 1) as nat).insert((k - 1) as nat)
    }
}

/// Queue density: the positions of the queued records, taken as a multiset,
/// are `{0, 1, …, k − 1}`, where `k` is the number of queued records. No
/// position is skipped and none is held twice.
pub open spec fn is_dense(records: Seq<BenchmarkView>) -> bool {
    queue_positions(records).to_multiset() =~= first_naturals(queue_positions(records).len())
}

/// The least position that lies above all the given ones: `0` for no
/// position, else one more than the greatest.
pub open spec fn next_position(positions: Seq<nat>) -> nat
    decreases positions.len(),
{
    if positions.len() == 0 {
        0
    } else {
        let rest = next_position(positions.drop_last());
        if positions.last() + 1 > rest {
            positions.last() + 1
        } else {
            rest
        }
    }
}

/// The position that a record admitted into this listing gets.
pub open spec fn admission_position(records: Seq<BenchmarkView>) -> nat {
    next_position(queue_positions(records))
}

/// `next_position` lies above every position, and is reached by one of them
/// unless there is none.
pub proof fn lemma_next_position_is_least_above(positions: Seq<nat>)
    ensures
        forall|i: int| 0 <= i < positions.len() ==> positions[i] < next_position(positions),
        positions.len() == 0 ==> next_position(positions) == 0,
        positions.len() > 0 ==> exists|i: int|
            0 <= i < positions.len() && #[trigger] positions[i] + 1 == next_position(positions),
    decreases positions.len(),
{
    if positions.len() > 0 {
        let rest = positions.drop_last();
        lemma_next_position_is_least_above(rest);
        assert forall|i: int| 0 <= i < positions.len() implies positions[i] < next_position(
            positions,
        ) by {
            if i < rest.len() {
                assert(rest[i] == positions[i]);
            }
        }
        if positions.last() + 1 > next_position(rest) {
            assert(positions[positions.len() - 1] + 1 == next_position(positions));
        } else {
            let i = choose|i: int|
                0 <= i < rest.len() && #[trigger] rest[i] + 1 == next_position(rest);
            assert(positions[i] + 1 == next_position(positions));
        }
    }
}

/// The slot of a record: its position where it is queued.
pub open spec fn queue_slot(record: BenchmarkView) -> Option<nat> {
    if record.is_queued() {
        Some(record.status->0.queue_position as nat)
    } else {
        None
    }
}

/// The slots of a listing.
pub open spec fn queue_slots(records: Seq<BenchmarkView>) -> Seq<Option<nat>> {
    records.map_values(|record: BenchmarkView| queue_slot(record))
}

/// `first_naturals(k)` holds each number below `k` once and nothing else.
pub proof fn lemma_first_naturals(k: nat)
    ensures
        forall|v: nat| #[trigger]
            first_naturals(k).count(v) == if v < k {
                1nat
            } else {
                0nat
            },
        first_naturals(k).len() == k,
    decreases k,
{
    if k > 0 {
        let below = first_naturals((k - 1) as nat);
        lemma_first_naturals((k - 1) as nat);
        vstd::multiset::lemma_insert_len(below, (k - 1) as nat);
        assert forall|v: nat| #[trigger]
            first_naturals(k).count(v) == if v < k {
                1nat
            } else {
                0nat
            } by {
            if v == k - 1 {
                vstd::multiset::lemma_insert_increases_count_by_1(below, v);
            } else {
                vstd::multiset::lemma_insert_other_elements_unchanged(below, (k - 1) as nat, v);
            }
        }
    }
}

/// The queue positions of a listing, counted as a multiset and counted slot
/// by slot, are the same.
pub proof fn lemma_positions_counted(records: Seq<BenchmarkView>)
    ensures
        forall|v: nat| #[trigger]
            queue_positions(records).to_multiset().count(v) == count_at(queue_slots(records), v),
        queue_positions(records).len() == occupied(queue_slots(records)),
    decreases records.len(),
{
    let slots = queue_slots(records);
    if records.len() == 0 {
        assert(queue_positions(records).to_multiset().len() == 0) by {
            queue_positions(records).to_multiset_ensures();
        }
        assert forall|v: nat| #[trigger]
            queue_positions(records).to_multiset().count(v) == count_at(slots, v) by {
            vstd::multiset::lemma_multiset_empty_len(queue_positions(records).to_multiset());
        }
    } else {
        let rest = records.drop_last();
        let before = queue_positions(rest);
        lemma_positions_counted(rest);
        assert(slots.drop_last() =~= queue_slots(rest));
        assert(slots.last() == queue_slot(records.last()));
        before.to_multiset_ensures();
        assert forall|v: nat| #[trigger]
            queue_positions(records).to_multiset().count(v) == count_at(slots, v) by {
            assert(before.to_multiset().count(v) == count_at(queue_slots(rest), v));
            if records.last().is_queued() {
                let held = records.last().status->0.queue_position as nat;
                assert(queue_positions(records) == before.push(held));
                assert(before.push(held).to_multiset() =~= before.to_multiset().insert(held));
                if v == held {
                    vstd::multiset::lemma_insert_increases_count_by_1(before.to_multiset(), v);
                } else {
                    vstd::multiset::lemma_insert_other_elements_unchanged(
                        before.to_multiset(),
                        held,
                        v,
                    );
                }
            }
        }
    }
}

/// Queue density, said slot by slot: the listing is dense exactly where
/// each position below the number of queued records is held once and no
/// other position is held.
pub proof fn lemma_dense_iff_prefix(records: Seq<BenchmarkView>)
    ensures
        is_dense(records) <==> is_prefix(queue_slots(records)),
{
    let positions = queue_positions(records);
    let slots = queue_slots(records);
    lemma_positions_counted(records);
    lemma_first_naturals(positions.len());
    if is_dense(records) {
        assert forall|v: nat| #[trigger]
            count_at(slots, v) == if v < occupied(slots) {
                1nat
            } else {
                0nat
            } by {
            assert(positions.to_multiset().count(v) == first_naturals(positions.len()).count(v));
        }
    }
    if is_prefix(slots) {
        assert forall|v: nat|
            positions.to_multiset().count(v) == first_naturals(positions.len()).count(
                v,
            ) by {
            assert(positions.to_multiset().count(v) == count_at(slots, v));
        }
        assert(positions.to_multiset() =~= first_naturals(positions.len()));
    }
}

/// In a dense listing no two queued records hold the same position, and
/// every position lies below the number of queued records.
pub proof fn lemma_dense_positions_differ(records: Seq<BenchmarkView>, i: int, j: int)
    requires
        is_dense(records),
        0 <= i < records.len(),
        0 <= j < records.len(),
        i != j,
        records[i].is_queued(),
        records[j].is_queued(),
    ensures
        records[i].status->0.queue_position != records[j].status->0.queue_position,
        records[i].status->0.queue_position < queue_positions(records).len(),
{
    let slots = queue_slots(records);
    let v = records[i].status->0.queue_position as nat;
    lemma_dense_iff_prefix(records);
    lemma_positions_counted(records);
    assert(slots[i] == Some(v));
    lemma_count_update(slots, i, None);
    let without = slots.update(i, None);
    assert(count_at(without, v) + 1 == count_at(slots, v));
    assert(count_at(slots, v) == if v < occupied(slots) {
        1nat
    } else {
        0nat
    });
    if records[j].status->0.queue_position == v {
        assert(without[j] == Some(v));
        lemma_count_positive(without, v);
        assert(false);
    }
}

/// In a dense listing the position of admission is the number of queued
/// records: the new record goes to the end of the queue, and to position
/// `0` where the queue is empty.
pub proof fn lemma_admission_goes_last(records: Seq<BenchmarkView>)
    requires
        is_dense(records),
    ensures
        admission_position(records) == queue_positions(records).len(),
{
    let positions = queue_positions(records);
    let k = positions.len();
    lemma_next_position_is_least_above(positions);
    lemma_first_naturals(k);
    positions.to_multiset_ensures();
    if k > 0 {
        let top = (k - 1) as nat;
        assert(first_naturals(k).count(top) == 1);
        assert(positions.contains(top));
        let at = choose|at: int| 0 <= at < positions.len() && positions[at] == top;
        assert(positions[at] < next_position(positions));
        let reached = choose|i: int|
            0 <= i < positions.len() && #[trigger] positions[i] + 1 == next_position(positions);
        assert(positions.contains(positions[reached]));
        assert(first_naturals(k).count(positions[reached]) > 0);
    }
}

/// The record as admission leaves it: `Pending` at the given position.
pub open spec fn admitted(record: BenchmarkView, position: nat) -> BenchmarkView {
    BenchmarkView {
        status: Some(
            BenchmarkStatus { state: BenchmarkState::Pending, queue_position: position as u32 },
        ),
        ..record
    }
}

/// The record with its state replaced; without status it stays as it is.
pub open spec fn with_state(record: BenchmarkView, state: BenchmarkState) -> BenchmarkView {
    match record.status {
        Some(status) => BenchmarkView {
            status: Some(BenchmarkStatus { state: state, queue_position: status.queue_position }),
            ..record
        },
        None => record,
    }
}

/// The record as a reorder leaves it: one place up where it moves.
pub open spec fn moved_up(record: BenchmarkView, exiting: nat) -> BenchmarkView {
    if moves_up(record, exiting) {
        BenchmarkView { status: Some(move_up_patch(record).status), ..record }
    } else {
        record
    }
}

/// The listing as a reorder leaves it.
pub open spec fn reorder(records: Seq<BenchmarkView>, exiting: nat) -> Seq<BenchmarkView> {
    records.map_values(|record: BenchmarkView| moved_up(record, exiting))
}

/// Admission keeps the queue dense: a record without status that is
/// admitted into a dense listing leaves a dense listing behind.
pub proof fn lemma_admission_keeps_density(records: Seq<BenchmarkView>, i: int)
    requires
        is_dense(records),
        0 <= i < records.len(),
        records[i].status is None,
        admission_position(records) <= u32::MAX,
    ensures
        is_dense(records.update(i, admitted(records[i], admission_position(records)))),
{
    let position = admission_position(records);
    let after = records.update(i, admitted(records[i], position));
    lemma_admission_goes_last(records);
    lemma_positions_counted(records);
    lemma_dense_iff_prefix(records);
    lemma_dense_iff_prefix(after);
    let slots = queue_slots(records);
    assert(queue_slots(after) =~= slots.update(i, Some(position)));
    lemma_count_update(slots, i, Some(position));
    assert forall|v: nat| #[trigger]
        count_at(queue_slots(after), v) == if v < occupied(queue_slots(after)) {
            1nat
        } else {
            0nat
        } by {
        assert(count_at(slots, v) == if v < occupied(slots) {
            1nat
        } else {
            0nat
        });
    }
}

/// The queue is dense but for a gap at `exiting`: with one more record at
/// that position the positions would be `{0, 1, …, k}`. This is how a
/// record that leaves a dense queue leaves it behind.
pub open spec fn has_gap_at(records: Seq<BenchmarkView>, exiting: nat) -> bool {
    queue_positions(records).push(exiting).to_multiset() =~= first_naturals(
        queue_positions(records).len() + 1,
    )
}

/// Every queued record behind `exiting` is `Pending`, so that a reorder
/// moves it. A `Running` record does not move.
pub open spec fn all_behind_are_pending(records: Seq<BenchmarkView>, exiting: nat) -> bool {
    forall|i: int|
        0 <= i < records.len() && (#[trigger] records[i]).is_queued()
            && records[i].status->0.queue_position > exiting ==> records[i].status->0.state
            == BenchmarkState::Pending
}

/// A queue with a gap, said slot by slot: every position up to the number
/// of queued records is held once, but for `exiting`, which nobody holds.
pub proof fn lemma_gap_counted(records: Seq<BenchmarkView>, exiting: nat)
    ensures
        has_gap_at(records, exiting) <==> (exiting <= occupied(queue_slots(records)) && forall|
            v: nat,
        | #[trigger]
            count_at(queue_slots(records), v) == if v <= occupied(queue_slots(records)) && v
                != exiting {
                1nat
            } else {
                0nat
            }),
{
    let positions = queue_positions(records);
    let slots = queue_slots(records);
    let k = positions.len();
    lemma_positions_counted(records);
    lemma_first_naturals(k + 1);
    positions.to_multiset_ensures();
    assert(positions.push(exiting).to_multiset() =~= positions.to_multiset().insert(exiting));
    vstd::multiset::lemma_insert_increases_count_by_1(positions.to_multiset(), exiting);
    assert forall|v: nat| v != exiting implies positions.push(exiting).to_multiset().count(v)
        == positions.to_multiset().count(v) by {
        vstd::multiset::lemma_insert_other_elements_unchanged(
            positions.to_multiset(),
            exiting,
            v,
        );
    }
    if has_gap_at(records, exiting) {
        assert(positions.push(exiting).to_multiset().count(exiting) == first_naturals(
            k + 1,
        ).count(exiting));
        assert forall|v: nat| #[trigger]
            count_at(slots, v) == if v <= occupied(slots) && v != exiting {
                1nat
            } else {
                0nat
            } by {
            assert(positions.push(exiting).to_multiset().count(v) == first_naturals(k + 1).count(
                v,
            ));
            assert(positions.to_multiset().count(v) == count_at(slots, v));
        }
    }
    if exiting <= occupied(slots) && forall|v: nat| #[trigger]
        count_at(slots, v) == if v <= occupied(slots) && v != exiting {
            1nat
        } else {
            0nat
        } {
        assert forall|v: nat|
            positions.push(exiting).to_multiset().count(v) == first_naturals(k + 1).count(
                v,
            ) by {
            assert(positions.to_multiset().count(v) == count_at(slots, v));
        }
        assert(positions.push(exiting).to_multiset() =~= first_naturals(k + 1));
    }
}

/// Reorder restores density: where the queue is dense but for a gap at the
/// exiting position and every queued record behind the gap is `Pending`,
/// the queue is dense after the reorder.
pub proof fn lemma_reorder_restores_density(records: Seq<BenchmarkView>, exiting: nat)
    requires
        has_gap_at(records, exiting),
        all_behind_are_pending(records, exiting),
    ensures
        is_dense(reorder(records, exiting)),
{
    lemma_gap_counted(records, exiting);
    lemma_reorder_closes_gap(records, exiting);
    lemma_close_gap_restores_prefix(queue_slots(records), exiting);
    lemma_dense_iff_prefix(reorder(records, exiting));
}

/// A queued record that is deleted from a dense listing leaves a gap at its
/// position.
pub proof fn lemma_deletion_leaves_gap(records: Seq<BenchmarkView>, gone: int)
    requires
        is_dense(records),
        0 <= gone < records.len(),
        records[gone].is_queued(),
    ensures
        has_gap_at(records.remove(gone), records[gone].status->0.queue_position as nat),
{
    let exiting = records[gone].status->0.queue_position as nat;
    let left = records.remove(gone);
    let slots = queue_slots(records);
    lemma_dense_iff_prefix(records);
    assert(queue_slots(left) =~= slots.remove(gone));
    lemma_count_remove(slots, gone);
    lemma_exit_leaves_gap(slots, queue_slots(left), exiting);
    lemma_gap_counted(left, exiting);
}

/// A queued record of a dense listing that comes to `Completed` leaves a gap
/// at its position.
pub proof fn lemma_completion_leaves_gap(records: Seq<BenchmarkView>, done: int)
    requires
        is_dense(records),
        0 <= done < records.len(),
        records[done].is_queued(),
    ensures
        has_gap_at(
            records.update(done, with_state(records[done], BenchmarkState::Completed)),
            records[done].status->0.queue_position as nat,
        ),
{
    let exiting = records[done].status->0.queue_position as nat;
    let left = records.update(done, with_state(records[done], BenchmarkState::Completed));
    let slots = queue_slots(records);
    lemma_dense_iff_prefix(records);
    assert(queue_slots(left) =~= slots.update(done, None));
    lemma_count_update(slots, done, None);
    lemma_exit_leaves_gap(slots, queue_slots(left), exiting);
    lemma_gap_counted(left, exiting);
}

/// The slots of a listing after a reorder, where every queued record above
/// the exiting position is `Pending`.
pub proof fn lemma_reorder_closes_gap(records: Seq<BenchmarkView>, exiting: nat)
    requires
        all_behind_are_pending(records, exiting),
    ensures
        queue_slots(reorder(records, exiting)) == close_gap(queue_slots(records), exiting),
{
    assert(queue_slots(reorder(records, exiting)) =~= close_gap(queue_slots(records), exiting));
}

/// Reorder restores density after a deletion: where a queued record of a
/// dense listing is deleted and the queue is reordered on its position, the
/// listing is dense again. Every queued record behind the deleted one has
/// to be `Pending`.
pub proof fn lemma_reorder_restores_density_after_deletion(
    records: Seq<BenchmarkView>,
    gone: int,
)
    requires
        is_dense(records),
        0 <= gone < records.len(),
        records[gone].is_queued(),
        all_behind_are_pending(records, records[gone].status->0.queue_position as nat),
    ensures
        is_dense(reorder(records.remove(gone), records[gone].status->0.queue_position as nat)),
{
    let exiting = records[gone].status->0.queue_position as nat;
    let left = records.remove(gone);
    lemma_deletion_leaves_gap(records, gone);
    assert forall|i: int|
        0 <= i < left.len() && (#[trigger] left[i]).is_queued() && left[i].status->0.queue_position
            > exiting implies left[i].status->0.state == BenchmarkState::Pending by {
        let from = if i < gone {
            i
        } else {
            i + 1
        };
        assert(left[i] == records[from]);
    }
    lemma_reorder_restores_density(left, exiting);
}

/// Reorder restores density after a completion: where a queued record of a
/// dense listing has come to `Completed` and the queue is reordered on its
/// position, the listing is dense again. Every queued record behind the
/// completed one has to be `Pending`.
pub proof fn lemma_reorder_restores_density_after_completion(
    records: Seq<BenchmarkView>,
    done: int,
)
    requires
        is_dense(records),
        0 <= done < records.len(),
        records[done].is_queued(),
        all_behind_are_pending(records, records[done].status->0.queue_position as nat),
    ensures
        is_dense(
            reorder(
                records.update(done, with_state(records[done], BenchmarkState::Completed)),
                records[done].status->0.queue_position as nat,
            ),
        ),
{
    let exiting = records[done].status->0.queue_position as nat;
    let left = records.update(done, with_state(records[done], BenchmarkState::Completed));
    lemma_completion_leaves_gap(records, done);
    assert forall|i: int|
        0 <= i < left.len() && (#[trigger] left[i]).is_queued() && left[i].status->0.queue_position
            > exiting implies left[i].status->0.state == BenchmarkState::Pending by {
        assert(i != done);
        assert(left[i] == records[i]);
    }
    lemma_reorder_restores_density(left, exiting);
}

/// A status to be written on the record of the given name.
#[derive(Clone, Debug, PartialEq, Eq)]
pub struct StatusPatch {
    pub name: String,
    pub status: BenchmarkStatus,
}

pub struct StatusPatchView {
    pub name: Seq<char>,
    pub status: BenchmarkStatus,
}

impl View for StatusPatch {
    type V = StatusPatchView;

    open spec fn view(&self) -> StatusPatchView {
        StatusPatchView { name: self.name@, status: self.status }
    }
}

impl DeepView for StatusPatch {
    type V = StatusPatchView;

    open spec fn deep_view(&self) -> StatusPatchView {
        self@
    }
}

/// The record moves up when the holder of `exiting` leaves the queue: it is
/// `Pending` and its position lies above `exiting`.
pub open spec fn moves_up(record: BenchmarkView, exiting: nat) -> bool {
    record.status matches Some(status) && status.state == BenchmarkState::Pending
        && status.queue_position > exiting
}

/// The patch that moves a record up by one place.
pub open spec fn move_up_patch(record: BenchmarkView) -> StatusPatchView {
    StatusPatchView {
        name: record.name_any(),
        status: BenchmarkStatus {
            state: BenchmarkState::Pending,
            queue_position: (record.status->0.queue_position - 1) as u32,
        },
    }
}

/// Where a patch for `position` enters a list of patches: in front of the
/// first one whose position does not exceed it.
pub open spec fn entry_index(patches: Seq<StatusPatchView>, position: nat) -> nat
    decreases patches.len(),
{
    if patches.len() == 0 || patches[0].status.queue_position <= position {
        0
    } else {
        1 + entry_index(patches.drop_first(), position)
    }
}

/// The patches of a reorder, in the order in which they are to be written:
/// one for each record that moves up, by descending position, and among
/// records of one position the one listed later first.
pub open spec fn reorder_patches(records: Seq<BenchmarkView>, exiting: nat) -> Seq<
    StatusPatchView,
>
    decreases records.len(),
{
    if records.len() == 0 {
        Seq::empty()
    } else {
        let rest = reorder_patches(records.drop_last(), exiting);
        if moves_up(records.last(), exiting) {
            let patch = move_up_patch(records.last());
            rest.insert(entry_index(rest, patch.status.queue_position as nat) as int, patch)
        } else {
            rest
        }
    }
}

/// `entry_index` is the one index that has only greater positions in front
/// of it and none at it.
pub proof fn lemma_entry_index_is(patches: Seq<StatusPatchView>, position: nat, index: int)
    requires
        0 <= index <= patches.len(),
        forall|k: int| 0 <= k < index ==> patches[k].status.queue_position > position,
        index < patches.len() ==> patches[index].status.queue_position <= position,
    ensures
        entry_index(patches, position) == index,
    decreases patches.len(),
{
    if index > 0 {
        let rest = patches.drop_first();
        assert(patches[0].status.queue_position > position);
        assert forall|k: int| 0 <= k < index - 1 implies rest[k].status.queue_position
            > position by {
            assert(rest[k] == patches[k + 1]);
        }
        lemma_entry_index_is(rest, position, index - 1);
    }
}

/// A record can be admitted into the listing: no queued record holds the
/// last position that a `u32` can count.
pub open spec fn has_room(records: Seq<BenchmarkView>) -> bool {
    forall|i: int|
        0 <= i < records.len() && (#[trigger] records[i]).is_queued()
            ==> records[i].status->0.queue_position < u32::MAX
}

impl Benchmark {
    /// Whether a record can be admitted into the listing.
    pub fn has_room(records: &Vec<Benchmark>) -> (room: bool)
        ensures
            room == has_room(records.deep_view()),
    {
        let mut i: usize = 0;
        while i < records.len()
            invariant
                i <= records.len(),
                forall|k: int|
                    0 <= k < i && (#[trigger] records.deep_view()[k]).is_queued()
                        ==> records.deep_view()[k].status->0.queue_position < u32::MAX,
            decreases records.len() - i,
        {
            if let Some(status) = &records[i].status {
                if status.state.in_queue() && status.queue_position == u32::MAX {
                    assert(records.deep_view()[i as int].is_queued());
                    return false;
                }
            }
            i += 1;
        }
        true
    }

    /// Admission: the status for a record that enters the queue behind the
    /// records of `records`, a listing of its scope. Its state is `Pending`
    /// and its position is one more than the greatest position that a
    /// `Pending` or `Running` record of the listing holds, or `0` where no
    /// record is queued.
    ///
    /// No queued record may hold the last position that a `u32` can count.
    pub fn admission_status(records: &Vec<Benchmark>) -> (status: BenchmarkStatus)
        requires
            has_room(records.deep_view()),
        ensures
            status.state == BenchmarkState::Pending,
            status.queue_position == admission_position(records.deep_view()),
    {
        let mut position: u32 = 0;
        let mut i: usize = 0;
        while i < records.len()
            invariant
                i <= records.len(),
                has_room(records.deep_view()),
                position == admission_position(records.deep_view().take(i as int)),
            decreases records.len() - i,
        {
            proof {
                let upto = records.deep_view().take(i + 1);
                assert(upto.drop_last() =~= records.deep_view().take(i as int));
                assert(upto.last() == records[i as int]@);
                assert(records.deep_view()[i as int] == records[i as int]@);
                let before = queue_positions(upto.drop_last());
                if records[i as int]@.is_queued() {
                    let held = records[i as int].status->0.queue_position as nat;
                    assert(queue_positions(upto) == before.push(held));
                    assert(before.push(held).drop_last() =~= before);
                } else {
                    assert(queue_positions(upto) == before);
                }
            }
            if let Some(status) = &records[i].status {
                if status.state.in_queue() && status.queue_position + 1 > position {
                    position = status.queue_position + 1;
                }
            }
            i += 1;
        }
        proof {
            assert(records.deep_view().take(records.len() as int) =~= records.deep_view());
        }
        BenchmarkStatus { state: BenchmarkState::Pending, queue_position: position }
    }

    /// Reorder: the patches that close the queue up after the holder of
    /// `current_queue_pos` has left it. Every `Pending` record of the listing
    /// whose position lies above `current_queue_pos` moves up by one place.
    /// The patches come by descending position, so that the record that
    /// reaches the head of the queue is written last.
    pub fn reorder_pending_benchmarks(records: &Vec<Benchmark>, current_queue_pos: u32) -> (patches:
        Vec<StatusPatch>)
        ensures
            patches.deep_view() == reorder_patches(records.deep_view(), current_queue_pos as nat),
    {
        let mut patches: Vec<StatusPatch> = Vec::new();
        let mut i: usize = 0;
        while i < records.len()
            invariant
                i <= records.len(),
                patches.deep_view() == reorder_patches(
                    records.deep_view().take(i as int),
                    current_queue_pos as nat,
                ),
            decreases records.len() - i,
        {
            proof {
                let upto = records.deep_view().take(i + 1);
                assert(upto.drop_last() =~= records.deep_view().take(i as int));
                assert(upto.last() == records[i as int]@);
            }
            if let Some(status) = &records[i].status {
                if status.state == BenchmarkState::Pending && status.queue_position
                    > current_queue_pos {
                    let patch = StatusPatch {
                        name: records[i].name_any(),
                        status: BenchmarkStatus {
                            state: BenchmarkState::Pending,
                            queue_position: status.queue_position - 1,
                        },
                    };
                    let at = Self::entry_of(&patches, patch.status.queue_position);
                    let ghost before = patches.deep_view();
                    patches.insert(at, patch);
                    assert(patches.deep_view() =~= before.insert(
                        at as int,
                        move_up_patch(records[i as int]@),
                    ));
                }
            }
            i += 1;
        }
        proof {
            assert(records.deep_view().take(records.len() as int) =~= records.deep_view());
        }
        patches
    }

    /// The index in front of the first patch whose position does not exceed
    /// `position`.
    fn entry_of(patches: &Vec<StatusPatch>, position: u32) -> (index: usize)
        ensures
            index == entry_index(patches.deep_view(), position as nat),
            index <= patches.len(),
    {
        let mut index: usize = 0;
        while index < patches.len() && patches[index].status.queue_position > position
            invariant
                index <= patches.len(),
                forall|k: int| 0 <= k < index ==> patches[k].status.queue_position > position,
            decreases patches.len() - index,
        {
            index += 1;
        }
        proof {
            lemma_entry_index_is(patches.deep_view(), position as nat, index as int);
        }
        index
    }
}

} // verus!
