//! Writing the patches of a reorder: in which order they come, and what the
//! listing looks like once they are written.

use crate::benchmark::BenchmarkView;
use crate::density::{count_at, lemma_count_positive, lemma_count_update, occupied};
use crate::queue::{
    entry_index, has_gap_at, lemma_gap_counted, move_up_patch, moved_up, moves_up, queue_slot,
    queue_slots, reorder, reorder_patches, StatusPatchView,
};
use vstd::prelude::*;

verus! {

/// The names of a listing differ from record to record, as they do within
/// one namespace.
pub open spec fn names_differ(records: Seq<BenchmarkView>) -> bool {
    forall|i: int, j: int|
        0 <= i < records.len() && 0 <= j < records.len() && i != j ==> (#[trigger] records[i]).name_any()
            != (#[trigger] records[j]).name_any()
}

/// The record after a patch was written: the record of the patch's name
/// gets the patch's status, any other stays as it is.
pub open spec fn patched(record: BenchmarkView, patch: StatusPatchView) -> BenchmarkView {
    if record.name_any() == patch.name {
        BenchmarkView { status: Some(patch.status), ..record }
    } else {
        record
    }
}

/// The listing after one patch was written.
pub open spec fn apply_patch(records: Seq<BenchmarkView>, patch: StatusPatchView) -> Seq<
    BenchmarkView,
> {
    records.map_values(|record: BenchmarkView| patched(record, patch))
}

/// The listing after the patches were written one after the other.
pub open spec fn apply_patches(records: Seq<BenchmarkView>, patches: Seq<StatusPatchView>) -> Seq<
    BenchmarkView,
>
    decreases patches.len(),
{
    if patches.len() == 0 {
        records
    } else {
        apply_patches(apply_patch(records, patches.first()), patches.drop_first())
    }
}

/// `entry_index` has only greater positions in front of it and none at it.
pub proof fn lemma_entry_index_bounds(patches: Seq<StatusPatchView>, position: nat)
    ensures
        entry_index(patches, position) <= patches.len(),
        forall|k: int|
            0 <= k < entry_index(patches, position) ==> (#[trigger] patches[k]).status.queue_position
                > position,
        entry_index(patches, position) < patches.len() ==> patches[entry_index(
            patches,
            position,
        ) as int].status.queue_position <= position,
    decreases patches.len(),
{
    if !(patches.len() == 0 || patches[0].status.queue_position <= position) {
        let rest = patches.drop_first();
        lemma_entry_index_bounds(rest, position);
        assert forall|k: int| 0 <= k < entry_index(patches, position) implies (
        #[trigger] patches[k]).status.queue_position > position by {
            if k > 0 {
                assert(patches[k] == rest[k - 1]);
            }
        }
        if entry_index(patches, position) < patches.len() {
            assert(patches[entry_index(patches, position) as int] == rest[entry_index(
                rest,
                position,
            ) as int]);
        }
    }
}

/// The patches of a reorder come by descending position: the record that
/// ends nearest the head of the queue is written last.
pub proof fn lemma_reorder_patches_descend(records: Seq<BenchmarkView>, exiting: nat)
    ensures
        forall|a: int, b: int|
            0 <= a <= b < reorder_patches(records, exiting).len() ==> (#[trigger] reorder_patches(
                records,
                exiting,
            )[a]).status.queue_position >= (#[trigger] reorder_patches(
                records,
                exiting,
            )[b]).status.queue_position,
    decreases records.len(),
{
    if records.len() > 0 {
        let rest = reorder_patches(records.drop_last(), exiting);
        lemma_reorder_patches_descend(records.drop_last(), exiting);
        if moves_up(records.last(), exiting) {
            let patch = move_up_patch(records.last());
            let position = patch.status.queue_position as nat;
            let at = entry_index(rest, position) as int;
            lemma_entry_index_bounds(rest, position);
            let all = rest.insert(at, patch);
            assert(all == reorder_patches(records, exiting));
            assert forall|a: int, b: int| 0 <= a <= b < all.len() implies (
            #[trigger] all[a]).status.queue_position >= (
            #[trigger] all[b]).status.queue_position by {
                if a < at && b > at {
                    assert(all[a] == rest[a]);
                    assert(all[b] == rest[b - 1]);
                } else if a < at && b < at {
                    assert(all[a] == rest[a]);
                    assert(all[b] == rest[b]);
                } else if a > at {
                    assert(all[a] == rest[a - 1]);
                    assert(all[b] == rest[b - 1]);
                } else if a == at && b > at {
                    assert(all[b] == rest[b - 1]);
                    assert(rest[at].status.queue_position >= rest[b - 1].status.queue_position);
                } else if a < at && b == at {
                    assert(all[a] == rest[a]);
                }
            }
        }
    }
}

/// The record that comes to the head of the queue is written last: behind
/// a patch for position `0` only patches for position `0` follow.
pub proof fn lemma_head_is_written_last(records: Seq<BenchmarkView>, exiting: nat, a: int, b: int)
    requires
        0 <= a <= b < reorder_patches(records, exiting).len(),
        reorder_patches(records, exiting)[a].status.queue_position == 0,
    ensures
        reorder_patches(records, exiting)[b].status.queue_position == 0,
{
    lemma_reorder_patches_descend(records, exiting);
}

/// The patch is the one that moves this record up.
pub open spec fn is_patch_of(record: BenchmarkView, exiting: nat, patch: StatusPatchView) -> bool {
    moves_up(record, exiting) && patch == move_up_patch(record)
}

/// The patch moves one of the records of the listing up.
pub open spec fn has_source(
    records: Seq<BenchmarkView>,
    exiting: nat,
    patch: StatusPatchView,
) -> bool {
    exists|i: int| 0 <= i < records.len() && is_patch_of(#[trigger] records[i], exiting, patch)
}

proof fn lemma_source_stays(records: Seq<BenchmarkView>, exiting: nat, patch: StatusPatchView)
    requires
        records.len() > 0,
        has_source(records.drop_last(), exiting, patch),
    ensures
        has_source(records, exiting, patch),
{
    let front = records.drop_last();
    let i = choose|i: int| 0 <= i < front.len() && is_patch_of(#[trigger] front[i], exiting, patch);
    assert(front[i] == records[i]);
    assert(is_patch_of(records[i], exiting, patch));
}

/// Every patch of a reorder moves one of the records up.
pub proof fn lemma_reorder_patches_have_sources(records: Seq<BenchmarkView>, exiting: nat)
    ensures
        forall|k: int|
            0 <= k < reorder_patches(records, exiting).len() ==> has_source(
                records,
                exiting,
                #[trigger] reorder_patches(records, exiting)[k],
            ),
    decreases records.len(),
{
    if records.len() > 0 {
        let front = records.drop_last();
        let rest = reorder_patches(front, exiting);
        let all = reorder_patches(records, exiting);
        lemma_reorder_patches_have_sources(front, exiting);
        if moves_up(records.last(), exiting) {
            let patch = move_up_patch(records.last());
            let at = entry_index(rest, patch.status.queue_position as nat) as int;
            lemma_entry_index_bounds(rest, patch.status.queue_position as nat);
            assert(all == rest.insert(at, patch));
            assert forall|k: int| 0 <= k < all.len() implies has_source(
                records,
                exiting,
                #[trigger] all[k],
            ) by {
                if k == at {
                    assert(is_patch_of(records[records.len() - 1], exiting, all[k]));
                } else if k < at {
                    assert(all[k] == rest[k]);
                    lemma_source_stays(records, exiting, rest[k]);
                } else {
                    assert(all[k] == rest[k - 1]);
                    lemma_source_stays(records, exiting, rest[k - 1]);
                }
            }
        } else {
            assert forall|k: int| 0 <= k < all.len() implies has_source(
                records,
                exiting,
                #[trigger] all[k],
            ) by {
                lemma_source_stays(records, exiting, rest[k]);
            }
        }
    }
}

/// Every record that moves up has its patch in the reorder.
pub proof fn lemma_reorder_patches_cover(records: Seq<BenchmarkView>, exiting: nat, i: int)
    requires
        0 <= i < records.len(),
        moves_up(records[i], exiting),
    ensures
        reorder_patches(records, exiting).contains(move_up_patch(records[i])),
    decreases records.len(),
{
    let front = records.drop_last();
    let rest = reorder_patches(front, exiting);
    let all = reorder_patches(records, exiting);
    if moves_up(records.last(), exiting) {
        let patch = move_up_patch(records.last());
        let at = entry_index(rest, patch.status.queue_position as nat) as int;
        lemma_entry_index_bounds(rest, patch.status.queue_position as nat);
        assert(all == rest.insert(at, patch));
        if i == records.len() - 1 {
            assert(all[at] == patch);
        } else {
            assert(front[i] == records[i]);
            lemma_reorder_patches_cover(front, exiting, i);
            let k = choose|k: int| 0 <= k < rest.len() && rest[k] == move_up_patch(records[i]);
            if k < at {
                assert(all[k] == rest[k]);
            } else {
                assert(all[k + 1] == rest[k]);
            }
        }
    } else {
        assert(front[i] == records[i]);
        lemma_reorder_patches_cover(front, exiting, i);
    }
}

/// In a listing of different names no two patches of a reorder carry the
/// same name.
pub proof fn lemma_reorder_patches_names_differ(records: Seq<BenchmarkView>, exiting: nat)
    requires
        names_differ(records),
    ensures
        forall|a: int, b: int|
            0 <= a < reorder_patches(records, exiting).len() && 0 <= b < reorder_patches(
                records,
                exiting,
            ).len() && a != b ==> (#[trigger] reorder_patches(records, exiting)[a]).name != (
            #[trigger] reorder_patches(records, exiting)[b]).name,
    decreases records.len(),
{
    if records.len() > 0 {
        let front = records.drop_last();
        let rest = reorder_patches(front, exiting);
        let all = reorder_patches(records, exiting);
        let last = records.len() - 1;
        assert(names_differ(front)) by {
            assert forall|i: int, j: int|
                0 <= i < front.len() && 0 <= j < front.len() && i != j implies (
            #[trigger] front[i]).name_any() != (#[trigger] front[j]).name_any() by {
                assert(front[i] == records[i]);
                assert(front[j] == records[j]);
            }
        }
        lemma_reorder_patches_names_differ(front, exiting);
        if moves_up(records.last(), exiting) {
            let patch = move_up_patch(records.last());
            let at = entry_index(rest, patch.status.queue_position as nat) as int;
            lemma_entry_index_bounds(rest, patch.status.queue_position as nat);
            assert(all == rest.insert(at, patch));
            lemma_reorder_patches_have_sources(front, exiting);
            assert forall|k: int| 0 <= k < rest.len() implies (#[trigger] rest[k]).name
                != patch.name by {
                let i = choose|i: int|
                    0 <= i < front.len() && is_patch_of(#[trigger] front[i], exiting, rest[k]);
                assert(front[i] == records[i]);
                assert(records[i].name_any() != records[last].name_any());
            }
            assert forall|a: int, b: int|
                0 <= a < all.len() && 0 <= b < all.len() && a != b implies (#[trigger] all[a]).name
                != (#[trigger] all[b]).name by {
                let from_a = if a < at {
                    a
                } else {
                    a - 1
                };
                let from_b = if b < at {
                    b
                } else {
                    b - 1
                };
                if a == at {
                    assert(all[b] == rest[from_b]);
                } else if b == at {
                    assert(all[a] == rest[from_a]);
                } else {
                    assert(all[a] == rest[from_a]);
                    assert(all[b] == rest[from_b]);
                }
            }
        }
    }
}

/// What a list of patches for different names does to a listing: a record
/// that a patch names gets the status of that patch, any other stays as it
/// is.
pub proof fn lemma_apply_patches(records: Seq<BenchmarkView>, patches: Seq<StatusPatchView>)
    requires
        forall|a: int, b: int|
            0 <= a < patches.len() && 0 <= b < patches.len() && a != b ==> (
            #[trigger] patches[a]).name != (#[trigger] patches[b]).name,
    ensures
        apply_patches(records, patches).len() == records.len(),
        forall|i: int, k: int|
            0 <= i < records.len() && 0 <= k < patches.len() && (#[trigger] patches[k]).name == (
            #[trigger] records[i]).name_any() ==> apply_patches(records, patches)[i]
                == (BenchmarkView { status: Some(patches[k].status), ..records[i] }),
        forall|i: int|
            0 <= i < records.len() && (forall|k: int|
                0 <= k < patches.len() ==> (#[trigger] patches[k]).name != records[i].name_any())
                ==> (#[trigger] apply_patches(records, patches)[i]) == records[i],
    decreases patches.len(),
{
    if patches.len() > 0 {
        let first = patches.first();
        let rest = patches.drop_first();
        let once = apply_patch(records, first);
        assert forall|a: int, b: int|
            0 <= a < rest.len() && 0 <= b < rest.len() && a != b implies (#[trigger] rest[a]).name
            != (#[trigger] rest[b]).name by {
            assert(rest[a] == patches[a + 1]);
            assert(rest[b] == patches[b + 1]);
        }
        lemma_apply_patches(once, rest);
        let all = apply_patches(records, patches);
        assert(all == apply_patches(once, rest));
        assert forall|i: int, k: int|
            0 <= i < records.len() && 0 <= k < patches.len() && (#[trigger] patches[k]).name == (
            #[trigger] records[i]).name_any() implies all[i] == (BenchmarkView {
            status: Some(patches[k].status),
            ..records[i]
        }) by {
            assert(once[i] == patched(records[i], first));
            assert(once[i].name_any() == records[i].name_any());
            if k == 0 {
                assert forall|m: int| 0 <= m < rest.len() implies (#[trigger] rest[m]).name
                    != once[i].name_any() by {
                    assert(rest[m] == patches[m + 1]);
                    assert(patches[m + 1].name != patches[0].name);
                }
                assert(all[i] == once[i]);
            } else {
                assert(rest[k - 1] == patches[k]);
                assert(rest[k - 1].name == once[i].name_any());
                assert(all[i] == (BenchmarkView {
                    status: Some(rest[k - 1].status),
                    ..once[i]
                }));
            }
        }
        assert forall|i: int|
            0 <= i < records.len() && (forall|k: int|
                0 <= k < patches.len() ==> (#[trigger] patches[k]).name
                    != records[i].name_any()) implies (#[trigger] all[i]) == records[i] by {
            assert(once[i] == patched(records[i], first));
            assert(patches[0].name != records[i].name_any());
            assert forall|m: int| 0 <= m < rest.len() implies (#[trigger] rest[m]).name
                != once[i].name_any() by {
                assert(rest[m] == patches[m + 1]);
            }
        }
    }
}

/// Writing the patches of a reorder one after the other moves exactly the
/// records up that the reorder is to move.
pub proof fn lemma_patches_make_reorder(records: Seq<BenchmarkView>, exiting: nat)
    requires
        names_differ(records),
    ensures
        apply_patches(records, reorder_patches(records, exiting)) == reorder(records, exiting),
{
    let patches = reorder_patches(records, exiting);
    let written = apply_patches(records, patches);
    lemma_reorder_patches_names_differ(records, exiting);
    lemma_apply_patches(records, patches);
    assert forall|i: int| 0 <= i < records.len() implies written[i] == reorder(
        records,
        exiting,
    )[i] by {
        lemma_written_record(records, exiting, i);
    }
    assert(written =~= reorder(records, exiting));
}

proof fn lemma_written_record(records: Seq<BenchmarkView>, exiting: nat, i: int)
    requires
        names_differ(records),
        0 <= i < records.len(),
        apply_patches(records, reorder_patches(records, exiting)).len() == records.len(),
        forall|i: int, k: int|
            0 <= i < records.len() && 0 <= k < reorder_patches(records, exiting).len() && (
            #[trigger] reorder_patches(records, exiting)[k]).name == (
            #[trigger] records[i]).name_any() ==> apply_patches(
                records,
                reorder_patches(records, exiting),
            )[i] == (BenchmarkView {
                status: Some(reorder_patches(records, exiting)[k].status),
                ..records[i]
            }),
        forall|i: int|
            0 <= i < records.len() && (forall|k: int|
                0 <= k < reorder_patches(records, exiting).len() ==> (#[trigger] reorder_patches(
                    records,
                    exiting,
                )[k]).name != records[i].name_any()) ==> (#[trigger] apply_patches(
                records,
                reorder_patches(records, exiting),
            )[i]) == records[i],
    ensures
        apply_patches(records, reorder_patches(records, exiting))[i] == moved_up(
            records[i],
            exiting,
        ),
{
    let patches = reorder_patches(records, exiting);
    if moves_up(records[i], exiting) {
        lemma_reorder_patches_cover(records, exiting, i);
        let k = choose|k: int| 0 <= k < patches.len() && patches[k] == move_up_patch(records[i]);
        assert(patches[k].name == records[i].name_any());
    } else {
        lemma_reorder_patches_have_sources(records, exiting);
        assert forall|k: int| 0 <= k < patches.len() implies (#[trigger] patches[k]).name
            != records[i].name_any() by {
            let j = choose|j: int|
                0 <= j < records.len() && is_patch_of(#[trigger] records[j], exiting, patches[k]);
            assert(j != i);
            assert(records[j].name_any() != records[i].name_any());
        }
    }
}

/// In a queue with a gap no two queued records hold the same position, and
/// none holds the position of the gap.
proof fn lemma_gap_positions(records: Seq<BenchmarkView>, exiting: nat, i: int, j: int)
    requires
        has_gap_at(records, exiting),
        0 <= i < records.len(),
        0 <= j < records.len(),
        i != j,
        records[i].is_queued(),
    ensures
        records[i].status->0.queue_position != exiting,
        records[j].is_queued() ==> records[i].status->0.queue_position
            != records[j].status->0.queue_position,
{
    let slots = queue_slots(records);
    let v = records[i].status->0.queue_position as nat;
    lemma_gap_counted(records, exiting);
    assert(slots[i] == Some(v));
    lemma_count_positive(slots, v);
    assert(count_at(slots, v) == if v <= occupied(slots) && v != exiting {
        1nat
    } else {
        0nat
    });
    lemma_count_update(slots, i, None);
    let without = slots.update(i, None);
    assert(count_at(without, v) + 1 == count_at(slots, v));
    if records[j].is_queued() && records[j].status->0.queue_position == v {
        assert(without[j] == Some(v));
        lemma_count_positive(without, v);
    }
}

/// A record while the patches of a reorder are being written: it is as it
/// was, or it has moved up.
proof fn lemma_record_midway(records: Seq<BenchmarkView>, exiting: nat, written: int, i: int)
    requires
        names_differ(records),
        0 <= written <= reorder_patches(records, exiting).len(),
        0 <= i < records.len(),
    ensures
        apply_patches(records, reorder_patches(records, exiting).take(written)).len()
            == records.len(),
        apply_patches(records, reorder_patches(records, exiting).take(written))[i] == records[i]
            || (moves_up(records[i], exiting) && apply_patches(
            records,
            reorder_patches(records, exiting).take(written),
        )[i] == moved_up(records[i], exiting)),
{
    let patches = reorder_patches(records, exiting);
    let some = patches.take(written);
    lemma_reorder_patches_names_differ(records, exiting);
    assert forall|a: int, b: int|
        0 <= a < some.len() && 0 <= b < some.len() && a != b implies (#[trigger] some[a]).name != (
    #[trigger] some[b]).name by {
        assert(some[a] == patches[a]);
        assert(some[b] == patches[b]);
    }
    lemma_apply_patches(records, some);
    lemma_reorder_patches_have_sources(records, exiting);
    if exists|k: int| 0 <= k < some.len() && (#[trigger] some[k]).name == records[i].name_any() {
        let k = choose|k: int|
            0 <= k < some.len() && (#[trigger] some[k]).name == records[i].name_any();
        assert(some[k] == patches[k]);
        let source = choose|source: int|
            0 <= source < records.len() && is_patch_of(
                #[trigger] records[source],
                exiting,
                patches[k],
            );
        if source != i {
            assert(records[source].name_any() != records[i].name_any());
        }
    }
}

/// The live records other than the one at `gone` hold different positions,
/// and none of them holds `exiting`: the positions are distinct, with the
/// exiting record counted at its position whether or not it is still
/// listed.
pub open spec fn others_differ(records: Seq<BenchmarkView>, exiting: nat, gone: int) -> bool {
    &&& forall|a: int, b: int|
        0 <= a < records.len() && 0 <= b < records.len() && a != b && a != gone && b != gone && (
        #[trigger] records[a]).is_queued() && (#[trigger] records[b]).is_queued()
            ==> records[a].status->0.queue_position != records[b].status->0.queue_position
    &&& forall|a: int|
        0 <= a < records.len() && a != gone && (#[trigger] records[a]).is_queued()
            ==> records[a].status->0.queue_position != exiting
}

/// While the patches of a reorder are being written, whichever of them are
/// written already, one record at most holds the head of the queue, the
/// exiting record at `gone` not counted. It takes no dense queue for this:
/// distinct positions are enough.
pub proof fn lemma_one_head_while_patching(
    records: Seq<BenchmarkView>,
    exiting: nat,
    gone: int,
    written: int,
    i: int,
    j: int,
)
    requires
        names_differ(records),
        others_differ(records, exiting, gone),
        0 <= written <= reorder_patches(records, exiting).len(),
        0 <= i < records.len(),
        0 <= j < records.len(),
        i != j,
        i != gone,
        j != gone,
    ensures
        !(queue_slot(
            apply_patches(records, reorder_patches(records, exiting).take(written))[i],
        ) == Some(0nat) && queue_slot(
            apply_patches(records, reorder_patches(records, exiting).take(written))[j],
        ) == Some(0nat)),
{
    let midway = apply_patches(records, reorder_patches(records, exiting).take(written));
    lemma_record_midway(records, exiting, written, i);
    lemma_record_midway(records, exiting, written, j);
    if queue_slot(midway[i]) == Some(0nat) && queue_slot(midway[j]) == Some(0nat) {
        assert(records[i].is_queued());
        assert(records[j].is_queued());
        assert(records[i].status->0.queue_position != records[j].status->0.queue_position);
        assert(records[i].status->0.queue_position != exiting);
        assert(records[j].status->0.queue_position != exiting);
    }
}

/// While the patches of a reorder are being written into a queue that is
/// dense but for the gap, one record at most holds the head of the queue.
pub proof fn lemma_one_head_during_reorder(
    records: Seq<BenchmarkView>,
    exiting: nat,
    written: int,
    i: int,
    j: int,
)
    requires
        names_differ(records),
        has_gap_at(records, exiting),
        0 <= written <= reorder_patches(records, exiting).len(),
        0 <= i < records.len(),
        0 <= j < records.len(),
        i != j,
    ensures
        !(queue_slot(
            apply_patches(records, reorder_patches(records, exiting).take(written))[i],
        ) == Some(0nat) && queue_slot(
            apply_patches(records, reorder_patches(records, exiting).take(written))[j],
        ) == Some(0nat)),
{
    assert(others_differ(records, exiting, -1)) by {
        assert forall|a: int, b: int|
            0 <= a < records.len() && 0 <= b < records.len() && a != b && (
            #[trigger] records[a]).is_queued() && (
            #[trigger] records[b]).is_queued() implies records[a].status->0.queue_position
            != records[b].status->0.queue_position by {
            lemma_gap_positions(records, exiting, a, b);
        }
        assert forall|a: int|
            0 <= a < records.len() && (
            #[trigger] records[a]).is_queued() implies records[a].status->0.queue_position
            != exiting by {
            if records.len() > 1 {
                let b = if a == 0 {
                    1int
                } else {
                    0int
                };
                lemma_gap_positions(records, exiting, a, b);
            } else {
                lemma_lone_record_is_off_the_gap(records, exiting);
            }
        }
    }
    lemma_one_head_while_patching(records, exiting, -1, written, i, j);
}

/// In a queue with a gap a lone record does not hold the position of the
/// gap.
proof fn lemma_lone_record_is_off_the_gap(records: Seq<BenchmarkView>, exiting: nat)
    requires
        has_gap_at(records, exiting),
        records.len() == 1,
        records[0].is_queued(),
    ensures
        records[0].status->0.queue_position != exiting,
{
    let slots = queue_slots(records);
    let v = records[0].status->0.queue_position as nat;
    lemma_gap_counted(records, exiting);
    assert(slots[0] == Some(v));
    lemma_count_positive(slots, v);
    assert(count_at(slots, v) == if v <= occupied(slots) && v != exiting {
        1nat
    } else {
        0nat
    });
}

} // verus!
