//! Counting positions: the arithmetic behind queue density. A listing is
//! taken as a sequence of slots, one for each record: the position that the
//! record holds, or nothing where it holds none.

use vstd::prelude::*;

verus! {

/// How many slots hold the position `v`.
pub open spec fn count_at(slots: Seq<Option<nat>>, v: nat) -> nat
    decreases slots.len(),
{
    if slots.len() == 0 {
        0
    } else {
        count_at(slots.drop_last(), v) + if slots.last() == Some(v) {
            1nat
        } else {
            0nat
        }
    }
}

/// How many slots hold a position.
pub open spec fn occupied(slots: Seq<Option<nat>>) -> nat
    decreases slots.len(),
{
    if slots.len() == 0 {
        0
    } else {
        occupied(slots.drop_last()) + if slots.last() is Some {
            1nat
        } else {
            0nat
        }
    }
}

/// The positions held are `0, 1, …, k − 1`, each once, where `k` slots hold
/// a position.
pub open spec fn is_prefix(slots: Seq<Option<nat>>) -> bool {
    forall|v: nat| #[trigger]
        count_at(slots, v) == if v < occupied(slots) {
            1nat
        } else {
            0nat
        }
}

/// The slots after the holder of `exiting` has gone and the queue has closed
/// up: every position above `exiting` is one less.
pub open spec fn close_gap(slots: Seq<Option<nat>>, exiting: nat) -> Seq<Option<nat>> {
    slots.map_values(
        |slot: Option<nat>|
            match slot {
                Some(v) if v > exiting => Some((v - 1) as nat),
                _ => slot,
            },
    )
}

/// Counts add up over a concatenation.
pub proof fn lemma_count_concat(a: Seq<Option<nat>>, b: Seq<Option<nat>>)
    ensures
        forall|v: nat| #[trigger] count_at(a + b, v) == count_at(a, v) + count_at(b, v),
        occupied(a + b) == occupied(a) + occupied(b),
    decreases b.len(),
{
    if b.len() == 0 {
        assert(a + b =~= a);
    } else {
        assert((a + b).drop_last() =~= a + b.drop_last());
        assert((a + b).last() == b.last());
        lemma_count_concat(a, b.drop_last());
        assert forall|v: nat| #[trigger]
            count_at(a + b, v) == count_at(a, v) + count_at(b, v) by {
            assert(count_at(a + b.drop_last(), v) == count_at(a, v) + count_at(
                b.drop_last(),
                v,
            ));
        }
    }
}

/// The counts of a single slot.
pub proof fn lemma_count_single(slot: Option<nat>)
    ensures
        forall|v: nat| #[trigger]
            count_at(seq![slot], v) == if slot == Some(v) {
                1nat
            } else {
                0nat
            },
        occupied(seq![slot]) == if slot is Some {
            1nat
        } else {
            0nat
        },
{
    let s = seq![slot];
    assert(s.drop_last() =~= Seq::<Option<nat>>::empty());
    assert(s.last() == slot);
    assert forall|v: nat| #[trigger]
        count_at(s, v) == if slot == Some(v) {
            1nat
        } else {
            0nat
        } by {
        assert(count_at(s.drop_last(), v) == 0);
    }
    assert(occupied(s.drop_last()) == 0);
}

/// What replacing one slot does to the counts.
pub proof fn lemma_count_update(slots: Seq<Option<nat>>, i: int, slot: Option<nat>)
    requires
        0 <= i < slots.len(),
    ensures
        forall|v: nat| #[trigger]
            count_at(slots.update(i, slot), v) + (if slots[i] == Some(v) {
                1nat
            } else {
                0nat
            }) == count_at(slots, v) + (if slot == Some(v) {
                1nat
            } else {
                0nat
            }),
        occupied(slots.update(i, slot)) + (if slots[i] is Some {
            1nat
        } else {
            0nat
        }) == occupied(slots) + (if slot is Some {
            1nat
        } else {
            0nat
        }),
{
    let front = slots.take(i);
    let back = slots.skip(i + 1);
    assert(slots =~= front + seq![slots[i]] + back);
    assert(slots.update(i, slot) =~= front + seq![slot] + back);
    lemma_count_single(slots[i]);
    lemma_count_single(slot);
    lemma_count_concat(front, seq![slots[i]]);
    lemma_count_concat(front + seq![slots[i]], back);
    lemma_count_concat(front, seq![slot]);
    lemma_count_concat(front + seq![slot], back);
    assert forall|v: nat| #[trigger]
        count_at(slots.update(i, slot), v) + (if slots[i] == Some(v) {
            1nat
        } else {
            0nat
        }) == count_at(slots, v) + (if slot == Some(v) {
            1nat
        } else {
            0nat
        }) by {
        assert(count_at(front + seq![slots[i]] + back, v) == count_at(
            front + seq![slots[i]],
            v,
        ) + count_at(back, v));
        assert(count_at(front + seq![slots[i]], v) == count_at(front, v) + count_at(
            seq![slots[i]],
            v,
        ));
        assert(count_at(front + seq![slot] + back, v) == count_at(front + seq![slot], v)
            + count_at(back, v));
        assert(count_at(front + seq![slot], v) == count_at(front, v) + count_at(
            seq![slot],
            v,
        ));
    }
}

/// What taking one slot out does to the counts.
pub proof fn lemma_count_remove(slots: Seq<Option<nat>>, i: int)
    requires
        0 <= i < slots.len(),
    ensures
        forall|v: nat| #[trigger]
            count_at(slots.remove(i), v) + (if slots[i] == Some(v) {
                1nat
            } else {
                0nat
            }) == count_at(slots, v),
        occupied(slots.remove(i)) + (if slots[i] is Some {
            1nat
        } else {
            0nat
        }) == occupied(slots),
{
    let front = slots.take(i);
    let back = slots.skip(i + 1);
    assert(slots =~= front + seq![slots[i]] + back);
    assert(slots.remove(i) =~= front + back);
    lemma_count_single(slots[i]);
    lemma_count_concat(front, seq![slots[i]]);
    lemma_count_concat(front + seq![slots[i]], back);
    lemma_count_concat(front, back);
    assert forall|v: nat| #[trigger]
        count_at(slots.remove(i), v) + (if slots[i] == Some(v) {
            1nat
        } else {
            0nat
        }) == count_at(slots, v) by {
        assert(count_at(front + seq![slots[i]] + back, v) == count_at(
            front + seq![slots[i]],
            v,
        ) + count_at(back, v));
        assert(count_at(front + seq![slots[i]], v) == count_at(front, v) + count_at(
            seq![slots[i]],
            v,
        ));
        assert(count_at(front + back, v) == count_at(front, v) + count_at(back, v));
    }
}

/// A position is counted exactly where a slot holds it.
pub proof fn lemma_count_positive(slots: Seq<Option<nat>>, v: nat)
    ensures
        count_at(slots, v) > 0 <==> exists|i: int| 0 <= i < slots.len() && slots[i] == Some(v),
    decreases slots.len(),
{
    if slots.len() > 0 {
        let rest = slots.drop_last();
        lemma_count_positive(rest, v);
        if count_at(slots, v) > 0 {
            if slots.last() == Some(v) {
                assert(slots[slots.len() - 1] == Some(v));
            } else {
                let i = choose|i: int| 0 <= i < rest.len() && rest[i] == Some(v);
                assert(slots[i] == Some(v));
            }
        }
        if exists|i: int| 0 <= i < slots.len() && slots[i] == Some(v) {
            let i = choose|i: int| 0 <= i < slots.len() && slots[i] == Some(v);
            if i < rest.len() {
                assert(rest[i] == Some(v));
            }
        }
    }
}

/// The counts after the queue has closed up.
pub proof fn lemma_count_close_gap(slots: Seq<Option<nat>>, exiting: nat)
    ensures
        forall|v: nat| #[trigger]
            count_at(close_gap(slots, exiting), v) == if v < exiting {
                count_at(slots, v)
            } else if v == exiting {
                count_at(slots, v) + count_at(slots, v + 1)
            } else {
                count_at(slots, v + 1)
            },
        occupied(close_gap(slots, exiting)) == occupied(slots),
    decreases slots.len(),
{
    if slots.len() == 0 {
        assert(close_gap(slots, exiting) =~= Seq::<Option<nat>>::empty());
    } else {
        let rest = slots.drop_last();
        lemma_count_close_gap(rest, exiting);
        assert(close_gap(slots, exiting).drop_last() =~= close_gap(rest, exiting));
        assert forall|v: nat| #[trigger]
            count_at(close_gap(slots, exiting), v) == if v < exiting {
                count_at(slots, v)
            } else if v == exiting {
                count_at(slots, v) + count_at(slots, v + 1)
            } else {
                count_at(slots, v + 1)
            } by {
            let w = v + 1;
            assert(count_at(close_gap(rest, exiting), v) == if v < exiting {
                count_at(rest, v)
            } else if v == exiting {
                count_at(rest, v) + count_at(rest, w as nat)
            } else {
                count_at(rest, w as nat)
            });
        }
    }
}

/// With the positions `0, …, k − 1` held once each but for `exiting`, which
/// nobody holds, closing the gap leaves `0, …, k − 2` held once each.
pub proof fn lemma_close_gap_restores_prefix(slots: Seq<Option<nat>>, exiting: nat)
    requires
        exiting <= occupied(slots),
        forall|v: nat| #[trigger]
            count_at(slots, v) == if v <= occupied(slots) && v != exiting {
                1nat
            } else {
                0nat
            },
    ensures
        is_prefix(close_gap(slots, exiting)),
{
    lemma_count_close_gap(slots, exiting);
    let after = close_gap(slots, exiting);
    assert forall|v: nat| #[trigger]
        count_at(after, v) == if v < occupied(after) {
            1nat
        } else {
            0nat
        } by {
        let w = (v + 1) as nat;
        assert(count_at(slots, w) == if w <= occupied(slots) && w != exiting {
            1nat
        } else {
            0nat
        });
        assert(count_at(slots, v) == if v <= occupied(slots) && v != exiting {
            1nat
        } else {
            0nat
        });
    }
}

/// Where one holder of `exiting` leaves slots that were a prefix, every
/// other position stays held once and `exiting` is free.
pub proof fn lemma_exit_leaves_gap(before: Seq<Option<nat>>, after: Seq<Option<nat>>, exiting: nat)
    requires
        is_prefix(before),
        occupied(after) + 1 == occupied(before),
        forall|v: nat| #[trigger]
            count_at(after, v) + (if v == exiting {
                1nat
            } else {
                0nat
            }) == count_at(before, v),
    ensures
        exiting <= occupied(after),
        forall|v: nat| #[trigger]
            count_at(after, v) == if v <= occupied(after) && v != exiting {
                1nat
            } else {
                0nat
            },
{
    assert(count_at(before, exiting) == if exiting < occupied(before) {
        1nat
    } else {
        0nat
    });
    assert(count_at(after, exiting) + 1 == count_at(before, exiting));
    assert forall|v: nat| #[trigger]
        count_at(after, v) == if v <= occupied(after) && v != exiting {
            1nat
        } else {
            0nat
        } by {
        assert(count_at(before, v) == if v < occupied(before) {
            1nat
        } else {
            0nat
        });
        assert(count_at(after, v) + (if v == exiting {
            1nat
        } else {
            0nat
        }) == count_at(before, v));
    }
}

} // verus!
