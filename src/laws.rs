use vstd::prelude::*;
use crate::store::{
    is_blank,
    lemma_index_in_range,
    lemma_occupied_none,
    lemma_occupied_update,
    Coordinate,
    PlaceError,
    RemoveError,
    StoreView,
};

verus! {

/// One operation on a store.
pub enum Operation {
    Place(Coordinate, Seq<char>),
    Remove(Coordinate),
}

/// The state after one operation.
pub open spec fn apply(v: StoreView, op: Operation) -> StoreView {
    match op {
        Operation::Place(c, label) => v.after_place(c, label),
        Operation::Remove(c) => v.after_remove(c),
    }
}

/// The state after a sequence of operations, applied first to last.
pub open spec fn run(v: StoreView, ops: Seq<Operation>) -> StoreView
    decreases ops.len(),
{
    if ops.len() == 0 {
        v
    } else {
        run(apply(v, ops[0]), ops.drop_first())
    }
}

/// How many placements of `ops` succeed when run from `v`.
pub open spec fn placed_count(v: StoreView, ops: Seq<Operation>) -> nat
    decreases ops.len(),
{
    if ops.len() == 0 {
        0
    } else {
        placed_count(apply(v, ops[0]), ops.drop_first()) + match ops[0] {
            Operation::Place(c, label) => if v.place_outcome(c, label) is Ok {
                1nat
            } else {
                0nat
            },
            Operation::Remove(_) => 0nat,
        }
    }
}

/// How many removals of `ops` succeed when run from `v`.
pub open spec fn removed_count(v: StoreView, ops: Seq<Operation>) -> nat
    decreases ops.len(),
{
    if ops.len() == 0 {
        0
    } else {
        removed_count(apply(v, ops[0]), ops.drop_first()) + match ops[0] {
            Operation::Place(_, _) => 0nat,
            Operation::Remove(c) => if v.remove_outcome(c) is Ok {
                1nat
            } else {
                0nat
            },
        }
    }
}

/// The reports of placing each of `labels` at `c` in turn, and the state after.
pub open spec fn place_each(v: StoreView, c: Coordinate, labels: Seq<Seq<char>>) -> (
    StoreView,
    Seq<Result<(), PlaceError>>,
)
    decreases labels.len(),
{
    if labels.len() == 0 {
        (v, Seq::empty())
    } else {
        let rest = place_each(v.after_place(c, labels[0]), c, labels.drop_first());
        (rest.0, seq![v.place_outcome(c, labels[0])] + rest.1)
    }
}

/// A successful placement keeps the store well formed and adds one to its occupancy;
/// a failed one changes nothing.
pub proof fn place_effect(v: StoreView, c: Coordinate, label: Seq<char>)
    requires
        v.wf(),
    ensures
        v.after_place(c, label).wf(),
        v.place_outcome(c, label) is Ok ==> v.after_place(c, label).occupancy() == v.occupancy()
            + 1,
        v.place_outcome(c, label) is Err ==> v.after_place(c, label) == v,
{
    if v.place_outcome(c, label) is Ok {
        lemma_index_in_range(v, c);
        lemma_occupied_update(v.slots, v.index(c), Some(label));
    }
}

/// A successful removal keeps the store well formed and takes one from its occupancy;
/// a failed one changes nothing.
pub proof fn remove_effect(v: StoreView, c: Coordinate)
    requires
        v.wf(),
    ensures
        v.after_remove(c).wf(),
        v.remove_outcome(c) is Ok ==> v.after_remove(c).occupancy() + 1 == v.occupancy(),
        v.remove_outcome(c) is Err ==> v.after_remove(c) == v,
{
    if v.remove_outcome(c) is Ok {
        lemma_index_in_range(v, c);
        lemma_occupied_update(v.slots, v.index(c), None);
    }
}

/// On a freshly built store every in-bounds coordinate is free, and placing a
/// non-blank label there succeeds.
pub proof fn fresh_store_accepts_everywhere(
    length: nat,
    height: nat,
    width: nat,
    c: Coordinate,
    label: Seq<char>,
)
    requires
        length >= 1,
        height >= 1,
        width >= 1,
        StoreView::empty(length, height, width).in_bounds(c),
        !is_blank(label),
    ensures
        StoreView::empty(length, height, width).is_free(c),
        StoreView::empty(length, height, width).place_outcome(c, label) == Ok::<(), PlaceError>(()),
        StoreView::empty(length, height, width).occupancy() == 0,
{
    let v = StoreView::empty(length, height, width);
    lemma_index_in_range(v, c);
    lemma_occupied_none(v.slots);
}

/// Placing at a slot that was just filled fails with `SlotOccupied`, and the slot
/// keeps the first label.
pub proof fn place_twice_is_refused(
    v: StoreView,
    c: Coordinate,
    label: Seq<char>,
    label2: Seq<char>,
)
    requires
        v.wf(),
        v.place_outcome(c, label) is Ok,
    ensures
        v.after_place(c, label).place_outcome(c, label2) == Err::<(), PlaceError>(
            PlaceError::SlotOccupied,
        ),
        v.after_place(c, label).after_place(c, label2) == v.after_place(c, label),
        v.after_place(c, label).label_at(c) == Some(label),
{
    lemma_index_in_range(v, c);
}

/// Removing right after a successful placement hands back the placed label and
/// leaves the slot free again.
pub proof fn remove_returns_placed_label(v: StoreView, c: Coordinate, label: Seq<char>)
    requires
        v.wf(),
        v.place_outcome(c, label) is Ok,
    ensures
        v.after_place(c, label).remove_outcome(c) == Ok::<Seq<char>, RemoveError>(label),
        v.after_place(c, label).after_remove(c).is_free(c),
{
    lemma_index_in_range(v, c);
}

/// Removing from an empty in-bounds slot fails with `SlotEmpty` and leaves the
/// store, and so its occupancy, unchanged.
pub proof fn remove_from_empty_is_refused(v: StoreView, c: Coordinate)
    requires
        v.wf(),
        v.is_free(c),
    ensures
        v.remove_outcome(c) == Err::<Seq<char>, RemoveError>(RemoveError::SlotEmpty),
        v.after_remove(c) == v,
        v.after_remove(c).occupancy() == v.occupancy(),
{
}

/// A coordinate at or past the bound on any one axis is refused with
/// `OutOfBounds`, whatever the label, and nothing changes.
pub proof fn place_out_of_bounds_is_refused(v: StoreView, c: Coordinate, label: Seq<char>)
    requires
        c.x >= v.length || c.y >= v.height || c.z >= v.width,
    ensures
        v.place_outcome(c, label) == Err::<(), PlaceError>(PlaceError::OutOfBounds),
        v.after_place(c, label) == v,
{
}

/// Once `c` is occupied, every further placement there is refused with
/// `SlotOccupied` and changes nothing.
proof fn place_each_on_occupied(v: StoreView, c: Coordinate, labels: Seq<Seq<char>>)
    requires
        v.in_bounds(c),
        v.label_at(c) is Some,
    ensures
        place_each(v, c, labels).0 == v,
        place_each(v, c, labels).1.len() == labels.len(),
        forall|i: int|
            0 <= i < labels.len() ==> place_each(v, c, labels).1[i] == Err::<(), PlaceError>(
                PlaceError::SlotOccupied,
            ),
    decreases labels.len(),
{
    if labels.len() > 0 {
        place_each_on_occupied(v, c, labels.drop_first());
        let rest = place_each(v, c, labels.drop_first());
        assert forall|i: int| 0 <= i < labels.len() implies place_each(v, c, labels).1[i]
            == Err::<(), PlaceError>(PlaceError::SlotOccupied) by {
            if i > 0 {
                assert(place_each(v, c, labels).1[i] == rest.1[i - 1]);
            }
        }
    }
}

/// Placing several non-blank labels in turn at one free slot: exactly the first
/// succeeds, every later one fails with `SlotOccupied`, and the occupancy grows by
/// exactly one. Callers that share a store reach it one at a time, so this is what
/// any number of competing placements at one slot amount to.
pub proof fn competing_places_one_wins(v: StoreView, c: Coordinate, labels: Seq<Seq<char>>)
    requires
        v.wf(),
        v.is_free(c),
        labels.len() >= 1,
        forall|i: int| 0 <= i < labels.len() ==> !is_blank(#[trigger] labels[i]),
    ensures
        place_each(v, c, labels).1.len() == labels.len(),
        place_each(v, c, labels).1[0] == Ok::<(), PlaceError>(()),
        forall|i: int|
            1 <= i < labels.len() ==> place_each(v, c, labels).1[i] == Err::<(), PlaceError>(
                PlaceError::SlotOccupied,
            ),
        place_each(v, c, labels).0.occupancy() == v.occupancy() + 1,
{
    assert(!is_blank(labels[0]));
    let w = v.after_place(c, labels[0]);
    place_effect(v, c, labels[0]);
    lemma_index_in_range(v, c);
    place_each_on_occupied(w, c, labels.drop_first());
    let rest = place_each(w, c, labels.drop_first());
    assert forall|i: int| 1 <= i < labels.len() implies place_each(v, c, labels).1[i]
        == Err::<(), PlaceError>(PlaceError::SlotOccupied) by {
        assert(place_each(v, c, labels).1[i] == rest.1[i - 1]);
    }
}

/// After any sequence of operations the occupancy has grown by the successful
/// placements and shrunk by the successful removals.
pub proof fn occupancy_tracks_operations(v: StoreView, ops: Seq<Operation>)
    requires
        v.wf(),
    ensures
        run(v, ops).wf(),
        run(v, ops).occupancy() + removed_count(v, ops) == v.occupancy() + placed_count(v, ops),
    decreases ops.len(),
{
    if ops.len() > 0 {
        match ops[0] {
            Operation::Place(c, label) => place_effect(v, c, label),
            Operation::Remove(c) => remove_effect(v, c),
        }
        occupancy_tracks_operations(apply(v, ops[0]), ops.drop_first());
    }
}

/// From a freshly built store, `k` successful placements and `j` successful
/// removals leave an occupancy of exactly `k - j`.
pub proof fn fresh_occupancy_after_operations(
    length: nat,
    height: nat,
    width: nat,
    ops: Seq<Operation>,
)
    requires
        length >= 1,
        height >= 1,
        width >= 1,
    ensures
        run(StoreView::empty(length, height, width), ops).occupancy() == placed_count(
            StoreView::empty(length, height, width),
            ops,
        ) - removed_count(StoreView::empty(length, height, width), ops),
{
    let v = StoreView::empty(length, height, width);
    lemma_occupied_none(v.slots);
    occupancy_tracks_operations(v, ops);
}

} // verus!
