//! Reconciling the children of a stored recipe with the children that an
//! update names.
//!
//! Only ids matter here. `stored` lists the ids of the children that the
//! recipe has, `wanted` the id that each child of the update carries, if any.
//! A child of the update that carries the id of a stored child takes its
//! place; any other child of the update is new and gets the next free id;
//! a stored child that the update does not name is dropped.

use vstd::prelude::*;

use crate::store::reference::MAX_ID;

verus! {

/// The ids rise along the list: children stand in the order in which they
/// were added.
pub open spec fn rising(ids: Seq<i32>) -> bool {
    forall|a: int, b: int| 0 <= a < b < ids.len() ==> ids[a] < ids[b]
}

/// One child of the outcome: the id it is stored under, and the position in
/// the update of the child it takes its contents from.
pub struct SlotView {
    pub id: int,
    pub source: int,
}

/// The update names a stored child at this position.
pub open spec fn recognized(stored: Seq<i32>, wanted: Option<i32>) -> bool {
    wanted is Some && stored.contains(wanted->0)
}

/// The predicate "the update names this id".
pub open spec fn is_named(wanted: Seq<Option<i32>>) -> spec_fn(i32) -> bool {
    |id: i32| wanted.contains(Some(id))
}

/// The predicate "the update does not name this id".
pub open spec fn is_unnamed(wanted: Seq<Option<i32>>) -> spec_fn(i32) -> bool {
    |id: i32| !wanted.contains(Some(id))
}

/// The predicate "the child of the update at this position is new".
pub open spec fn is_new(stored: Seq<i32>, wanted: Seq<Option<i32>>) -> spec_fn(int) -> bool {
    |i: int| 0 <= i < wanted.len() && !recognized(stored, wanted[i])
}

/// The ids of the stored children that the update names, in stored order.
pub open spec fn kept(stored: Seq<i32>, wanted: Seq<Option<i32>>) -> Seq<i32> {
    stored.filter(is_named(wanted))
}

/// The ids of the stored children that the update does not name, in stored
/// order.
pub open spec fn dropped(stored: Seq<i32>, wanted: Seq<Option<i32>>) -> Seq<i32> {
    stored.filter(is_unnamed(wanted))
}

/// The positions `0, 1, .., n - 1`.
pub open spec fn positions(n: int) -> Seq<int> {
    Seq::new(n as nat, |i: int| i)
}

/// The positions of the update, up to `n`, whose child is new, in order.
pub open spec fn new_positions(stored: Seq<i32>, wanted: Seq<Option<i32>>, n: int) -> Seq<int> {
    positions(n).filter(is_new(stored, wanted))
}

/// The update names one stored child twice.
pub open spec fn conflict(stored: Seq<i32>, wanted: Seq<Option<i32>>) -> bool {
    exists|a: int, b: int|
        0 <= a < b < wanted.len() && #[trigger] wanted[a] == #[trigger] wanted[b] && recognized(
            stored,
            wanted[a],
        )
}

/// The stored children that stay, in stored order, each with the position of
/// the child of the update that names it.
pub open spec fn updates(stored: Seq<i32>, wanted: Seq<Option<i32>>) -> Seq<SlotView> {
    kept(stored, wanted).map_values(
        |id: i32| SlotView { id: id as int, source: wanted.index_of(Some(id)) },
    )
}

/// The new children, in the order of the update, with ids counted up from
/// `next`.
pub open spec fn inserts(stored: Seq<i32>, wanted: Seq<Option<i32>>, next: int) -> Seq<SlotView> {
    let sources = new_positions(stored, wanted, wanted.len() as int);
    Seq::new(sources.len(), |k: int| SlotView { id: next + k, source: sources[k] })
}

/// The children of the recipe after the update: those that stay, then the
/// new ones.
pub open spec fn outcome(stored: Seq<i32>, wanted: Seq<Option<i32>>, next: int) -> Seq<SlotView> {
    updates(stored, wanted) + inserts(stored, wanted, next)
}

/// The first id that is free once the new children have theirs.
pub open spec fn next_after(stored: Seq<i32>, wanted: Seq<Option<i32>>, next: int) -> int {
    next + new_positions(stored, wanted, wanted.len() as int).len()
}

/// Whether the update can be carried out: it names no stored child twice,
/// and there are ids left for each new child.
pub open spec fn feasible(stored: Seq<i32>, wanted: Seq<Option<i32>>, next: int) -> bool {
    !conflict(stored, wanted) && next_after(stored, wanted, next) <= MAX_ID + 1
}

} // verus!
