//! Lists of children under change: what overwriting, adding and deleting
//! children one after the other makes of a list, and that carrying out a
//! plan this way leaves the children that the plan describes.

use vstd::prelude::*;

use crate::store::children::{
    dropped, inserts, is_named, is_unnamed, kept, next_after, outcome, updates, SlotView,
};
use crate::store::outcome::{lemma_filter_keeps_distinct, lemma_outcome_is_sound};
use crate::store::reference::MAX_ID;

verus! {

/// One change to a list of children.
pub enum Change<C> {
    /// The child that has the id of this one is replaced by it.
    Put(C),
    /// This child is added at the end.
    Add(C),
    /// The child with this id is taken out.
    Remove(i32),
}

/// The ids of the children of a list, in order.
pub open spec fn ids_of<C>(list: Seq<C>, id: spec_fn(C) -> i32) -> Seq<i32> {
    list.map_values(id)
}

/// The list after one change.
pub open spec fn apply<C>(list: Seq<C>, id: spec_fn(C) -> i32, change: Change<C>) -> Seq<C> {
    match change {
        Change::Put(child) => list.map_values(
            |c: C| if id(c) == id(child) {
                child
            } else {
                c
            },
        ),
        Change::Add(child) => list.push(child),
        Change::Remove(gone) => list.filter(|c: C| id(c) != gone),
    }
}

/// The list after the changes, made first to last.
pub open spec fn apply_all<C>(list: Seq<C>, id: spec_fn(C) -> i32, changes: Seq<Change<C>>) -> Seq<
    C,
>
    decreases changes.len(),
{
    if changes.len() == 0 {
        list
    } else {
        apply(apply_all(list, id, changes.drop_last()), id, changes.last())
    }
}

/// Changes made one list after the other are the changes of both lists made
/// in a row.
pub proof fn lemma_apply_all_in_a_row<C>(
    list: Seq<C>,
    id: spec_fn(C) -> i32,
    first: Seq<Change<C>>,
    then: Seq<Change<C>>,
)
    ensures
        apply_all(list, id, first + then) == apply_all(apply_all(list, id, first), id, then),
    decreases then.len(),
{
    if then.len() == 0 {
        assert(first + then =~= first);
    } else {
        lemma_apply_all_in_a_row(list, id, first, then.drop_last());
        assert((first + then).drop_last() =~= first + then.drop_last());
        assert((first + then).last() == then.last());
    }
}

/// The changes that overwrite children: one for each slot, with the child
/// that fills the slot.
pub open spec fn puts<C>(slots: Seq<SlotView>, fill: spec_fn(SlotView) -> C) -> Seq<Change<C>> {
    slots.map_values(|slot: SlotView| Change::Put(fill(slot)))
}

/// The changes that add children: one for each slot, with the child that
/// fills the slot.
pub open spec fn adds<C>(slots: Seq<SlotView>, fill: spec_fn(SlotView) -> C) -> Seq<Change<C>> {
    slots.map_values(|slot: SlotView| Change::Add(fill(slot)))
}

/// The changes that delete the children with these ids.
pub open spec fn removes<C>(gone: Seq<i32>) -> Seq<Change<C>> {
    gone.map_values(|id: i32| Change::Remove(id))
}

/// The predicate "the id of the child is none of these".
pub open spec fn stays<C>(gone: Seq<i32>, id: spec_fn(C) -> i32) -> spec_fn(C) -> bool {
    |c: C| !gone.contains(id(c))
}

/// The child that takes the place of the stored child `stored_id`: the one
/// that fills the slot with this id and the first child of the update that
/// names it.
pub open spec fn successor<C>(wanted: Seq<Option<i32>>, fill: spec_fn(SlotView) -> C) -> spec_fn(
    i32,
) -> C {
    |stored_id: i32|
        fill(SlotView { id: stored_id as int, source: wanted.index_of(Some(stored_id)) })
}

/// Overwriting children leaves as many children as there were, each under
/// the id it had: a child whose id a slot has is the one that fills the
/// slot, and every other child is as it was.
pub proof fn lemma_puts<C>(
    list: Seq<C>,
    id: spec_fn(C) -> i32,
    slots: Seq<SlotView>,
    fill: spec_fn(SlotView) -> C,
)
    requires
        forall|k: int| 0 <= k < slots.len() ==> id(fill(#[trigger] slots[k])) == slots[k].id,
        forall|a: int, b: int|
            0 <= a < b < slots.len() ==> (#[trigger] slots[a]).id != (#[trigger] slots[b]).id,
    ensures
        apply_all(list, id, puts(slots, fill)).len() == list.len(),
        forall|j: int|
            0 <= j < list.len() ==> id(#[trigger] apply_all(list, id, puts(slots, fill))[j]) == id(
                list[j],
            ),
        forall|j: int, k: int|
            0 <= j < list.len() && 0 <= k < slots.len() && (#[trigger] slots[k]).id == id(list[j])
                ==> #[trigger] apply_all(list, id, puts(slots, fill))[j] == fill(slots[k]),
        forall|j: int|
            0 <= j < list.len() && (forall|k: int|
                0 <= k < slots.len() ==> (#[trigger] slots[k]).id != id(list[j]))
                ==> #[trigger] apply_all(list, id, puts(slots, fill))[j] == list[j],
    decreases slots.len(),
{
    let after = apply_all(list, id, puts(slots, fill));
    if slots.len() > 0 {
        let rest = slots.drop_last();
        let last = slots.last();
        let before = apply_all(list, id, puts(rest, fill));
        assert(puts(slots, fill).drop_last() =~= puts(rest, fill));
        assert(puts(slots, fill).last() == Change::Put(fill(last)));
        assert forall|k: int| 0 <= k < rest.len() implies id(fill(#[trigger] rest[k]))
            == rest[k].id by {
            assert(rest[k] == slots[k]);
        }
        assert forall|a: int, b: int| 0 <= a < b < rest.len() implies (#[trigger] rest[a]).id != (
        #[trigger] rest[b]).id by {
            assert(rest[a] == slots[a]);
            assert(rest[b] == slots[b]);
        }
        lemma_puts(list, id, rest, fill);
        assert(after == apply(before, id, Change::Put(fill(last))));
        assert(id(fill(last)) == last.id);
        assert forall|j: int, k: int|
            0 <= j < list.len() && 0 <= k < slots.len() && (#[trigger] slots[k]).id == id(
                list[j],
            ) implies #[trigger] after[j] == fill(slots[k]) by {
            assert(id(before[j]) == id(list[j]));
            if k < rest.len() {
                assert(rest[k] == slots[k]);
                assert(slots[k].id != slots[slots.len() - 1].id);
                assert(before[j] == fill(rest[k]));
            }
        }
        assert forall|j: int|
            0 <= j < list.len() && (forall|k: int|
                0 <= k < slots.len() ==> (#[trigger] slots[k]).id != id(
                    list[j],
                )) implies #[trigger] after[j] == list[j] by {
            assert(id(before[j]) == id(list[j]));
            assert(slots[slots.len() - 1].id != id(list[j]));
            assert forall|k: int| 0 <= k < rest.len() implies (#[trigger] rest[k]).id != id(
                list[j],
            ) by {
                assert(rest[k] == slots[k]);
            }
        }
        assert forall|j: int| 0 <= j < list.len() implies id(#[trigger] after[j]) == id(
            list[j],
        ) by {
            assert(id(before[j]) == id(list[j]));
        }
    }
}

/// Adding children puts them at the end, in their order.
pub proof fn lemma_adds<C>(
    list: Seq<C>,
    id: spec_fn(C) -> i32,
    slots: Seq<SlotView>,
    fill: spec_fn(SlotView) -> C,
)
    ensures
        apply_all(list, id, adds(slots, fill)) == list + slots.map_values(fill),
    decreases slots.len(),
{
    if slots.len() == 0 {
        assert(list + slots.map_values(fill) =~= list);
    } else {
        let rest = slots.drop_last();
        lemma_adds(list, id, rest, fill);
        assert(adds(slots, fill).drop_last() =~= adds(rest, fill));
        assert(adds(slots, fill).last() == Change::Add(fill(slots.last())));
        assert((list + rest.map_values(fill)).push(fill(slots.last())) =~= list
            + slots.map_values(fill));
    }
}

/// Deleting a child from a filtered list is filtering by both conditions.
pub proof fn lemma_filter_then_remove<C>(
    list: Seq<C>,
    id: spec_fn(C) -> i32,
    gone: Seq<i32>,
    next_gone: i32,
)
    ensures
        list.filter(stays(gone, id)).filter(|c: C| id(c) != next_gone) == list.filter(
            stays(gone.push(next_gone), id),
        ),
    decreases list.len(),
{
    reveal(Seq::filter);
    let first = stays(gone, id);
    let second = |c: C| id(c) != next_gone;
    let both = stays(gone.push(next_gone), id);
    if list.len() > 0 {
        let rest = list.drop_last();
        let last = list.last();
        lemma_filter_then_remove(rest, id, gone, next_gone);
        let grown = gone.push(next_gone);
        assert(both(last) == (first(last) && second(last))) by {
            if gone.contains(id(last)) {
                let at = gone.index_of(id(last));
                assert(grown[at] == id(last));
            }
            if id(last) == next_gone {
                assert(grown[gone.len() as int] == id(last));
            }
            if grown.contains(id(last)) {
                let at = grown.index_of(id(last));
                if at < gone.len() {
                    assert(gone[at] == id(last));
                }
            }
        }
        if first(last) {
            rest.filter(first).lemma_filter_push(last, second);
        }
    }
}

/// Deleting children one after the other leaves the children whose id is
/// none of those deleted, in their order.
pub proof fn lemma_removes<C>(list: Seq<C>, id: spec_fn(C) -> i32, gone: Seq<i32>)
    ensures
        apply_all(list, id, removes(gone)) == list.filter(stays(gone, id)),
    decreases gone.len(),
{
    if gone.len() == 0 {
        assert forall|i: int| 0 <= i < list.len() implies stays(gone, id)(#[trigger] list[i]) by {}
        lemma_filter_keeps_all(list, stays(gone, id));
    } else {
        let rest = gone.drop_last();
        lemma_removes(list, id, rest);
        assert(removes::<C>(gone).drop_last() =~= removes::<C>(rest));
        assert(removes::<C>(gone).last() == Change::<C>::Remove(gone.last()));
        lemma_filter_then_remove(list, id, rest, gone.last());
        assert(rest.push(gone.last()) =~= gone);
    }
}

/// A filter that every child passes leaves the list as it is.
pub proof fn lemma_filter_keeps_all<C>(list: Seq<C>, p: spec_fn(C) -> bool)
    requires
        forall|i: int| 0 <= i < list.len() ==> p(#[trigger] list[i]),
    ensures
        list.filter(p) == list,
    decreases list.len(),
{
    reveal(Seq::filter);
    if list.len() > 0 {
        let rest = list.drop_last();
        assert forall|i: int| 0 <= i < rest.len() implies p(#[trigger] rest[i]) by {
            assert(rest[i] == list[i]);
        }
        lemma_filter_keeps_all(rest, p);
        assert(p(list[list.len() - 1]));
        assert(rest.push(list.last()) =~= list);
    }
}

/// Where the children that pass a filter are those whose id passes another,
/// and each of them is made from its id, the children that pass are made
/// from the ids that pass, in their order.
pub proof fn lemma_filter_by_id<C>(
    list: Seq<C>,
    ids: Seq<i32>,
    passes: spec_fn(C) -> bool,
    id_passes: spec_fn(i32) -> bool,
    make: spec_fn(i32) -> C,
)
    requires
        list.len() == ids.len(),
        forall|j: int| 0 <= j < list.len() ==> passes(#[trigger] list[j]) == id_passes(ids[j]),
        forall|j: int| 0 <= j < list.len() && id_passes(ids[j]) ==> #[trigger] list[j] == make(ids[j]),
    ensures
        list.filter(passes) == ids.filter(id_passes).map_values(make),
    decreases list.len(),
{
    reveal(Seq::filter);
    if list.len() == 0 {
        assert(list.filter(passes) =~= ids.filter(id_passes).map_values(make));
    } else {
        let rest = list.drop_last();
        let rest_ids = ids.drop_last();
        assert forall|j: int| 0 <= j < rest.len() implies passes(#[trigger] rest[j]) == id_passes(
            rest_ids[j],
        ) by {
            assert(rest[j] == list[j]);
        }
        assert forall|j: int| 0 <= j < rest.len() && id_passes(
            rest_ids[j],
        ) implies #[trigger] rest[j] == make(rest_ids[j]) by {
            assert(rest[j] == list[j]);
        }
        lemma_filter_by_id(rest, rest_ids, passes, id_passes, make);
        let n = list.len() - 1;
        assert(passes(list[n]) == id_passes(ids[n]));
        if id_passes(ids[n]) {
            assert(list[n] == make(ids[n]));
            assert(ids.filter(id_passes).map_values(make) =~= rest_ids.filter(
                id_passes,
            ).map_values(make).push(make(ids[n])));
        }
    }
}

/// The changes that carry out a plan: the stored children that stay are
/// overwritten, the new children are added, and the stored children that
/// are dropped are deleted.
pub open spec fn plan_changes<C>(
    stored: Seq<i32>,
    wanted: Seq<Option<i32>>,
    next: int,
    fill: spec_fn(SlotView) -> C,
) -> Seq<Change<C>> {
    puts(updates(stored, wanted), fill) + adds(inserts(stored, wanted, next), fill) + removes(
        dropped(stored, wanted),
    )
}

/// Carrying out a plan change by change leaves the children that the plan
/// describes: those that stay, each filled from the update and where it
/// stood, then the new ones.
pub proof fn lemma_changes_leave_the_outcome<C>(
    list: Seq<C>,
    id: spec_fn(C) -> i32,
    wanted: Seq<Option<i32>>,
    next: int,
    fill: spec_fn(SlotView) -> C,
)
    requires
        ids_of(list, id).no_duplicates(),
        1 <= next,
        forall|j: int|
            0 <= j < ids_of(list, id).len() ==> 1 <= #[trigger] ids_of(list, id)[j] < next,
        next_after(ids_of(list, id), wanted, next) <= MAX_ID + 1,
        forall|k: int|
            0 <= k < outcome(ids_of(list, id), wanted, next).len() ==> id(
                fill(#[trigger] outcome(ids_of(list, id), wanted, next)[k]),
            ) == outcome(ids_of(list, id), wanted, next)[k].id,
    ensures
        apply_all(list, id, plan_changes(ids_of(list, id), wanted, next, fill)) == outcome(
            ids_of(list, id),
            wanted,
            next,
        ).map_values(fill),
{
    let ids = ids_of(list, id);
    let ups = updates(ids, wanted);
    let ins = inserts(ids, wanted, next);
    let gone = dropped(ids, wanted);
    let stay = kept(ids, wanted);
    let all = outcome(ids, wanted, next);
    lemma_outcome_is_sound(ids, wanted, next);
    lemma_filter_keeps_distinct(ids, is_named(wanted));
    assert(ups.len() == stay.len());
    // the children that stay are overwritten
    assert forall|k: int| 0 <= k < ups.len() implies id(fill(#[trigger] ups[k])) == ups[k].id by {
        assert(all[k] == ups[k]);
    }
    assert forall|a: int, b: int| 0 <= a < b < ups.len() implies (#[trigger] ups[a]).id != (
    #[trigger] ups[b]).id by {
        assert(stay[a] != stay[b]);
    }
    lemma_puts(list, id, ups, fill);
    let overwritten = apply_all(list, id, puts(ups, fill));
    // the new children are added
    lemma_adds(overwritten, id, ins, fill);
    let grown = overwritten + ins.map_values(fill);
    // the children that are dropped are deleted
    lemma_removes(grown, id, gone);
    lemma_apply_all_in_a_row(list, id, puts(ups, fill), adds(ins, fill));
    lemma_apply_all_in_a_row(list, id, puts(ups, fill) + adds(ins, fill), removes(gone));
    let left = grown.filter(stays(gone, id));
    assert(apply_all(list, id, plan_changes(ids, wanted, next, fill)) == left);
    Seq::filter_distributes_over_add(overwritten, ins.map_values(fill), stays(gone, id));
    // no new child is deleted
    assert forall|k: int| 0 <= k < ins.len() implies stays(gone, id)(
        #[trigger] ins.map_values(fill)[k],
    ) by {
        assert(all[ups.len() + k] == ins[k]);
        assert(id(fill(ins[k])) == next + k);
        if gone.contains(id(fill(ins[k]))) {
            ids.lemma_filter_contains_rev(is_unnamed(wanted), id(fill(ins[k])));
            let at = ids.index_of(id(fill(ins[k])));
            assert(1 <= ids[at] < next);
        }
    }
    lemma_filter_keeps_all(ins.map_values(fill), stays(gone, id));
    // of the stored children, those that the update names are left
    assert forall|j: int| 0 <= j < overwritten.len() implies stays(gone, id)(
        #[trigger] overwritten[j],
    ) == is_named(wanted)(ids[j]) by {
        assert(id(overwritten[j]) == id(list[j]));
        assert(ids[j] == id(list[j]));
        if gone.contains(ids[j]) {
            let at = gone.index_of(ids[j]);
            ids.lemma_filter_pred(is_unnamed(wanted), at);
        } else if !wanted.contains(Some(ids[j])) {
            ids.lemma_filter_contains(is_unnamed(wanted), j);
        }
    }
    assert forall|j: int|
        0 <= j < overwritten.len() && is_named(wanted)(
            ids[j],
        ) implies #[trigger] overwritten[j] == successor(wanted, fill)(ids[j]) by {
        ids.lemma_filter_contains(is_named(wanted), j);
        let k = stay.index_of(ids[j]);
        assert(ups[k].id == id(list[j]));
        assert(overwritten[j] == fill(ups[k]));
    }
    lemma_filter_by_id(overwritten, ids, stays(gone, id), is_named(wanted), successor(wanted, fill));
    assert(stay.map_values(successor(wanted, fill)) =~= ups.map_values(fill));
    assert(ups.map_values(fill) + ins.map_values(fill) =~= all.map_values(fill));
}

} // verus!
