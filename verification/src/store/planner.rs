//! Computes, before anything is written, which stored children an update
//! keeps, which it drops and which children it adds.

use vstd::prelude::*;

use crate::store::children::{
    conflict, dropped, feasible, inserts, is_named, is_new, is_unnamed, kept, new_positions,
    positions, recognized, updates, SlotView,
};
use crate::store::reference::MAX_ID;

verus! {

/// One child of the outcome: its id, and the position in the update of the
/// child that it takes its contents from.
#[derive(Debug, Clone, Copy, PartialEq, Eq)]
pub struct Slot {
    pub id: i32,
    pub source: usize,
}

impl View for Slot {
    type V = SlotView;

    open spec fn view(&self) -> SlotView {
        SlotView { id: self.id as int, source: self.source as int }
    }
}

/// The views of a list of slots, in order.
pub open spec fn slots_view(slots: Seq<Slot>) -> Seq<SlotView> {
    slots.map_values(|s: Slot| s@)
}

/// What an update does to the children of one kind: the stored children to
/// overwrite, the children to add, and the ids of the stored children to
/// delete.
#[derive(Debug)]
pub struct ChildPlan {
    pub updates: Vec<Slot>,
    pub inserts: Vec<Slot>,
    pub deletes: Vec<i32>,
}

/// Whether `id` is one of `stored`.
pub fn holds_id(stored: &Vec<i32>, id: i32) -> (held: bool)
    ensures
        held == stored@.contains(id),
{
    let mut j: usize = 0;
    while j < stored.len()
        invariant
            j <= stored.len(),
            forall|k: int| 0 <= k < j ==> stored@[k] != id,
        decreases stored.len() - j,
    {
        if stored[j] == id {
            return true;
        }
        j += 1;
    }
    false
}

/// The first position at or after `from` where the update names `id`.
pub fn first_naming(wanted: &Vec<Option<i32>>, id: i32, from: usize) -> (found: Option<usize>)
    requires
        from <= wanted.len(),
    ensures
        match found {
            Some(i) => {
                &&& from <= i < wanted.len()
                &&& wanted@[i as int] == Some(id)
                &&& forall|k: int| from <= k < i ==> wanted@[k] != Some(id)
            },
            None => forall|k: int| from <= k < wanted.len() ==> wanted@[k] != Some(id),
        },
{
    let mut i: usize = from;
    while i < wanted.len()
        invariant
            from <= i <= wanted.len(),
            forall|k: int| from <= k < i ==> wanted@[k] != Some(id),
        decreases wanted.len() - i,
    {
        if wanted[i] == Some(id) {
            return Some(i);
        }
        i += 1;
    }
    None
}

/// Plans the reconciliation of the stored children with those of an update.
///
/// There is a plan unless the update names a stored child twice or the ids
/// run out. The plan keeps the stored children that the update names, in
/// stored order, adds the other children of the update in their order with
/// ids counted up from `next`, and deletes the stored children that the
/// update does not name.
pub fn plan_children(stored: &Vec<i32>, wanted: &Vec<Option<i32>>, next: i64) -> (plan: Option<
    ChildPlan,
>)
    requires
        stored@.no_duplicates(),
        1 <= next <= MAX_ID + 1,
    ensures
        plan is Some <==> feasible(stored@, wanted@, next as int),
        plan matches Some(p) ==> {
            &&& slots_view(p.updates@) == updates(stored@, wanted@)
            &&& slots_view(p.inserts@) == inserts(stored@, wanted@, next as int)
            &&& p.deletes@ == dropped(stored@, wanted@)
        },
{
    let mut ups: Vec<Slot> = Vec::new();
    let mut dels: Vec<i32> = Vec::new();
    let mut j: usize = 0;
    proof {
        assert(stored@.take(0) =~= Seq::<i32>::empty());
        assert(slots_view(ups@) =~= updates(stored@.take(0), wanted@));
        assert(dels@ =~= dropped(stored@.take(0), wanted@));
    }
    while j < stored.len()
        invariant
            j <= stored.len(),
            slots_view(ups@) == updates(stored@.take(j as int), wanted@),
            dels@ == dropped(stored@.take(j as int), wanted@),
            forall|jj: int, a: int, b: int|
                0 <= jj < j && 0 <= a < b < wanted@.len() && #[trigger] wanted@[a] == Some(
                    #[trigger] stored@[jj],
                ) ==> #[trigger] wanted@[b] != wanted@[a],
        decreases stored.len() - j,
    {
        let id = stored[j];
        let ghost before = stored@.take(j as int);
        proof {
            assert(stored@.take(j + 1) =~= before.push(id));
            before.lemma_filter_push(id, is_named(wanted@));
            before.lemma_filter_push(id, is_unnamed(wanted@));
        }
        match first_naming(wanted, id, 0) {
            None => {
                dels.push(id);
                proof {
                    assert(!wanted@.contains(Some(id)));
                    assert(dels@ =~= dropped(stored@.take(j + 1), wanted@));
                    assert(kept(stored@.take(j + 1), wanted@) == kept(before, wanted@));
                }
            },
            Some(i) => {
                match first_naming(wanted, id, i + 1) {
                    Some(b) => {
                        proof {
                            assert(stored@[j as int] == id);
                            assert(stored@.contains(id));
                            assert(recognized(stored@, wanted@[i as int]));
                            assert(wanted@[i as int] == wanted@[b as int]);
                            assert(conflict(stored@, wanted@));
                        }
                        return None;
                    },
                    None => {
                        let ghost earlier = ups@;
                        ups.push(Slot { id, source: i });
                        proof {
                            let stay = kept(before, wanted@);
                            assert(slots_view(earlier).len() == updates(before, wanted@).len());
                            assert(earlier.len() == stay.len());
                            assert forall|k: int| 0 <= k < earlier.len() implies slots_view(
                                ups@,
                            )[k] == updates(stored@.take(j + 1), wanted@)[k] by {
                                assert(slots_view(earlier)[k] == updates(before, wanted@)[k]);
                                assert(stay.push(id)[k] == stay[k]);
                            }
                            assert(wanted@.contains(Some(id)));
                            let chosen = wanted@.index_of(Some(id));
                            assert(0 <= chosen < wanted@.len() && wanted@[chosen] == Some(id));
                            assert(chosen == i);
                            assert(kept(stored@.take(j + 1), wanted@) == kept(
                                before,
                                wanted@,
                            ).push(id));
                            assert(slots_view(ups@) =~= updates(stored@.take(j + 1), wanted@));
                            assert(dropped(stored@.take(j + 1), wanted@) == dropped(
                                before,
                                wanted@,
                            ));
                        }
                    },
                }
            },
        }
        j += 1;
    }
    proof {
        assert(stored@.take(j as int) =~= stored@);
        if conflict(stored@, wanted@) {
            let (a, b) = choose|a: int, b: int|
                0 <= a < b < wanted@.len() && #[trigger] wanted@[a] == #[trigger] wanted@[b]
                    && recognized(stored@, wanted@[a]);
            let jj = stored@.index_of(wanted@[a]->0);
            assert(wanted@[a] == Some(stored@[jj]));
            assert(false);
        }
    }
    let mut ins: Vec<Slot> = Vec::new();
    let mut running: i64 = next;
    let mut i: usize = 0;
    proof {
        assert(positions(0) =~= Seq::<int>::empty());
        assert(new_positions(stored@, wanted@, 0) =~= Seq::<int>::empty());
    }
    while i < wanted.len()
        invariant
            i <= wanted.len(),
            1 <= next <= MAX_ID + 1,
            !conflict(stored@, wanted@),
            running == next + ins@.len(),
            running <= MAX_ID + 1,
            ins@.len() == new_positions(stored@, wanted@, i as int).len(),
            forall|k: int|
                0 <= k < ins@.len() ==> (#[trigger] ins@[k])@ == (SlotView {
                    id: next + k,
                    source: new_positions(stored@, wanted@, i as int)[k],
                }),
        decreases wanted.len() - i,
    {
        let ghost sources = new_positions(stored@, wanted@, i as int);
        proof {
            assert(positions(i + 1) =~= positions(i as int).push(i as int));
            positions(i as int).lemma_filter_push(i as int, is_new(stored@, wanted@));
        }
        let known = match wanted[i] {
            Some(id) => holds_id(stored, id),
            None => false,
        };
        assert(known == recognized(stored@, wanted@[i as int]));
        if !known {
            if running > MAX_ID as i64 {
                proof {
                    let all = wanted@.len() as int;
                    positions(all).lemma_filter_take_len(is_new(stored@, wanted@), i + 1);
                    assert(positions(all).take(i + 1) =~= positions(i + 1));
                }
                return None;
            }
            ins.push(Slot { id: running as i32, source: i });
            running += 1;
            proof {
                assert(new_positions(stored@, wanted@, i + 1) == sources.push(i as int));
            }
        } else {
            proof {
                assert(new_positions(stored@, wanted@, i + 1) == sources);
            }
        }
        i += 1;
    }
    proof {
        assert(slots_view(ins@) =~= inserts(stored@, wanted@, next as int));
    }
    Some(ChildPlan { updates: ups, inserts: ins, deletes: dels })
}

} // verus!
