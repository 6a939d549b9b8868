//! What holds of the children that a reconciliation leaves: which ids they
//! have and where their contents come from.

use vstd::prelude::*;

use crate::store::children::{
    conflict, dropped, inserts, is_named, is_new, is_unnamed, kept, new_positions, next_after,
    outcome, positions, recognized, rising, updates, SlotView,
};

verus! {

/// Filtering a list without duplicates leaves a list without duplicates.
pub proof fn lemma_filter_keeps_distinct<A>(s: Seq<A>, pred: spec_fn(A) -> bool)
    requires
        s.no_duplicates(),
    ensures
        s.filter(pred).no_duplicates(),
    decreases s.len(),
{
    reveal(Seq::filter);
    if s.len() > 0 {
        let rest = s.drop_last();
        lemma_filter_keeps_distinct(rest, pred);
        let out = s.filter(pred);
        let sub = rest.filter(pred);
        if pred(s.last()) {
            assert(out == sub.push(s.last()));
            assert forall|a: int, b: int| 0 <= a < out.len() && 0 <= b < out.len() && a
                != b implies out[a] != out[b] by {
                if a < sub.len() && b < sub.len() {
                } else {
                    let inner = if a < sub.len() { a } else { b };
                    assert(sub.contains(sub[inner]));
                    rest.lemma_filter_contains_rev(pred, sub[inner]);
                    let at = rest.index_of(sub[inner]);
                    assert(s[at] == sub[inner]);
                }
            }
        }
    }
}

/// Ids that rise along a list are distinct.
pub proof fn lemma_rising_is_distinct(ids: Seq<i32>)
    requires
        rising(ids),
    ensures
        ids.no_duplicates(),
{
    assert forall|a: int, b: int| 0 <= a < ids.len() && 0 <= b < ids.len() && a != b implies ids[a]
        != ids[b] by {
        if a < b {
            assert(ids[a] < ids[b]);
        } else {
            assert(ids[b] < ids[a]);
        }
    }
}

/// Filtering a list of rising ids leaves a list of rising ids.
pub proof fn lemma_filter_keeps_rising(ids: Seq<i32>, pred: spec_fn(i32) -> bool)
    requires
        rising(ids),
    ensures
        rising(ids.filter(pred)),
    decreases ids.len(),
{
    reveal(Seq::filter);
    if ids.len() > 0 {
        let rest = ids.drop_last();
        assert(rising(rest)) by {
            assert forall|a: int, b: int| 0 <= a < b < rest.len() implies rest[a] < rest[b] by {
                assert(ids[a] < ids[b]);
            }
        }
        lemma_filter_keeps_rising(rest, pred);
        let out = ids.filter(pred);
        let sub = rest.filter(pred);
        if pred(ids.last()) {
            assert(out == sub.push(ids.last()));
            assert forall|a: int, b: int| 0 <= a < b < out.len() implies out[a] < out[b] by {
                if b < sub.len() {
                    assert(sub[a] < sub[b]);
                } else {
                    assert(sub.contains(sub[a]));
                    rest.lemma_filter_contains_rev(pred, sub[a]);
                    let at = rest.index_of(sub[a]);
                    assert(ids[at] < ids[ids.len() - 1]);
                }
            }
        }
    }
}

/// The stored children that stay are stored children that the update names.
pub proof fn lemma_kept_are_named(stored: Seq<i32>, wanted: Seq<Option<i32>>, k: int)
    requires
        0 <= k < kept(stored, wanted).len(),
    ensures
        stored.contains(kept(stored, wanted)[k]),
        wanted.contains(Some(kept(stored, wanted)[k])),
        0 <= wanted.index_of(Some(kept(stored, wanted)[k])) < wanted.len(),
        wanted[wanted.index_of(Some(kept(stored, wanted)[k]))] == Some(kept(stored, wanted)[k]),
{
    let id = kept(stored, wanted)[k];
    stored.lemma_filter_pred(is_named(wanted), k);
    assert(kept(stored, wanted).contains(id));
    stored.lemma_filter_contains_rev(is_named(wanted), id);
}

/// The positions of the new children are positions of the update, in rising
/// order, and the children there are new.
pub proof fn lemma_new_positions_rise(stored: Seq<i32>, wanted: Seq<Option<i32>>, n: int)
    requires
        0 <= n <= wanted.len(),
    ensures
        new_positions(stored, wanted, n).len() <= n,
        forall|k: int|
            0 <= k < new_positions(stored, wanted, n).len() ==> 0 <= (#[trigger] new_positions(
                stored,
                wanted,
                n,
            )[k]) < n && !recognized(stored, wanted[new_positions(stored, wanted, n)[k]]),
        forall|a: int, b: int|
            0 <= a < b < new_positions(stored, wanted, n).len() ==> (#[trigger] new_positions(
                stored,
                wanted,
                n,
            )[a]) < (#[trigger] new_positions(stored, wanted, n)[b]),
        forall|i: int|
            0 <= i < n && !recognized(stored, wanted[i]) ==> new_positions(
                stored,
                wanted,
                n,
            ).contains(i),
    decreases n,
{
    if n == 0 {
        assert(positions(0) =~= Seq::<int>::empty());
        reveal(Seq::filter);
    } else {
        lemma_new_positions_rise(stored, wanted, n - 1);
        let before = new_positions(stored, wanted, n - 1);
        let now = new_positions(stored, wanted, n);
        assert(positions(n) =~= positions(n - 1).push(n - 1));
        positions(n - 1).lemma_filter_push(n - 1, is_new(stored, wanted));
        assert forall|i: int| 0 <= i < n && !recognized(stored, wanted[i]) implies now.contains(
            i,
        ) by {
            if i < n - 1 {
                assert(before.contains(i));
                let at = before.index_of(i);
                assert(now[at] == i);
            } else {
                assert(now[before.len() as int] == i);
            }
        }
    }
}

/// Every child of a plan takes its contents from a child of the update: a
/// stored child that stays from the child that names it, a new child from a
/// child that names no stored child.
pub proof fn lemma_sources_are_given(stored: Seq<i32>, wanted: Seq<Option<i32>>, next: int)
    ensures
        forall|k: int|
            0 <= k < updates(stored, wanted).len() ==> 0 <= (#[trigger] updates(
                stored,
                wanted,
            )[k]).source < wanted.len() && wanted[updates(stored, wanted)[k].source] == Some(
                updates(stored, wanted)[k].id as i32,
            ),
        forall|k: int|
            0 <= k < inserts(stored, wanted, next).len() ==> 0 <= (#[trigger] inserts(
                stored,
                wanted,
                next,
            )[k]).source < wanted.len() && !recognized(
                stored,
                wanted[inserts(stored, wanted, next)[k].source],
            ),
{
    let ups = updates(stored, wanted);
    let ins = inserts(stored, wanted, next);
    assert forall|k: int| 0 <= k < ups.len() implies 0 <= (#[trigger] ups[k]).source
        < wanted.len() && wanted[ups[k].source] == Some(ups[k].id as i32) by {
        lemma_kept_are_named(stored, wanted, k);
    }
    lemma_new_positions_rise(stored, wanted, wanted.len() as int);
    let sources = new_positions(stored, wanted, wanted.len() as int);
    assert forall|k: int| 0 <= k < ins.len() implies 0 <= (#[trigger] ins[k]).source
        < wanted.len() && !recognized(stored, wanted[ins[k].source]) by {
        assert(0 <= sources[k] < wanted.len());
    }
}

/// The children that a reconciliation leaves take their contents from the
/// update, have ids that were handed out, and no two of them the same id:
/// those that stay keep their ids, the new ones get the ids from `next` on.
pub proof fn lemma_outcome_is_sound(stored: Seq<i32>, wanted: Seq<Option<i32>>, next: int)
    requires
        stored.no_duplicates(),
        1 <= next,
        forall|j: int| 0 <= j < stored.len() ==> 1 <= #[trigger] stored[j] < next,
    ensures
        forall|k: int|
            0 <= k < outcome(stored, wanted, next).len() ==> {
                let slot = #[trigger] outcome(stored, wanted, next)[k];
                &&& 0 <= slot.source < wanted.len()
                &&& 1 <= slot.id < next_after(stored, wanted, next)
                &&& k < updates(stored, wanted).len() ==> wanted[slot.source] == Some(
                    slot.id as i32,
                ) && stored.contains(slot.id as i32)
                &&& k >= updates(stored, wanted).len() ==> slot.id == next + (k - updates(
                    stored,
                    wanted,
                ).len()) && !recognized(stored, wanted[slot.source])
            },
        forall|a: int, b: int|
            0 <= a < b < outcome(stored, wanted, next).len() ==> (#[trigger] outcome(
                stored,
                wanted,
                next,
            )[a]).id != (#[trigger] outcome(stored, wanted, next)[b]).id,
        next <= next_after(stored, wanted, next),
{
    let all = outcome(stored, wanted, next);
    let ups = updates(stored, wanted);
    let ins = inserts(stored, wanted, next);
    let stay = kept(stored, wanted);
    lemma_new_positions_rise(stored, wanted, wanted.len() as int);
    lemma_filter_keeps_distinct(stored, is_named(wanted));
    assert forall|k: int| 0 <= k < all.len() implies {
        let slot = #[trigger] all[k];
        &&& 0 <= slot.source < wanted.len()
        &&& 1 <= slot.id < next_after(stored, wanted, next)
        &&& k < ups.len() ==> wanted[slot.source] == Some(slot.id as i32) && stored.contains(
            slot.id as i32,
        )
        &&& k >= ups.len() ==> slot.id == next + (k - ups.len()) && !recognized(
            stored,
            wanted[slot.source],
        )
    } by {
        assert(ups.len() == stay.len());
        if k < ups.len() {
            lemma_kept_are_named(stored, wanted, k);
            let at = stored.index_of(stay[k]);
            assert(1 <= stored[at] < next);
            assert(all[k] == ups[k]);
            assert(ups[k].id == stay[k] as int);
            assert(ups[k].source == wanted.index_of(Some(stay[k])));
        } else {
            let sources = new_positions(stored, wanted, wanted.len() as int);
            let at = k - ups.len();
            assert(all[k] == ins[at]);
            assert(ins.len() == sources.len());
            assert(ins[at].id == next + at);
            assert(ins[at].source == sources[at]);
            assert(0 <= sources[at] < wanted.len() && !recognized(stored, wanted[sources[at]]));
        }
    }
    assert forall|a: int, b: int| 0 <= a < b < all.len() implies (#[trigger] all[a]).id != (
    #[trigger] all[b]).id by {
        if b < ups.len() {
            assert(stay[a] != stay[b]);
        } else if a < ups.len() {
            lemma_kept_are_named(stored, wanted, a);
            let at = stored.index_of(stay[a]);
            assert(1 <= stored[at] < next);
            assert(all[b] == ins[b - ups.len()]);
        } else {
            assert(all[a] == ins[a - ups.len()]);
            assert(all[b] == ins[b - ups.len()]);
        }
    }
}

/// A child of the update that names a stored child takes that child's place:
/// the child stays, under its id, with the contents that the update gives at
/// this position.
pub proof fn lemma_named_child_is_kept(stored: Seq<i32>, wanted: Seq<Option<i32>>, i: int)
    requires
        stored.no_duplicates(),
        !conflict(stored, wanted),
        0 <= i < wanted.len(),
        recognized(stored, wanted[i]),
    ensures
        exists|k: int|
            0 <= k < updates(stored, wanted).len() && #[trigger] updates(stored, wanted)[k] == (
            SlotView { id: wanted[i]->0 as int, source: i }),
{
    let id = wanted[i]->0;
    let j = stored.index_of(id);
    assert(wanted.contains(Some(id)));
    stored.lemma_filter_contains(is_named(wanted), j);
    let stay = kept(stored, wanted);
    let k = stay.index_of(id);
    assert(0 <= k < stay.len() && stay[k] == id);
    let chosen = wanted.index_of(Some(id));
    assert(0 <= chosen < wanted.len() && wanted[chosen] == Some(id));
    if chosen < i {
        assert(wanted[chosen] == wanted[i] && recognized(stored, wanted[chosen]));
    } else if i < chosen {
        assert(wanted[i] == wanted[chosen]);
    }
    assert(updates(stored, wanted)[k] == (SlotView { id: id as int, source: i }));
}

/// A stored child that the update does not name is dropped: it is among
/// those to delete, and no child of the outcome has its id.
pub proof fn lemma_unnamed_child_is_dropped(
    stored: Seq<i32>,
    wanted: Seq<Option<i32>>,
    next: int,
    j: int,
)
    requires
        stored.no_duplicates(),
        1 <= next,
        forall|m: int| 0 <= m < stored.len() ==> 1 <= #[trigger] stored[m] < next,
        0 <= j < stored.len(),
        !wanted.contains(Some(stored[j])),
    ensures
        dropped(stored, wanted).contains(stored[j]),
        forall|k: int|
            0 <= k < outcome(stored, wanted, next).len() ==> (#[trigger] outcome(
                stored,
                wanted,
                next,
            )[k]).id != stored[j],
{
    stored.lemma_filter_contains(is_unnamed(wanted), j);
    lemma_outcome_is_sound(stored, wanted, next);
    let all = outcome(stored, wanted, next);
    assert forall|k: int| 0 <= k < all.len() implies (#[trigger] all[k]).id != stored[j] by {
        if all[k].id == stored[j] {
            if k < updates(stored, wanted).len() {
                assert(wanted[all[k].source] == Some(stored[j]));
            }
        }
    }
}

/// A child of the update that names no stored child is added: it gets an id
/// that was never handed out before.
pub proof fn lemma_new_child_is_added(
    stored: Seq<i32>,
    wanted: Seq<Option<i32>>,
    next: int,
    i: int,
)
    requires
        0 <= i < wanted.len(),
        !recognized(stored, wanted[i]),
    ensures
        exists|k: int|
            0 <= k < inserts(stored, wanted, next).len() && #[trigger] inserts(
                stored,
                wanted,
                next,
            )[k] == (SlotView { id: next + k, source: i }),
{
    lemma_new_positions_rise(stored, wanted, wanted.len() as int);
    let sources = new_positions(stored, wanted, wanted.len() as int);
    assert(sources.contains(i));
    let k = sources.index_of(i);
    assert(0 <= k < sources.len() && sources[k] == i);
    assert(inserts(stored, wanted, next)[k] == (SlotView { id: next + k, source: i }));
}

/// The predicate "the child of the update at this position names a stored
/// child".
pub open spec fn is_old(stored: Seq<i32>, wanted: Seq<Option<i32>>) -> spec_fn(int) -> bool {
    |i: int| 0 <= i < wanted.len() && recognized(stored, wanted[i])
}

/// The positions of the update, up to `n`, whose child names a stored child.
pub open spec fn old_positions(stored: Seq<i32>, wanted: Seq<Option<i32>>, n: int) -> Seq<int> {
    positions(n).filter(is_old(stored, wanted))
}

/// The positions that name a stored child are positions of the update, in
/// rising order; each position is either one of them or that of a new child.
pub proof fn lemma_old_positions_rise(stored: Seq<i32>, wanted: Seq<Option<i32>>, n: int)
    requires
        0 <= n <= wanted.len(),
    ensures
        old_positions(stored, wanted, n).len() + new_positions(stored, wanted, n).len() == n,
        forall|k: int|
            0 <= k < old_positions(stored, wanted, n).len() ==> 0 <= (#[trigger] old_positions(
                stored,
                wanted,
                n,
            )[k]) < n && recognized(stored, wanted[old_positions(stored, wanted, n)[k]]),
        forall|a: int, b: int|
            0 <= a < b < old_positions(stored, wanted, n).len() ==> (#[trigger] old_positions(
                stored,
                wanted,
                n,
            )[a]) < (#[trigger] old_positions(stored, wanted, n)[b]),
        forall|i: int|
            0 <= i < n && recognized(stored, wanted[i]) ==> old_positions(
                stored,
                wanted,
                n,
            ).contains(i),
    decreases n,
{
    if n == 0 {
        assert(positions(0) =~= Seq::<int>::empty());
        reveal(Seq::filter);
    } else {
        lemma_old_positions_rise(stored, wanted, n - 1);
        let before = old_positions(stored, wanted, n - 1);
        let now = old_positions(stored, wanted, n);
        assert(positions(n) =~= positions(n - 1).push(n - 1));
        positions(n - 1).lemma_filter_push(n - 1, is_old(stored, wanted));
        positions(n - 1).lemma_filter_push(n - 1, is_new(stored, wanted));
        assert forall|i: int| 0 <= i < n && recognized(stored, wanted[i]) implies now.contains(
            i,
        ) by {
            if i < n - 1 {
                assert(before.contains(i));
                let at = before.index_of(i);
                assert(now[at] == i);
            } else {
                assert(now[before.len() as int] == i);
            }
        }
    }
}

/// Where the update names no stored child twice, the recipe has after it as
/// many children as the update gives: one for each.
pub proof fn lemma_outcome_counts(stored: Seq<i32>, wanted: Seq<Option<i32>>, next: int)
    requires
        stored.no_duplicates(),
        !conflict(stored, wanted),
    ensures
        outcome(stored, wanted, next).len() == wanted.len(),
        updates(stored, wanted).len() + dropped(stored, wanted).len() == stored.len(),
{
    let n = wanted.len() as int;
    lemma_old_positions_rise(stored, wanted, n);
    let olds = old_positions(stored, wanted, n);
    let named = olds.map_values(|i: int| wanted[i]->0);
    let stay = kept(stored, wanted);
    lemma_filter_keeps_distinct(stored, is_named(wanted));
    assert forall|a: int, b: int| 0 <= a < named.len() && 0 <= b < named.len() && a
        != b implies named[a] != named[b] by {
        let low = if a < b { a } else { b };
        let high = if a < b { b } else { a };
        assert(olds[low] < olds[high]);
        if named[a] == named[b] {
            assert(wanted[olds[low]] == wanted[olds[high]]);
            assert(recognized(stored, wanted[olds[low]]));
        }
    }
    assert forall|x: i32| stay.contains(x) implies named.contains(x) by {
        let k = stay.index_of(x);
        lemma_kept_are_named(stored, wanted, k);
        let i = wanted.index_of(Some(x));
        assert(recognized(stored, wanted[i]));
        assert(olds.contains(i));
        let at = olds.index_of(i);
        assert(named[at] == x);
    }
    assert forall|x: i32| named.contains(x) implies stay.contains(x) by {
        let at = named.index_of(x);
        let i = olds[at];
        assert(recognized(stored, wanted[i]));
        assert(wanted[i] == Some(x));
        let j = stored.index_of(x);
        assert(wanted.contains(Some(x)));
        stored.lemma_filter_contains(is_named(wanted), j);
    }
    assert(stay.to_set() =~= named.to_set());
    stay.unique_seq_to_set();
    named.unique_seq_to_set();
    assert(stay.len() == olds.len());
    lemma_kept_and_dropped_split(stored, wanted);
}

/// Each stored child either stays or is dropped.
pub proof fn lemma_kept_and_dropped_split(stored: Seq<i32>, wanted: Seq<Option<i32>>)
    ensures
        kept(stored, wanted).len() + dropped(stored, wanted).len() == stored.len(),
    decreases stored.len(),
{
    reveal(Seq::filter);
    if stored.len() > 0 {
        lemma_kept_and_dropped_split(stored.drop_last(), wanted);
    }
}

/// Where the stored children stand in the order of their ids, so do the
/// children that a reconciliation leaves: those that stay keep their order,
/// and the new ones come after them, in the order of the update.
pub proof fn lemma_outcome_rises(stored: Seq<i32>, wanted: Seq<Option<i32>>, next: int)
    requires
        rising(stored),
        1 <= next,
        forall|j: int| 0 <= j < stored.len() ==> 1 <= #[trigger] stored[j] < next,
    ensures
        forall|a: int, b: int|
            0 <= a < b < outcome(stored, wanted, next).len() ==> (#[trigger] outcome(
                stored,
                wanted,
                next,
            )[a]).id < (#[trigger] outcome(stored, wanted, next)[b]).id,
        forall|a: int, b: int|
            updates(stored, wanted).len() <= a < b < outcome(stored, wanted, next).len() ==> (
            #[trigger] outcome(stored, wanted, next)[a]).source < (#[trigger] outcome(
                stored,
                wanted,
                next,
            )[b]).source,
{
    let all = outcome(stored, wanted, next);
    let ups = updates(stored, wanted);
    let ins = inserts(stored, wanted, next);
    let stay = kept(stored, wanted);
    lemma_rising_is_distinct(stored);
    lemma_filter_keeps_rising(stored, is_named(wanted));
    lemma_new_positions_rise(stored, wanted, wanted.len() as int);
    assert(ups.len() == stay.len());
    assert forall|a: int, b: int| 0 <= a < b < all.len() implies (#[trigger] all[a]).id < (
    #[trigger] all[b]).id by {
        if b < ups.len() {
            assert(stay[a] < stay[b]);
            assert(all[a] == ups[a]);
            assert(all[b] == ups[b]);
        } else if a < ups.len() {
            lemma_kept_are_named(stored, wanted, a);
            let at = stored.index_of(stay[a]);
            assert(1 <= stored[at] < next);
            assert(all[a] == ups[a]);
            assert(all[b] == ins[b - ups.len()]);
        } else {
            assert(all[a] == ins[a - ups.len()]);
            assert(all[b] == ins[b - ups.len()]);
        }
    }
    assert forall|a: int, b: int| ups.len() <= a < b < all.len() implies (#[trigger] all[a]).source
        < (#[trigger] all[b]).source by {
        let sources = new_positions(stored, wanted, wanted.len() as int);
        assert(all[a] == ins[a - ups.len()]);
        assert(all[b] == ins[b - ups.len()]);
        assert(sources[a - ups.len()] < sources[b - ups.len()]);
    }
}

} // verus!
