//! Shared reference data: names of ingredients or of units, each stored once
//! and found again by name.
//!
//! A table is a list of distinct, non-empty names. Rows are only ever added,
//! so the row at position `k` keeps the id `k + 1` for good.

use vstd::prelude::*;

verus! {

/// The kinds of reference data.
#[derive(Debug, PartialEq, Eq, Clone, Copy, Structural)]
pub enum ReferenceKind {
    Ingredient,
    Unit,
}

/// The largest id a row can have.
pub const MAX_ID: i32 = 0x7fff_ffff;

/// The characters of each text of a list, in order.
pub open spec fn texts_view(texts: Seq<String>) -> Seq<Seq<char>> {
    texts.map_values(|t: String| t@)
}

/// Every name of the list has at least one character.
pub open spec fn all_named(names: Seq<Seq<char>>) -> bool {
    forall|i: int| 0 <= i < names.len() ==> (#[trigger] names[i]).len() > 0
}

/// What a table may hold: distinct, non-empty names, no more than there are
/// ids.
pub open spec fn table_wf(table: Seq<Seq<char>>) -> bool {
    &&& table.no_duplicates()
    &&& all_named(table)
    &&& table.len() <= MAX_ID
}

/// The table once `name` has been resolved: unchanged where the name is
/// stored already, with one more row where it is not.
pub open spec fn intern(table: Seq<Seq<char>>, name: Seq<char>) -> Seq<Seq<char>> {
    if table.contains(name) {
        table
    } else {
        table.push(name)
    }
}

/// The table once every name of `names` has been resolved, first to last.
pub open spec fn intern_all(table: Seq<Seq<char>>, names: Seq<Seq<char>>) -> Seq<Seq<char>>
    decreases names.len(),
{
    if names.len() == 0 {
        table
    } else {
        intern(intern_all(table, names.drop_last()), names.last())
    }
}

/// The id under which a table stores `name`. Meaningful only for a name that
/// the table contains.
pub open spec fn id_of(table: Seq<Seq<char>>, name: Seq<char>) -> int {
    table.index_of(name) + 1
}

/// In a table without duplicates a name is stored at one position only.
pub proof fn lemma_id_of_position(table: Seq<Seq<char>>, k: int)
    requires
        table.no_duplicates(),
        0 <= k < table.len(),
    ensures
        id_of(table, table[k]) == k + 1,
{
    let found = table.index_of(table[k]);
    assert(0 <= found < table.len() && table[found] == table[k]);
}

/// Resolving names only ever appends rows: what was stored stays where it
/// was, and nothing is stored twice.
pub proof fn lemma_intern_all_extends(table: Seq<Seq<char>>, names: Seq<Seq<char>>)
    requires
        table.no_duplicates(),
    ensures
        intern_all(table, names).no_duplicates(),
        table.len() <= intern_all(table, names).len(),
        intern_all(table, names).take(table.len() as int) == table,
        forall|n: Seq<char>| table.contains(n) ==> intern_all(table, names).contains(n),
        forall|i: int|
            0 <= i < names.len() ==> intern_all(table, names).contains(#[trigger] names[i]),
        all_named(table) && all_named(names) ==> all_named(intern_all(table, names)),
    decreases names.len(),
{
    let after = intern_all(table, names);
    if names.len() == 0 {
        assert(after.take(table.len() as int) =~= table);
    } else {
        let before = intern_all(table, names.drop_last());
        lemma_intern_all_extends(table, names.drop_last());
        let last = names.last();
        assert(before.take(table.len() as int) == table);
        assert(after.take(table.len() as int) =~= before.take(table.len() as int));
        assert forall|n: Seq<char>| table.contains(n) implies after.contains(n) by {
            assert(before.contains(n));
            let j = before.index_of(n);
            assert(after[j] == n);
        }
        assert forall|i: int| 0 <= i < names.len() implies after.contains(
            #[trigger] names[i],
        ) by {
            if i < names.len() - 1 {
                assert(names.drop_last()[i] == names[i]);
                assert(before.contains(names[i]));
                let j = before.index_of(names[i]);
                assert(after[j] == names[i]);
            } else {
                if before.contains(last) {
                } else {
                    assert(after[before.len() as int] == last);
                }
            }
        }
        if all_named(table) && all_named(names) {
            assert(all_named(names.drop_last())) by {
                assert forall|i: int| 0 <= i < names.drop_last().len() implies (
                #[trigger] names.drop_last()[i]).len() > 0 by {
                    assert(names.drop_last()[i] == names[i]);
                }
            }
        }
    }
}

/// The length of the table never shrinks while names are resolved one after
/// the other.
pub proof fn lemma_intern_all_prefix_len(table: Seq<Seq<char>>, names: Seq<Seq<char>>, i: int)
    requires
        0 <= i <= names.len(),
    ensures
        intern_all(table, names.take(i)).len() <= intern_all(table, names).len(),
    decreases names.len() - i,
{
    if i == names.len() {
        assert(names.take(i) =~= names);
    } else {
        lemma_intern_all_prefix_len(table, names, i + 1);
        assert(names.take(i + 1).drop_last() =~= names.take(i));
    }
}

/// A name that is stored keeps its id, whatever is resolved later.
pub proof fn lemma_ids_are_stable(table: Seq<Seq<char>>, names: Seq<Seq<char>>, name: Seq<char>)
    requires
        table.no_duplicates(),
        table.contains(name),
    ensures
        intern_all(table, names).contains(name),
        id_of(intern_all(table, names), name) == id_of(table, name),
{
    lemma_intern_all_extends(table, names);
    let after = intern_all(table, names);
    let k = table.index_of(name);
    assert(after.take(table.len() as int)[k] == table[k]);
    assert(after[k] == name);
    lemma_id_of_position(after, k);
}

/// Resolving the same names once more changes nothing: every name is stored
/// exactly once, and under the id it was given the first time.
pub proof fn lemma_resolution_is_idempotent(table: Seq<Seq<char>>, names: Seq<Seq<char>>)
    requires
        table.no_duplicates(),
    ensures
        intern_all(intern_all(table, names), names) == intern_all(table, names),
        intern_all(table, names).no_duplicates(),
        forall|i: int|
            0 <= i < names.len() ==> intern_all(table, names).contains(#[trigger] names[i]),
        forall|i: int|
            0 <= i < names.len() ==> id_of(
                intern_all(intern_all(table, names), names),
                #[trigger] names[i],
            ) == id_of(intern_all(table, names), names[i]),
{
    lemma_intern_all_extends(table, names);
    lemma_intern_all_of_stored(intern_all(table, names), names);
}

/// Resolving names that are all stored leaves the table as it is.
pub proof fn lemma_intern_all_of_stored(table: Seq<Seq<char>>, names: Seq<Seq<char>>)
    requires
        forall|i: int| 0 <= i < names.len() ==> table.contains(#[trigger] names[i]),
    ensures
        intern_all(table, names) == table,
    decreases names.len(),
{
    if names.len() > 0 {
        assert forall|i: int| 0 <= i < names.drop_last().len() implies table.contains(
            #[trigger] names.drop_last()[i],
        ) by {
            assert(names.drop_last()[i] == names[i]);
        }
        lemma_intern_all_of_stored(table, names.drop_last());
        assert(table.contains(names[names.len() - 1]));
    }
}

} // verus!
