//! What holds of the recipe book across operations: what was written can be
//! read back, an update keeps, overwrites, adds and drops exactly the
//! children it should, and what is not there is reported as not found.

use vstd::prelude::*;

use crate::domain::recipe::{Error, RecipeView, StepView};
use crate::store::children::{inserts, outcome, recognized, updates, SlotView};
use crate::store::outcome::{
    lemma_named_child_is_kept, lemma_new_child_is_added, lemma_outcome_counts,
    lemma_outcome_is_sound, lemma_unnamed_child_is_dropped,
};
use crate::store::soundness::{lemma_create_keeps_wf, lemma_stored_ids, lemma_update_keeps_wf};
use crate::store::reference::{
    id_of, intern_all, lemma_ids_are_stable, lemma_resolution_is_idempotent, ReferenceKind, MAX_ID,
};
use crate::store::state::{
    after_create, after_delete, after_resolve, after_update, book_wf, create_refusal, created_recipe,
    empty_book, has_recipe, ingredient_names, line_ids, line_wanted, line_wf, place_of, read,
    recipe_fits, step_ids, step_wanted, step_wf, stored_line, stored_step, table_of, unit_names,
    update_refusal, updated_recipe, BookView,
};

verus! {

/// Resolving the same names once more changes nothing in the book: every
/// name has exactly one row, and the id that it was given the first time.
/// What was stored before keeps its row and its id, and no recipe changes.
pub proof fn lemma_resolving_again_changes_nothing(
    book: BookView,
    kind: ReferenceKind,
    names: Seq<Seq<char>>,
)
    requires
        book_wf(book),
    ensures
        after_resolve(after_resolve(book, kind, names), kind, names) == after_resolve(
            book,
            kind,
            names,
        ),
        table_of(after_resolve(book, kind, names), kind).no_duplicates(),
        forall|i: int|
            0 <= i < names.len() ==> table_of(after_resolve(book, kind, names), kind).contains(
                #[trigger] names[i],
            ),
        forall|name: Seq<char>|
            table_of(book, kind).contains(name) ==> table_of(
                after_resolve(book, kind, names),
                kind,
            ).contains(name) && id_of(table_of(after_resolve(book, kind, names), kind), name)
                == id_of(table_of(book, kind), name),
        after_resolve(book, kind, names).recipes == book.recipes,
{
    let table = table_of(book, kind);
    lemma_resolution_is_idempotent(table, names);
    assert forall|name: Seq<char>| table.contains(name) implies table_of(
        after_resolve(book, kind, names),
        kind,
    ).contains(name) && id_of(table_of(after_resolve(book, kind, names), kind), name) == id_of(
        table,
        name,
    ) by {
        lemma_ids_are_stable(table, names, name);
    }
}

/// In a well-formed book a recipe is found at one place only: where it
/// stands.
pub proof fn lemma_place_is_unique(book: BookView, k: int)
    requires
        book_wf(book),
        0 <= k < book.recipes.len(),
    ensures
        book.recipes[k].id is Some,
        has_recipe(book, book.recipes[k].id->0),
        place_of(book, book.recipes[k].id->0) == k,
        read(book, book.recipes[k].id->0) == Ok::<_, Error>(book.recipes[k]),
{
    assert(recipe_fits(book.recipes[k], book));
    let id = book.recipes[k].id->0;
    assert(book.recipes[k].id == Some(id));
    let chosen = place_of(book, id);
    if chosen < k {
        assert(book.recipes[chosen].id->0 < book.recipes[k].id->0);
    } else if k < chosen {
        assert(book.recipes[k].id->0 < book.recipes[chosen].id->0);
    }
}

/// Recipes are listed in the order of their ids, lowest first, and no two
/// recipes have the same id.
pub proof fn lemma_recipes_are_listed_by_id(book: BookView, a: int, b: int)
    requires
        book_wf(book),
        0 <= a < b < book.recipes.len(),
    ensures
        book.recipes[a].id is Some,
        book.recipes[b].id is Some,
        book.recipes[a].id->0 < book.recipes[b].id->0,
{
    assert(recipe_fits(book.recipes[a], book));
    assert(recipe_fits(book.recipes[b], book));
}

/// The steps and the ingredient lines of a recipe are listed in the order in
/// which they were added, which is that of their ids; each belongs to the
/// recipe it is listed with, and to no other.
pub proof fn lemma_children_are_listed_by_id(book: BookView, k: int)
    requires
        book_wf(book),
        0 <= k < book.recipes.len(),
    ensures
        forall|a: int, b: int|
            0 <= a < b < book.recipes[k].steps.len() ==> (#[trigger] book.recipes[k].steps[a]).id->0
                < (#[trigger] book.recipes[k].steps[b]).id->0,
        forall|a: int, b: int|
            0 <= a < b < book.recipes[k].ingredients.len() ==> (
            #[trigger] book.recipes[k].ingredients[a]).id->0 < (
            #[trigger] book.recipes[k].ingredients[b]).id->0,
        forall|a: int|
            0 <= a < book.recipes[k].steps.len() ==> (#[trigger] book.recipes[k].steps[a]).recipe_id
                == book.recipes[k].id,
        forall|a: int|
            0 <= a < book.recipes[k].ingredients.len() ==> (
            #[trigger] book.recipes[k].ingredients[a]).recipe_id == book.recipes[k].id,
        forall|other: int, a: int, b: int|
            0 <= other < book.recipes.len() && other != k && 0 <= a < book.recipes[k].steps.len()
                && 0 <= b < book.recipes[other].steps.len() ==> (
            #[trigger] book.recipes[k].steps[a]).id != (#[trigger] book.recipes[other].steps[b]).id,
        forall|other: int, a: int, b: int|
            0 <= other < book.recipes.len() && other != k && 0 <= a
                < book.recipes[k].ingredients.len() && 0 <= b
                < book.recipes[other].ingredients.len() ==> (
            #[trigger] book.recipes[k].ingredients[a]).id != (
            #[trigger] book.recipes[other].ingredients[b]).id,
{
    let recipe = book.recipes[k];
    assert(recipe_fits(recipe, book));
    assert forall|a: int, b: int| 0 <= a < b < recipe.steps.len() implies (
    #[trigger] recipe.steps[a]).id->0 < (#[trigger] recipe.steps[b]).id->0 by {
        assert(step_ids(recipe.steps)[a] < step_ids(recipe.steps)[b]);
    }
    assert forall|a: int, b: int| 0 <= a < b < recipe.ingredients.len() implies (
    #[trigger] recipe.ingredients[a]).id->0 < (#[trigger] recipe.ingredients[b]).id->0 by {
        assert(line_ids(recipe.ingredients)[a] < line_ids(recipe.ingredients)[b]);
    }
    assert forall|a: int| 0 <= a < recipe.steps.len() implies (#[trigger] recipe.steps[a]).recipe_id
        == recipe.id by {
        assert(step_wf(recipe.steps[a], recipe.id->0, book.next_step_id));
    }
    assert forall|a: int| 0 <= a < recipe.ingredients.len() implies (
    #[trigger] recipe.ingredients[a]).recipe_id == recipe.id by {
        assert(line_wf(
            recipe.ingredients[a],
            recipe.id->0,
            book.next_line_id,
            book.ingredients,
            book.units,
        ));
    }
}

/// A recipe that is not stored is reported as not found, under the id that
/// was asked for; the book before anything was stored lists no recipe.
pub proof fn lemma_missing_recipe_is_not_found(book: BookView, id: i32)
    requires
        !has_recipe(book, id),
    ensures
        read(book, id) == Err::<RecipeView, _>(Error::RecipeNotFound(id)),
        empty_book().recipes.len() == 0,
        read(empty_book(), id) == Err::<RecipeView, _>(Error::RecipeNotFound(id)),
{
}

/// A recipe that was created can be read back under its id, as it was handed
/// out: with an id of its own, with as many steps and ingredient lines as
/// were given, each with an id, bound to the recipe, and with the contents
/// that were given. The recipes that were stored before are read as before.
pub proof fn lemma_created_recipe_reads_back(book: BookView, given: RecipeView)
    requires
        book_wf(book),
        create_refusal(book, given) is None,
    ensures
        created_recipe(book, given).id is Some,
        !has_recipe(book, created_recipe(book, given).id->0),
        read(after_create(book, given), created_recipe(book, given).id->0) == Ok::<_, Error>(
            created_recipe(book, given),
        ),
        created_recipe(book, given).title == given.title,
        created_recipe(book, given).description == given.description,
        created_recipe(book, given).author == given.author,
        created_recipe(book, given).yield_quantity == given.yield_quantity,
        created_recipe(book, given).yield_units.name == given.yield_units.name,
        created_recipe(book, given).yield_units.id is Some,
        created_recipe(book, given).steps.len() == given.steps.len(),
        created_recipe(book, given).ingredients.len() == given.ingredients.len(),
        forall|i: int|
            0 <= i < given.steps.len() ==> {
                let step = #[trigger] created_recipe(book, given).steps[i];
                &&& step.id is Some
                &&& step.recipe_id == created_recipe(book, given).id
                &&& step.ordinal == given.steps[i].ordinal
                &&& step.instruction == given.steps[i].instruction
            },
        forall|i: int|
            0 <= i < given.ingredients.len() ==> {
                let line = #[trigger] created_recipe(book, given).ingredients[i];
                &&& line.id is Some
                &&& line.recipe_id == created_recipe(book, given).id
                &&& line.ingredient.id is Some
                &&& line.ingredient.name == given.ingredients[i].ingredient.name
                &&& line.quantity == given.ingredients[i].quantity
                &&& line.units.id is Some
                &&& line.units.name == given.ingredients[i].units.name
                &&& line.preparation == given.ingredients[i].preparation
            },
        forall|other: i32|
            has_recipe(book, other) ==> read(after_create(book, given), other) == read(
                book,
                other,
            ),
{
    let after = after_create(book, given);
    let made = created_recipe(book, given);
    lemma_create_keeps_wf(book, given);
    let last = book.recipes.len() as int;
    assert(after.recipes[last] == made);
    lemma_place_is_unique(after, last);
    if has_recipe(book, made.id->0) {
        let k = place_of(book, made.id->0);
        assert(recipe_fits(book.recipes[k], book));
    }
    assert forall|other: i32| has_recipe(book, other) implies read(after, other) == read(
        book,
        other,
    ) by {
        let k = place_of(book, other);
        lemma_place_is_unique(book, k);
        assert(after.recipes[k] == book.recipes[k]);
        lemma_place_is_unique(after, k);
    }
}

/// A recipe that was updated can be read back under its id, as it was handed
/// out, and has as many steps and ingredient lines as the update gave. The
/// other recipes are read as before.
pub proof fn lemma_updated_recipe_reads_back(book: BookView, given: RecipeView)
    requires
        book_wf(book),
        update_refusal(book, given) is None,
    ensures
        updated_recipe(book, given).id == given.id,
        read(after_update(book, given), given.id->0) == Ok::<_, Error>(
            updated_recipe(book, given),
        ),
        updated_recipe(book, given).steps.len() == given.steps.len(),
        updated_recipe(book, given).ingredients.len() == given.ingredients.len(),
        forall|other: i32|
            other != given.id->0 ==> read(after_update(book, given), other) == read(book, other),
{
    let after = after_update(book, given);
    let id = given.id->0;
    lemma_update_keeps_wf(book, given);
    let place = place_of(book, id);
    let stored = book.recipes[place];
    assert(after.recipes[place] == updated_recipe(book, given));
    lemma_place_is_unique(after, place);
    lemma_stored_ids(book, place);
    lemma_outcome_counts(step_ids(stored.steps), step_wanted(given.steps), book.next_step_id);
    lemma_outcome_counts(
        line_ids(stored.ingredients),
        line_wanted(given.ingredients),
        book.next_line_id,
    );
    assert forall|other: i32| other != id implies read(after, other) == read(book, other) by {
        if has_recipe(book, other) {
            let k = place_of(book, other);
            lemma_place_is_unique(book, k);
            assert(after.recipes[k] == book.recipes[k]);
            lemma_place_is_unique(after, k);
        } else if has_recipe(after, other) {
            let k = place_of(after, other);
            assert(after.recipes[k].id == Some(other));
            assert(book.recipes[k].id == Some(other));
        }
    }
}

/// A step of the update that carries the id of a stored step of the recipe
/// overwrites that step: after the update the recipe has a step under this
/// id with the ordinal and the instruction that the update gives.
pub proof fn lemma_update_overwrites_named_step(book: BookView, given: RecipeView, i: int)
    requires
        book_wf(book),
        update_refusal(book, given) is None,
        0 <= i < given.steps.len(),
        recognized(step_ids(book.recipes[place_of(book, given.id->0)].steps), given.steps[i].id),
    ensures
        updated_recipe(book, given).steps.contains(
            StepView {
                id: given.steps[i].id,
                recipe_id: given.id,
                ordinal: given.steps[i].ordinal,
                instruction: given.steps[i].instruction,
            },
        ),
{
    lemma_update_keeps_wf(book, given);
    let place = place_of(book, given.id->0);
    let stored = step_ids(book.recipes[place].steps);
    let wanted = step_wanted(given.steps);
    lemma_stored_ids(book, place);
    lemma_named_child_is_kept(stored, wanted, i);
    let k = choose|k: int|
        0 <= k < updates(stored, wanted).len() && #[trigger] updates(stored, wanted)[k] == (
        SlotView { id: wanted[i]->0 as int, source: i });
    assert(outcome(stored, wanted, book.next_step_id)[k] == updates(stored, wanted)[k]);
    assert(updated_recipe(book, given).steps[k] == stored_step(
        given.steps[i],
        wanted[i]->0 as int,
        given.id->0,
    ));
}

/// An ingredient line of the update that carries the id of a stored line of
/// the recipe overwrites that line: after the update the recipe has a line
/// under this id with the ingredient, the quantity, the unit and the
/// preparation that the update gives.
pub proof fn lemma_update_overwrites_named_line(book: BookView, given: RecipeView, i: int)
    requires
        book_wf(book),
        update_refusal(book, given) is None,
        0 <= i < given.ingredients.len(),
        recognized(
            line_ids(book.recipes[place_of(book, given.id->0)].ingredients),
            given.ingredients[i].id,
        ),
    ensures
        exists|k: int|
            0 <= k < updated_recipe(book, given).ingredients.len() && {
                let line = #[trigger] updated_recipe(book, given).ingredients[k];
                &&& line.id == given.ingredients[i].id
                &&& line.recipe_id == given.id
                &&& line.ingredient.name == given.ingredients[i].ingredient.name
                &&& line.quantity == given.ingredients[i].quantity
                &&& line.units.name == given.ingredients[i].units.name
                &&& line.preparation == given.ingredients[i].preparation
            },
{
    lemma_update_keeps_wf(book, given);
    let place = place_of(book, given.id->0);
    let stored = line_ids(book.recipes[place].ingredients);
    let wanted = line_wanted(given.ingredients);
    lemma_stored_ids(book, place);
    lemma_named_child_is_kept(stored, wanted, i);
    let k = choose|k: int|
        0 <= k < updates(stored, wanted).len() && #[trigger] updates(stored, wanted)[k] == (
        SlotView { id: wanted[i]->0 as int, source: i });
    assert(outcome(stored, wanted, book.next_line_id)[k] == updates(stored, wanted)[k]);
    let line = updated_recipe(book, given).ingredients[k];
    assert(line == stored_line(
        given.ingredients[i],
        wanted[i]->0 as int,
        given.id->0,
        intern_all(book.ingredients, ingredient_names(given)),
        intern_all(book.units, unit_names(given)),
    ));
}

/// A step of the update that names no stored step of the recipe is added:
/// after the update the recipe has a step with the ordinal and the
/// instruction that the update gives, under an id that no step had before.
pub proof fn lemma_update_adds_new_step(book: BookView, given: RecipeView, i: int)
    requires
        book_wf(book),
        update_refusal(book, given) is None,
        0 <= i < given.steps.len(),
        !recognized(step_ids(book.recipes[place_of(book, given.id->0)].steps), given.steps[i].id),
    ensures
        exists|k: int|
            0 <= k < updated_recipe(book, given).steps.len() && {
                let step = #[trigger] updated_recipe(book, given).steps[k];
                &&& step.id is Some
                &&& book.next_step_id <= step.id->0
                &&& step.recipe_id == given.id
                &&& step.ordinal == given.steps[i].ordinal
                &&& step.instruction == given.steps[i].instruction
            },
{
    lemma_update_keeps_wf(book, given);
    let place = place_of(book, given.id->0);
    let stored = step_ids(book.recipes[place].steps);
    let wanted = step_wanted(given.steps);
    let next = book.next_step_id;
    lemma_stored_ids(book, place);
    lemma_new_child_is_added(stored, wanted, next, i);
    let j = choose|j: int|
        0 <= j < inserts(stored, wanted, next).len() && #[trigger] inserts(stored, wanted, next)[j]
            == (SlotView { id: next + j, source: i });
    let k = updates(stored, wanted).len() + j;
    assert(outcome(stored, wanted, next)[k] == inserts(stored, wanted, next)[j]);
    let step = updated_recipe(book, given).steps[k];
    assert(step == stored_step(given.steps[i], next + j, given.id->0));
    assert(after_update(book, given).next_step_id <= MAX_ID + 1);
}

/// An ingredient line of the update that names no stored line of the recipe
/// is added: after the update the recipe has a line with the contents that
/// the update gives, under an id that no line had before.
pub proof fn lemma_update_adds_new_line(book: BookView, given: RecipeView, i: int)
    requires
        book_wf(book),
        update_refusal(book, given) is None,
        0 <= i < given.ingredients.len(),
        !recognized(
            line_ids(book.recipes[place_of(book, given.id->0)].ingredients),
            given.ingredients[i].id,
        ),
    ensures
        exists|k: int|
            0 <= k < updated_recipe(book, given).ingredients.len() && {
                let line = #[trigger] updated_recipe(book, given).ingredients[k];
                &&& line.id is Some
                &&& book.next_line_id <= line.id->0
                &&& line.recipe_id == given.id
                &&& line.ingredient.name == given.ingredients[i].ingredient.name
                &&& line.quantity == given.ingredients[i].quantity
                &&& line.units.name == given.ingredients[i].units.name
                &&& line.preparation == given.ingredients[i].preparation
            },
{
    lemma_update_keeps_wf(book, given);
    let place = place_of(book, given.id->0);
    let stored = line_ids(book.recipes[place].ingredients);
    let wanted = line_wanted(given.ingredients);
    let next = book.next_line_id;
    lemma_stored_ids(book, place);
    lemma_new_child_is_added(stored, wanted, next, i);
    let j = choose|j: int|
        0 <= j < inserts(stored, wanted, next).len() && #[trigger] inserts(stored, wanted, next)[j]
            == (SlotView { id: next + j, source: i });
    let k = updates(stored, wanted).len() + j;
    assert(outcome(stored, wanted, next)[k] == inserts(stored, wanted, next)[j]);
    let line = updated_recipe(book, given).ingredients[k];
    assert(line == stored_line(
        given.ingredients[i],
        next + j,
        given.id->0,
        intern_all(book.ingredients, ingredient_names(given)),
        intern_all(book.units, unit_names(given)),
    ));
    assert(after_update(book, given).next_line_id <= MAX_ID + 1);
}

/// A stored step that the update does not name is deleted: after the update
/// the recipe has no step under its id.
pub proof fn lemma_update_drops_unnamed_step(book: BookView, given: RecipeView, j: int)
    requires
        book_wf(book),
        update_refusal(book, given) is None,
        0 <= j < book.recipes[place_of(book, given.id->0)].steps.len(),
        !step_wanted(given.steps).contains(
            book.recipes[place_of(book, given.id->0)].steps[j].id,
        ),
    ensures
        forall|k: int|
            0 <= k < updated_recipe(book, given).steps.len() ==> (#[trigger] updated_recipe(
                book,
                given,
            ).steps[k]).id != book.recipes[place_of(book, given.id->0)].steps[j].id,
{
    lemma_update_keeps_wf(book, given);
    let place = place_of(book, given.id->0);
    let kept_steps = book.recipes[place].steps;
    let stored = step_ids(kept_steps);
    let wanted = step_wanted(given.steps);
    let next = book.next_step_id;
    lemma_stored_ids(book, place);
    assert(recipe_fits(book.recipes[place], book));
    assert(kept_steps[j].id == Some(stored[j]));
    lemma_unnamed_child_is_dropped(stored, wanted, next, j);
    lemma_outcome_is_sound(stored, wanted, next);
    let made = updated_recipe(book, given);
    assert forall|k: int| 0 <= k < made.steps.len() implies (#[trigger] made.steps[k]).id
        != kept_steps[j].id by {
        let slot = outcome(stored, wanted, next)[k];
        assert(slot.id != stored[j]);
        assert(1 <= slot.id < after_update(book, given).next_step_id);
    }
}

/// A stored ingredient line that the update does not name is deleted: after
/// the update the recipe has no line under its id.
pub proof fn lemma_update_drops_unnamed_line(book: BookView, given: RecipeView, j: int)
    requires
        book_wf(book),
        update_refusal(book, given) is None,
        0 <= j < book.recipes[place_of(book, given.id->0)].ingredients.len(),
        !line_wanted(given.ingredients).contains(
            book.recipes[place_of(book, given.id->0)].ingredients[j].id,
        ),
    ensures
        forall|k: int|
            0 <= k < updated_recipe(book, given).ingredients.len() ==> (
            #[trigger] updated_recipe(book, given).ingredients[k]).id
                != book.recipes[place_of(book, given.id->0)].ingredients[j].id,
{
    lemma_update_keeps_wf(book, given);
    let place = place_of(book, given.id->0);
    let kept_lines = book.recipes[place].ingredients;
    let stored = line_ids(kept_lines);
    let wanted = line_wanted(given.ingredients);
    let next = book.next_line_id;
    lemma_stored_ids(book, place);
    assert(recipe_fits(book.recipes[place], book));
    assert(kept_lines[j].id == Some(stored[j]));
    lemma_unnamed_child_is_dropped(stored, wanted, next, j);
    lemma_outcome_is_sound(stored, wanted, next);
    let made = updated_recipe(book, given);
    assert forall|k: int| 0 <= k < made.ingredients.len() implies (
    #[trigger] made.ingredients[k]).id != kept_lines[j].id by {
        let slot = outcome(stored, wanted, next)[k];
        assert(slot.id != stored[j]);
        assert(1 <= slot.id < after_update(book, given).next_line_id);
    }
}

/// A recipe that was deleted is not found any more; the other recipes are
/// read as before, and the reference data stays.
pub proof fn lemma_deleted_recipe_is_gone(book: BookView, id: i32)
    requires
        book_wf(book),
        has_recipe(book, id),
    ensures
        read(after_delete(book, id), id) == Err::<RecipeView, _>(Error::RecipeNotFound(id)),
        forall|other: i32|
            other != id ==> read(after_delete(book, id), other) == read(book, other),
        after_delete(book, id).units == book.units,
        after_delete(book, id).ingredients == book.ingredients,
{
    let after = after_delete(book, id);
    let place = place_of(book, id);
    lemma_place_is_unique(book, place);
    if has_recipe(after, id) {
        let k = place_of(after, id);
        let k0 = if k < place { k } else { k + 1 };
        assert(after.recipes[k] == book.recipes[k0]);
        lemma_place_is_unique(book, k0);
    }
    assert forall|other: i32| other != id implies read(after, other) == read(book, other) by {
        if has_recipe(book, other) {
            let k0 = place_of(book, other);
            lemma_place_is_unique(book, k0);
            let k = if k0 < place { k0 } else { k0 - 1 };
            assert(after.recipes[k] == book.recipes[k0]);
            assert(has_recipe(after, other));
            let found = place_of(after, other);
            let found0 = if found < place { found } else { found + 1 };
            assert(after.recipes[found] == book.recipes[found0]);
            lemma_place_is_unique(book, found0);
        } else if has_recipe(after, other) {
            let k = place_of(after, other);
            let k0 = if k < place { k } else { k + 1 };
            assert(after.recipes[k] == book.recipes[k0]);
            assert(book.recipes[k0].id == Some(other));
        }
    }
}

} // verus!
