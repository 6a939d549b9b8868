//! Every operation keeps the book well formed.

use vstd::prelude::*;

use crate::domain::recipe::{NamedView, RecipeView};
use crate::domain::user::UserView;
use crate::store::reference::{
    all_named, id_of, intern_all, lemma_id_of_position, lemma_intern_all_extends, table_wf,
    ReferenceKind, MAX_ID,
};
use crate::store::children::{outcome, rising};
use crate::store::outcome::{
    lemma_outcome_is_sound, lemma_outcome_rises, lemma_rising_is_distinct,
};
use crate::store::state::{
    after_create, after_resolve, after_update, book_wf, create_refusal, created_recipe,
    has_recipe, ingredient_names, is_row, line_ids, line_wanted, line_wf, place_of, recipe_fits,
    recipe_wf, row_of, step_ids, step_wanted, step_wf, table_of, unit_names, update_refusal,
    updated_recipe, BookView,
};

verus! {

/// A name that a table holds has a row there.
pub proof fn lemma_row_of_is_row(table: Seq<Seq<char>>, name: Seq<char>)
    requires
        table.no_duplicates(),
        table.len() <= MAX_ID,
        table.contains(name),
    ensures
        is_row(table, row_of(table, name)),
        1 <= id_of(table, name) <= table.len(),
{
    let k = table.index_of(name);
    lemma_id_of_position(table, k);
}

/// A row stays a row when the table grows at its end.
pub proof fn lemma_row_persists(table: Seq<Seq<char>>, grown: Seq<Seq<char>>, row: NamedView)
    requires
        is_row(table, row),
        table.len() <= grown.len(),
        grown.take(table.len() as int) == table,
    ensures
        is_row(grown, row),
{
    assert(grown.take(table.len() as int)[row.id->0 - 1] == grown[row.id->0 - 1]);
}

/// A recipe that is well formed stays so when the reference tables grow at
/// their ends and the counters go up.
pub proof fn lemma_recipe_still_fits(
    recipe: RecipeView,
    users: Seq<UserView>,
    units: Seq<Seq<char>>,
    ingredients: Seq<Seq<char>>,
    next_recipe_id: int,
    next_step_id: int,
    next_line_id: int,
    units_grown: Seq<Seq<char>>,
    ingredients_grown: Seq<Seq<char>>,
    later_recipe_id: int,
    later_step_id: int,
    later_line_id: int,
)
    requires
        recipe_wf(recipe, users, units, ingredients, next_recipe_id, next_step_id, next_line_id),
        units.len() <= units_grown.len(),
        units_grown.take(units.len() as int) == units,
        ingredients.len() <= ingredients_grown.len(),
        ingredients_grown.take(ingredients.len() as int) == ingredients,
        next_recipe_id <= later_recipe_id,
        next_step_id <= later_step_id,
        next_line_id <= later_line_id,
    ensures
        recipe_wf(
            recipe,
            users,
            units_grown,
            ingredients_grown,
            later_recipe_id,
            later_step_id,
            later_line_id,
        ),
{
    lemma_row_persists(units, units_grown, recipe.yield_units);
    assert forall|i: int| 0 <= i < recipe.steps.len() implies step_wf(
        #[trigger] recipe.steps[i],
        recipe.id->0,
        later_step_id,
    ) by {
        assert(step_wf(recipe.steps[i], recipe.id->0, next_step_id));
    }
    assert forall|i: int| 0 <= i < recipe.ingredients.len() implies line_wf(
        #[trigger] recipe.ingredients[i],
        recipe.id->0,
        later_line_id,
        ingredients_grown,
        units_grown,
    ) by {
        let line = recipe.ingredients[i];
        assert(line_wf(line, recipe.id->0, next_line_id, ingredients, units));
        lemma_row_persists(ingredients, ingredients_grown, line.ingredient);
        lemma_row_persists(units, units_grown, line.units);
    }
}

/// Resolving names keeps the book well formed.
pub proof fn lemma_resolve_keeps_wf(book: BookView, kind: ReferenceKind, names: Seq<Seq<char>>)
    requires
        book_wf(book),
        all_named(names),
        intern_all(table_of(book, kind), names).len() <= MAX_ID,
    ensures
        book_wf(after_resolve(book, kind, names)),
{
    let after = after_resolve(book, kind, names);
    lemma_intern_all_extends(table_of(book, kind), names);
    assert(after.units.len() >= book.units.len() && after.units.take(book.units.len() as int)
        == book.units) by {
        assert(book.units.take(book.units.len() as int) =~= book.units);
    }
    assert(after.ingredients.len() >= book.ingredients.len() && after.ingredients.take(
        book.ingredients.len() as int,
    ) == book.ingredients) by {
        assert(book.ingredients.take(book.ingredients.len() as int) =~= book.ingredients);
    }
    assert forall|k: int| 0 <= k < after.recipes.len() implies recipe_fits(
        #[trigger] after.recipes[k],
        after,
    ) by {
        assert(recipe_fits(book.recipes[k], book));
        lemma_recipe_still_fits(
            book.recipes[k],
            book.users,
            book.units,
            book.ingredients,
            book.next_recipe_id,
            book.next_step_id,
            book.next_line_id,
            after.units,
            after.ingredients,
            after.next_recipe_id,
            after.next_step_id,
            after.next_line_id,
        );
    }
}

/// Creating a recipe keeps the book well formed.
pub proof fn lemma_create_keeps_wf(book: BookView, given: RecipeView)
    requires
        book_wf(book),
        create_refusal(book, given) is None,
    ensures
        book_wf(after_create(book, given)),
{
    let after = after_create(book, given);
    let made = created_recipe(book, given);
    let id = book.next_recipe_id as i32;
    lemma_intern_all_extends(book.units, unit_names(given));
    lemma_intern_all_extends(book.ingredients, ingredient_names(given));
    assert(table_wf(after.units));
    assert(table_wf(after.ingredients));
    assert(unit_names(given)[0] == given.yield_units.name);
    lemma_row_of_is_row(after.units, given.yield_units.name);
    assert forall|i: int| 0 <= i < made.steps.len() implies step_wf(
        #[trigger] made.steps[i],
        id,
        after.next_step_id,
    ) by {}
    assert(rising(step_ids(made.steps)));
    assert forall|i: int| 0 <= i < made.ingredients.len() implies line_wf(
        #[trigger] made.ingredients[i],
        id,
        after.next_line_id,
        after.ingredients,
        after.units,
    ) by {
        let line = given.ingredients[i];
        assert(ingredient_names(given)[i] == line.ingredient.name);
        assert(unit_names(given)[i + 1] == line.units.name);
        lemma_row_of_is_row(after.ingredients, line.ingredient.name);
        lemma_row_of_is_row(after.units, line.units.name);
    }
    assert(rising(line_ids(made.ingredients)));
    assert(recipe_fits(made, after));
    assert forall|k: int| 0 <= k < after.recipes.len() implies recipe_fits(
        #[trigger] after.recipes[k],
        after,
    ) by {
        if k < book.recipes.len() {
            assert(recipe_fits(book.recipes[k], book));
            lemma_recipe_still_fits(
                book.recipes[k],
                book.users,
                book.units,
                book.ingredients,
                book.next_recipe_id,
                book.next_step_id,
                book.next_line_id,
                after.units,
                after.ingredients,
                after.next_recipe_id,
                after.next_step_id,
                after.next_line_id,
            );
        }
    }
    assert forall|a: int, b: int| 0 <= a < b < after.recipes.len() implies (
    #[trigger] after.recipes[a]).id->0 < (#[trigger] after.recipes[b]).id->0 by {
        assert(recipe_fits(book.recipes[a], book));
        if b < book.recipes.len() {
            assert(book.recipes[a].id->0 < book.recipes[b].id->0);
        }
    }
}

/// The ids of the children of a stored recipe were handed out, and no two
/// children of a kind have the same.
pub proof fn lemma_stored_ids(book: BookView, place: int)
    requires
        book_wf(book),
        0 <= place < book.recipes.len(),
    ensures
        rising(step_ids(book.recipes[place].steps)),
        rising(line_ids(book.recipes[place].ingredients)),
        step_ids(book.recipes[place].steps).no_duplicates(),
        line_ids(book.recipes[place].ingredients).no_duplicates(),
        forall|j: int|
            0 <= j < step_ids(book.recipes[place].steps).len() ==> 1 <= #[trigger] step_ids(
                book.recipes[place].steps,
            )[j] < book.next_step_id,
        forall|j: int|
            0 <= j < line_ids(book.recipes[place].ingredients).len() ==> 1
                <= #[trigger] line_ids(book.recipes[place].ingredients)[j] < book.next_line_id,
{
    let stored = book.recipes[place];
    assert(recipe_fits(stored, book));
    lemma_rising_is_distinct(step_ids(stored.steps));
    lemma_rising_is_distinct(line_ids(stored.ingredients));
    assert forall|j: int| 0 <= j < step_ids(stored.steps).len() implies 1 <= #[trigger] step_ids(
        stored.steps,
    )[j] < book.next_step_id by {
        assert(step_wf(stored.steps[j], stored.id->0, book.next_step_id));
    }
    assert forall|j: int| 0 <= j < line_ids(stored.ingredients).len() implies 1
        <= #[trigger] line_ids(stored.ingredients)[j] < book.next_line_id by {
        assert(line_wf(
            stored.ingredients[j],
            stored.id->0,
            book.next_line_id,
            book.ingredients,
            book.units,
        ));
    }
}

/// Updating a recipe keeps the book well formed.
pub proof fn lemma_update_keeps_wf(book: BookView, given: RecipeView)
    requires
        book_wf(book),
        update_refusal(book, given) is None,
    ensures
        book_wf(after_update(book, given)),
        0 <= place_of(book, given.id->0) < book.recipes.len(),
        book.recipes[place_of(book, given.id->0)].id == given.id,
{
    let after = after_update(book, given);
    let made = updated_recipe(book, given);
    let id = given.id->0;
    let place = place_of(book, id);
    let stored = book.recipes[place];
    assert(has_recipe(book, id));
    assert(0 <= place < book.recipes.len() && stored.id == Some(id));
    assert(recipe_fits(stored, book));
    lemma_stored_ids(book, place);
    lemma_intern_all_extends(book.units, unit_names(given));
    lemma_intern_all_extends(book.ingredients, ingredient_names(given));
    assert(unit_names(given)[0] == given.yield_units.name);
    lemma_row_of_is_row(after.units, given.yield_units.name);
    let step_slots = outcome(step_ids(stored.steps), step_wanted(given.steps), book.next_step_id);
    let line_slots = outcome(
        line_ids(stored.ingredients),
        line_wanted(given.ingredients),
        book.next_line_id,
    );
    lemma_outcome_is_sound(step_ids(stored.steps), step_wanted(given.steps), book.next_step_id);
    lemma_outcome_is_sound(
        line_ids(stored.ingredients),
        line_wanted(given.ingredients),
        book.next_line_id,
    );
    assert forall|i: int| 0 <= i < made.steps.len() implies step_wf(
        #[trigger] made.steps[i],
        id,
        after.next_step_id,
    ) by {
        let slot = step_slots[i];
        assert(1 <= slot.id < after.next_step_id);
    }
    lemma_outcome_rises(step_ids(stored.steps), step_wanted(given.steps), book.next_step_id);
    lemma_outcome_rises(
        line_ids(stored.ingredients),
        line_wanted(given.ingredients),
        book.next_line_id,
    );
    assert forall|a: int, b: int| 0 <= a < b < step_ids(made.steps).len() implies step_ids(
        made.steps,
    )[a] < step_ids(made.steps)[b] by {
        assert(step_slots[a].id < step_slots[b].id);
        assert(1 <= step_slots[a].id < after.next_step_id);
        assert(1 <= step_slots[b].id < after.next_step_id);
    }
    assert forall|i: int| 0 <= i < made.ingredients.len() implies line_wf(
        #[trigger] made.ingredients[i],
        id,
        after.next_line_id,
        after.ingredients,
        after.units,
    ) by {
        let slot = line_slots[i];
        assert(1 <= slot.id < after.next_line_id);
        let line = given.ingredients[slot.source];
        assert(ingredient_names(given)[slot.source] == line.ingredient.name);
        assert(unit_names(given)[slot.source + 1] == line.units.name);
        lemma_row_of_is_row(after.ingredients, line.ingredient.name);
        lemma_row_of_is_row(after.units, line.units.name);
    }
    assert forall|a: int, b: int| 0 <= a < b < line_ids(made.ingredients).len() implies line_ids(
        made.ingredients,
    )[a] < line_ids(made.ingredients)[b] by {
        assert(line_slots[a].id < line_slots[b].id);
        assert(1 <= line_slots[a].id < after.next_line_id);
        assert(1 <= line_slots[b].id < after.next_line_id);
    }
    assert(recipe_fits(made, after));
    assert forall|k: int| 0 <= k < after.recipes.len() implies recipe_fits(
        #[trigger] after.recipes[k],
        after,
    ) by {
        if k != place {
            assert(recipe_fits(book.recipes[k], book));
            lemma_recipe_still_fits(
                book.recipes[k],
                book.users,
                book.units,
                book.ingredients,
                book.next_recipe_id,
                book.next_step_id,
                book.next_line_id,
                after.units,
                after.ingredients,
                after.next_recipe_id,
                after.next_step_id,
                after.next_line_id,
            );
        }
    }
    assert forall|a: int, b: int| 0 <= a < b < after.recipes.len() implies (
    #[trigger] after.recipes[a]).id->0 < (#[trigger] after.recipes[b]).id->0 by {
        assert(book.recipes[a].id->0 < book.recipes[b].id->0);
    }
}

} // verus!
