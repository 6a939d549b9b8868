//! The recipe book as a mathematical value, and what each operation makes of
//! it.
//!
//! The book holds the users, the two reference tables, and the recipes in the
//! order in which they were created, each with its author, its unit and its
//! children written out. Three counters give the next free id of a recipe, of
//! a step and of an ingredient line.

use vstd::prelude::*;

use crate::domain::recipe::{Error, NamedView, RecipeIngredientView, RecipeView, StepView};
use crate::domain::user::UserView;
use crate::store::children::{feasible, next_after, outcome, rising, SlotView};
use crate::store::reference::{all_named, id_of, intern_all, table_wf, ReferenceKind, MAX_ID};

verus! {

/// The recipe book.
pub struct BookView {
    pub users: Seq<UserView>,
    pub units: Seq<Seq<char>>,
    pub ingredients: Seq<Seq<char>>,
    pub recipes: Seq<RecipeView>,
    pub next_recipe_id: int,
    pub next_step_id: int,
    pub next_line_id: int,
}

/// The book before anything was stored.
pub open spec fn empty_book() -> BookView {
    BookView {
        users: Seq::empty(),
        units: Seq::empty(),
        ingredients: Seq::empty(),
        recipes: Seq::empty(),
        next_recipe_id: 1,
        next_step_id: 1,
        next_line_id: 1,
    }
}

// ----- what is well formed -----

/// The user is stored, under this id and with this name.
pub open spec fn user_known(users: Seq<UserView>, user: UserView) -> bool {
    &&& user.id is Some
    &&& 1 <= user.id->0 <= users.len()
    &&& users[user.id->0 - 1] == user
}

/// The row is one of the table: the name stands at the place its id gives.
pub open spec fn is_row(table: Seq<Seq<char>>, row: NamedView) -> bool {
    &&& row.id is Some
    &&& 1 <= row.id->0 <= table.len()
    &&& table[row.id->0 - 1] == row.name
}

/// The row under which a table stores `name`.
pub open spec fn row_of(table: Seq<Seq<char>>, name: Seq<char>) -> NamedView {
    NamedView { id: Some(id_of(table, name) as i32), name }
}

/// The ids of stored steps, in order.
pub open spec fn step_ids(steps: Seq<StepView>) -> Seq<i32> {
    steps.map_values(|s: StepView| s.id->0)
}

/// The ids of stored ingredient lines, in order.
pub open spec fn line_ids(lines: Seq<RecipeIngredientView>) -> Seq<i32> {
    lines.map_values(|l: RecipeIngredientView| l.id->0)
}

/// A stored step has an id that was handed out, and belongs to its recipe.
pub open spec fn step_wf(step: StepView, recipe_id: i32, next: int) -> bool {
    &&& step.id is Some
    &&& 1 <= step.id->0 < next
    &&& step.recipe_id == Some(recipe_id)
}

/// A stored ingredient line has an id that was handed out, belongs to its
/// recipe, and names rows of the two reference tables.
pub open spec fn line_wf(
    line: RecipeIngredientView,
    recipe_id: i32,
    next: int,
    ingredients: Seq<Seq<char>>,
    units: Seq<Seq<char>>,
) -> bool {
    &&& line.id is Some
    &&& 1 <= line.id->0 < next
    &&& line.recipe_id == Some(recipe_id)
    &&& is_row(ingredients, line.ingredient)
    &&& is_row(units, line.units)
}

/// A stored recipe has an id that was handed out, a stored author, a stored
/// unit, and children that are its own and stand in the order in which they
/// were added, which is that of their ids.
pub open spec fn recipe_wf(
    recipe: RecipeView,
    users: Seq<UserView>,
    units: Seq<Seq<char>>,
    ingredients: Seq<Seq<char>>,
    next_recipe_id: int,
    next_step_id: int,
    next_line_id: int,
) -> bool {
    &&& recipe.id is Some
    &&& 1 <= recipe.id->0 < next_recipe_id
    &&& user_known(users, recipe.author)
    &&& is_row(units, recipe.yield_units)
    &&& forall|i: int|
        0 <= i < recipe.steps.len() ==> step_wf(
            #[trigger] recipe.steps[i],
            recipe.id->0,
            next_step_id,
        )
    &&& rising(step_ids(recipe.steps))
    &&& forall|i: int|
        0 <= i < recipe.ingredients.len() ==> line_wf(
            #[trigger] recipe.ingredients[i],
            recipe.id->0,
            next_line_id,
            ingredients,
            units,
        )
    &&& rising(line_ids(recipe.ingredients))
}

/// A recipe that is well formed in `book`.
pub open spec fn recipe_fits(recipe: RecipeView, book: BookView) -> bool {
    recipe_wf(
        recipe,
        book.users,
        book.units,
        book.ingredients,
        book.next_recipe_id,
        book.next_step_id,
        book.next_line_id,
    )
}

/// Every step belongs to one recipe only: no id of a step occurs twice in
/// the book.
pub open spec fn steps_are_distinct(recipes: Seq<RecipeView>) -> bool {
    forall|a: int, i: int, b: int, j: int|
        0 <= a < recipes.len() && 0 <= i < recipes[a].steps.len() && 0 <= b < recipes.len() && 0
            <= j < recipes[b].steps.len() && (#[trigger] recipes[a].steps[i]).id == (
        #[trigger] recipes[b].steps[j]).id ==> a == b && i == j
}

/// Every ingredient line belongs to one recipe only: no id of a line occurs
/// twice in the book.
pub open spec fn lines_are_distinct(recipes: Seq<RecipeView>) -> bool {
    forall|a: int, i: int, b: int, j: int|
        0 <= a < recipes.len() && 0 <= i < recipes[a].ingredients.len() && 0 <= b
            < recipes.len() && 0 <= j < recipes[b].ingredients.len() && (
        #[trigger] recipes[a].ingredients[i]).id == (#[trigger] recipes[b].ingredients[j]).id
            ==> a == b && i == j
}

/// What holds of every book: users are numbered from 1 in the order in which
/// they came, the reference tables are well formed, the counters are within
/// the ids, every recipe is well formed, recipes stand in the order of their
/// ids, and no two children of a kind have the same id.
pub open spec fn book_wf(book: BookView) -> bool {
    &&& book.users.len() <= MAX_ID
    &&& forall|k: int|
        0 <= k < book.users.len() ==> (#[trigger] book.users[k]).id == Some((k + 1) as i32)
    &&& table_wf(book.units)
    &&& table_wf(book.ingredients)
    &&& 1 <= book.next_recipe_id <= MAX_ID + 1
    &&& 1 <= book.next_step_id <= MAX_ID + 1
    &&& 1 <= book.next_line_id <= MAX_ID + 1
    &&& forall|k: int| 0 <= k < book.recipes.len() ==> recipe_fits(#[trigger] book.recipes[k], book)
    &&& forall|a: int, b: int|
        0 <= a < b < book.recipes.len() ==> (#[trigger] book.recipes[a]).id->0 < (
        #[trigger] book.recipes[b]).id->0
    &&& steps_are_distinct(book.recipes)
    &&& lines_are_distinct(book.recipes)
}

// ----- resolving -----

/// The table of the book that holds reference data of this kind.
pub open spec fn table_of(book: BookView, kind: ReferenceKind) -> Seq<Seq<char>> {
    match kind {
        ReferenceKind::Ingredient => book.ingredients,
        ReferenceKind::Unit => book.units,
    }
}

/// The book after names of one kind have been resolved: the table of that
/// kind has a row for each of them, and nothing else has changed.
pub open spec fn after_resolve(book: BookView, kind: ReferenceKind, names: Seq<Seq<char>>) -> BookView {
    match kind {
        ReferenceKind::Ingredient => BookView {
            ingredients: intern_all(book.ingredients, names),
            ..book
        },
        ReferenceKind::Unit => BookView { units: intern_all(book.units, names), ..book },
    }
}

// ----- reading -----

/// A recipe is stored under this id.
pub open spec fn has_recipe(book: BookView, id: i32) -> bool {
    exists|k: int| 0 <= k < book.recipes.len() && (#[trigger] book.recipes[k]).id == Some(id)
}

/// The place of the recipe stored under this id.
pub open spec fn place_of(book: BookView, id: i32) -> int {
    choose|k: int| 0 <= k < book.recipes.len() && (#[trigger] book.recipes[k]).id == Some(id)
}

/// What reading the recipe with this id gives.
pub open spec fn read(book: BookView, id: i32) -> Result<RecipeView, Error> {
    if has_recipe(book, id) {
        Ok(book.recipes[place_of(book, id)])
    } else {
        Err(Error::RecipeNotFound(id))
    }
}

// ----- the names an aggregate brings -----

/// The ingredient names of a recipe, line by line.
pub open spec fn ingredient_names(recipe: RecipeView) -> Seq<Seq<char>> {
    recipe.ingredients.map_values(|l: RecipeIngredientView| l.ingredient.name)
}

/// The unit names of a recipe: that of its yield, then those of its lines.
pub open spec fn unit_names(recipe: RecipeView) -> Seq<Seq<char>> {
    seq![recipe.yield_units.name] + recipe.ingredients.map_values(
        |l: RecipeIngredientView| l.units.name,
    )
}

/// The ids that the steps of an update carry.
pub open spec fn step_wanted(steps: Seq<StepView>) -> Seq<Option<i32>> {
    steps.map_values(|s: StepView| s.id)
}

/// The ids that the ingredient lines of an update carry.
pub open spec fn line_wanted(lines: Seq<RecipeIngredientView>) -> Seq<Option<i32>> {
    lines.map_values(|l: RecipeIngredientView| l.id)
}

// ----- children as they are stored -----

/// A step as it is stored: the given step under the id `id`, bound to the
/// recipe `recipe_id`.
pub open spec fn stored_step(given: StepView, id: int, recipe_id: i32) -> StepView {
    StepView {
        id: Some(id as i32),
        recipe_id: Some(recipe_id),
        ordinal: given.ordinal,
        instruction: given.instruction,
    }
}

/// An ingredient line as it is stored: the given line under the id `id`,
/// bound to the recipe `recipe_id`, its ingredient and its unit being the
/// rows of the tables that have these names.
pub open spec fn stored_line(
    given: RecipeIngredientView,
    id: int,
    recipe_id: i32,
    ingredients: Seq<Seq<char>>,
    units: Seq<Seq<char>>,
) -> RecipeIngredientView {
    RecipeIngredientView {
        id: Some(id as i32),
        recipe_id: Some(recipe_id),
        ingredient: row_of(ingredients, given.ingredient.name),
        quantity: given.quantity,
        units: row_of(units, given.units.name),
        preparation: given.preparation,
    }
}

/// The steps of a new recipe: those given, in their order, with ids counted
/// up from `next`.
pub open spec fn created_steps(given: Seq<StepView>, recipe_id: i32, next: int) -> Seq<StepView> {
    Seq::new(given.len(), |k: int| stored_step(given[k], next + k, recipe_id))
}

/// The ingredient lines of a new recipe: those given, in their order, with
/// ids counted up from `next`.
pub open spec fn created_lines(
    given: Seq<RecipeIngredientView>,
    recipe_id: i32,
    next: int,
    ingredients: Seq<Seq<char>>,
    units: Seq<Seq<char>>,
) -> Seq<RecipeIngredientView> {
    Seq::new(
        given.len(),
        |k: int| stored_line(given[k], next + k, recipe_id, ingredients, units),
    )
}

/// The steps of a recipe after an update: each child of the outcome filled
/// with the step of the update that it comes from.
pub open spec fn reconciled_steps(
    stored: Seq<StepView>,
    given: Seq<StepView>,
    recipe_id: i32,
    next: int,
) -> Seq<StepView> {
    outcome(step_ids(stored), step_wanted(given), next).map_values(
        |slot: SlotView| stored_step(given[slot.source], slot.id, recipe_id),
    )
}

/// The ingredient lines of a recipe after an update: each child of the
/// outcome filled with the line of the update that it comes from.
pub open spec fn reconciled_lines(
    stored: Seq<RecipeIngredientView>,
    given: Seq<RecipeIngredientView>,
    recipe_id: i32,
    next: int,
    ingredients: Seq<Seq<char>>,
    units: Seq<Seq<char>>,
) -> Seq<RecipeIngredientView> {
    outcome(line_ids(stored), line_wanted(given), next).map_values(
        |slot: SlotView| stored_line(given[slot.source], slot.id, recipe_id, ingredients, units),
    )
}

// ----- creating -----

/// Why the book refuses to create the recipe, if it does.
pub open spec fn create_refusal(book: BookView, given: RecipeView) -> Option<Error> {
    if !all_named(ingredient_names(given)) || !all_named(unit_names(given)) {
        Some(Error::InvalidArgument)
    } else if !user_known(book.users, given.author) {
        Some(Error::Unexpected)
    } else if intern_all(book.ingredients, ingredient_names(given)).len() > MAX_ID || intern_all(
        book.units,
        unit_names(given),
    ).len() > MAX_ID {
        Some(Error::Unexpected)
    } else if book.next_recipe_id > MAX_ID || book.next_step_id + given.steps.len() > MAX_ID + 1
        || book.next_line_id + given.ingredients.len() > MAX_ID + 1 {
        Some(Error::Unexpected)
    } else {
        None
    }
}

/// The recipe as the book stores it when it is created.
pub open spec fn created_recipe(book: BookView, given: RecipeView) -> RecipeView {
    let ingredients = intern_all(book.ingredients, ingredient_names(given));
    let units = intern_all(book.units, unit_names(given));
    let id = book.next_recipe_id as i32;
    RecipeView {
        id: Some(id),
        title: given.title,
        description: given.description,
        author: given.author,
        prep_time: given.prep_time,
        cook_time: given.cook_time,
        inactive_time: given.inactive_time,
        yield_quantity: given.yield_quantity,
        yield_units: row_of(units, given.yield_units.name),
        ingredients: created_lines(given.ingredients, id, book.next_line_id, ingredients, units),
        steps: created_steps(given.steps, id, book.next_step_id),
    }
}

/// The book after the recipe has been created.
pub open spec fn after_create(book: BookView, given: RecipeView) -> BookView {
    BookView {
        users: book.users,
        units: intern_all(book.units, unit_names(given)),
        ingredients: intern_all(book.ingredients, ingredient_names(given)),
        recipes: book.recipes.push(created_recipe(book, given)),
        next_recipe_id: book.next_recipe_id + 1,
        next_step_id: book.next_step_id + given.steps.len(),
        next_line_id: book.next_line_id + given.ingredients.len(),
    }
}

// ----- updating -----

/// Why the book refuses the update, if it does.
pub open spec fn update_refusal(book: BookView, given: RecipeView) -> Option<Error> {
    if given.id is None {
        Some(Error::Unexpected)
    } else if !has_recipe(book, given.id->0) {
        Some(Error::RecipeNotFound(given.id->0))
    } else if !all_named(ingredient_names(given)) || !all_named(unit_names(given)) {
        Some(Error::InvalidArgument)
    } else if !user_known(book.users, given.author) {
        Some(Error::Unexpected)
    } else if intern_all(book.ingredients, ingredient_names(given)).len() > MAX_ID || intern_all(
        book.units,
        unit_names(given),
    ).len() > MAX_ID {
        Some(Error::Unexpected)
    } else {
        let stored = book.recipes[place_of(book, given.id->0)];
        if !feasible(step_ids(stored.steps), step_wanted(given.steps), book.next_step_id)
            || !feasible(
            line_ids(stored.ingredients),
            line_wanted(given.ingredients),
            book.next_line_id,
        ) {
            Some(Error::Unexpected)
        } else {
            None
        }
    }
}

/// The recipe as the book stores it after the update.
pub open spec fn updated_recipe(book: BookView, given: RecipeView) -> RecipeView {
    let ingredients = intern_all(book.ingredients, ingredient_names(given));
    let units = intern_all(book.units, unit_names(given));
    let id = given.id->0;
    let stored = book.recipes[place_of(book, id)];
    RecipeView {
        id: Some(id),
        title: given.title,
        description: given.description,
        author: given.author,
        prep_time: given.prep_time,
        cook_time: given.cook_time,
        inactive_time: given.inactive_time,
        yield_quantity: given.yield_quantity,
        yield_units: row_of(units, given.yield_units.name),
        ingredients: reconciled_lines(
            stored.ingredients,
            given.ingredients,
            id,
            book.next_line_id,
            ingredients,
            units,
        ),
        steps: reconciled_steps(stored.steps, given.steps, id, book.next_step_id),
    }
}

/// The book after the update: the recipe stands where it stood, with its new
/// contents.
pub open spec fn after_update(book: BookView, given: RecipeView) -> BookView {
    let place = place_of(book, given.id->0);
    let stored = book.recipes[place];
    BookView {
        users: book.users,
        units: intern_all(book.units, unit_names(given)),
        ingredients: intern_all(book.ingredients, ingredient_names(given)),
        recipes: book.recipes.update(place, updated_recipe(book, given)),
        next_recipe_id: book.next_recipe_id,
        next_step_id: next_after(
            step_ids(stored.steps),
            step_wanted(given.steps),
            book.next_step_id,
        ),
        next_line_id: next_after(
            line_ids(stored.ingredients),
            line_wanted(given.ingredients),
            book.next_line_id,
        ),
    }
}

// ----- deleting -----

/// The book after the recipe with this id has been deleted, with its
/// children. Reference data stays.
pub open spec fn after_delete(book: BookView, id: i32) -> BookView {
    BookView { recipes: book.recipes.remove(place_of(book, id)), ..book }
}

} // verus!
