//! Builds the children of a recipe as they are stored, from the children
//! that a request gives and the ids that they get.

use vstd::prelude::*;

use crate::domain::recipe::{
    lines_view, steps_view, Ingredient, NamedView, Recipe, RecipeIngredient,
    RecipeIngredientView, Step, Unit,
};
use crate::store::planner::Slot;
use crate::store::reference::{texts_view, MAX_ID};
use crate::store::state::{
    ingredient_names, line_ids, line_wanted, step_ids, step_wanted, stored_step, unit_names,
};

verus! {

/// An ingredient line as it is stored, its ingredient and its unit given by
/// their ids.
pub open spec fn line_with(
    given: RecipeIngredientView,
    id: int,
    recipe_id: i32,
    ingredient_id: i32,
    unit_id: i32,
) -> RecipeIngredientView {
    RecipeIngredientView {
        id: Some(id as i32),
        recipe_id: Some(recipe_id),
        ingredient: NamedView { id: Some(ingredient_id), name: given.ingredient.name },
        quantity: given.quantity,
        units: NamedView { id: Some(unit_id), name: given.units.name },
        preparation: given.preparation,
    }
}

/// The ingredient names of a recipe, line by line.
pub fn names_of_ingredients(recipe: &Recipe) -> (names: Vec<String>)
    ensures
        texts_view(names@) == ingredient_names(recipe@),
{
    let mut names: Vec<String> = Vec::new();
    let mut i: usize = 0;
    while i < recipe.ingredients.len()
        invariant
            i <= recipe.ingredients.len(),
            names@.len() == i,
            forall|k: int| 0 <= k < i ==> names@[k]@ == recipe.ingredients@[k].ingredient.name@,
        decreases recipe.ingredients.len() - i,
    {
        names.push(recipe.ingredients[i].ingredient.name.clone());
        i += 1;
    }
    assert(texts_view(names@) =~= ingredient_names(recipe@));
    names
}

/// The unit names of a recipe: that of its yield, then those of its lines.
pub fn names_of_units(recipe: &Recipe) -> (names: Vec<String>)
    ensures
        texts_view(names@) == unit_names(recipe@),
{
    let mut names: Vec<String> = Vec::new();
    names.push(recipe.yield_units.name.clone());
    let mut i: usize = 0;
    while i < recipe.ingredients.len()
        invariant
            i <= recipe.ingredients.len(),
            names@.len() == i + 1,
            names@[0]@ == recipe.yield_units.name@,
            forall|k: int| 0 <= k < i ==> names@[k + 1]@ == recipe.ingredients@[k].units.name@,
        decreases recipe.ingredients.len() - i,
    {
        names.push(recipe.ingredients[i].units.name.clone());
        i += 1;
    }
    proof {
        let wanted = unit_names(recipe@);
        assert(texts_view(names@).len() == wanted.len());
        assert forall|k: int| 0 <= k < wanted.len() implies texts_view(names@)[k] == wanted[k] by {
            if k > 0 {
                assert(names@[(k - 1) + 1]@ == recipe.ingredients@[k - 1].units.name@);
            }
        }
        assert(texts_view(names@) =~= wanted);
    }
    names
}

/// The ids of stored steps, in order.
pub fn ids_of_steps(steps: &Vec<Step>) -> (ids: Vec<i32>)
    requires
        forall|i: int| 0 <= i < steps@.len() ==> (#[trigger] steps@[i]).id is Some,
    ensures
        ids@ == step_ids(steps_view(steps@)),
{
    let mut ids: Vec<i32> = Vec::new();
    let mut i: usize = 0;
    while i < steps.len()
        invariant
            i <= steps.len(),
            ids@.len() == i,
            forall|k: int| 0 <= k < steps@.len() ==> (#[trigger] steps@[k]).id is Some,
            forall|k: int| 0 <= k < i ==> ids@[k] == steps@[k].id->0,
        decreases steps.len() - i,
    {
        match steps[i].id {
            Some(id) => ids.push(id),
            None => {},
        }
        i += 1;
    }
    assert(ids@ =~= step_ids(steps_view(steps@)));
    ids
}

/// The ids of stored ingredient lines, in order.
pub fn ids_of_lines(lines: &Vec<RecipeIngredient>) -> (ids: Vec<i32>)
    requires
        forall|i: int| 0 <= i < lines@.len() ==> (#[trigger] lines@[i]).id is Some,
    ensures
        ids@ == line_ids(lines_view(lines@)),
{
    let mut ids: Vec<i32> = Vec::new();
    let mut i: usize = 0;
    while i < lines.len()
        invariant
            i <= lines.len(),
            ids@.len() == i,
            forall|k: int| 0 <= k < lines@.len() ==> (#[trigger] lines@[k]).id is Some,
            forall|k: int| 0 <= k < i ==> ids@[k] == lines@[k].id->0,
        decreases lines.len() - i,
    {
        match lines[i].id {
            Some(id) => ids.push(id),
            None => {},
        }
        i += 1;
    }
    assert(ids@ =~= line_ids(lines_view(lines@)));
    ids
}

/// The ids that the steps of an update carry, in order.
pub fn wanted_of_steps(steps: &Vec<Step>) -> (wanted: Vec<Option<i32>>)
    ensures
        wanted@ == step_wanted(steps_view(steps@)),
{
    let mut wanted: Vec<Option<i32>> = Vec::new();
    let mut i: usize = 0;
    while i < steps.len()
        invariant
            i <= steps.len(),
            wanted@.len() == i,
            forall|k: int| 0 <= k < i ==> wanted@[k] == steps@[k].id,
        decreases steps.len() - i,
    {
        wanted.push(steps[i].id);
        i += 1;
    }
    assert(wanted@ =~= step_wanted(steps_view(steps@)));
    wanted
}

/// The ids that the ingredient lines of an update carry, in order.
pub fn wanted_of_lines(lines: &Vec<RecipeIngredient>) -> (wanted: Vec<Option<i32>>)
    ensures
        wanted@ == line_wanted(lines_view(lines@)),
{
    let mut wanted: Vec<Option<i32>> = Vec::new();
    let mut i: usize = 0;
    while i < lines.len()
        invariant
            i <= lines.len(),
            wanted@.len() == i,
            forall|k: int| 0 <= k < i ==> wanted@[k] == lines@[k].id,
        decreases lines.len() - i,
    {
        wanted.push(lines[i].id);
        i += 1;
    }
    assert(wanted@ =~= line_wanted(lines_view(lines@)));
    wanted
}

/// The given step as it is stored under `id` in the recipe `recipe_id`.
pub fn make_step(given: &Step, id: i32, recipe_id: i32) -> (step: Step)
    ensures
        step@ == stored_step(given@, id as int, recipe_id),
{
    Step {
        id: Some(id),
        recipe_id: Some(recipe_id),
        ordinal: given.ordinal,
        instruction: given.instruction.clone(),
    }
}

/// The given ingredient line as it is stored under `id` in the recipe
/// `recipe_id`, with the ids of its ingredient and of its unit.
pub fn make_line(
    given: &RecipeIngredient,
    id: i32,
    recipe_id: i32,
    ingredient_id: i32,
    unit_id: i32,
) -> (line: RecipeIngredient)
    ensures
        line@ == line_with(given@, id as int, recipe_id, ingredient_id, unit_id),
{
    RecipeIngredient {
        id: Some(id),
        recipe_id: Some(recipe_id),
        ingredient: Ingredient { id: Some(ingredient_id), name: given.ingredient.name.clone() },
        quantity: given.quantity,
        units: Unit { id: Some(unit_id), name: given.units.name.clone() },
        preparation: given.preparation.clone(),
    }
}

/// The steps of a new recipe: those given, with ids counted up from `next`.
pub fn number_steps(given: &Vec<Step>, recipe_id: i32, next: i64) -> (steps: Vec<Step>)
    requires
        1 <= next,
        next + given@.len() <= MAX_ID + 1,
    ensures
        steps@.len() == given@.len(),
        forall|k: int|
            0 <= k < given@.len() ==> (#[trigger] steps@[k])@ == stored_step(
                given@[k]@,
                next + k,
                recipe_id,
            ),
{
    let mut steps: Vec<Step> = Vec::new();
    let mut k: usize = 0;
    while k < given.len()
        invariant
            k <= given.len(),
            1 <= next,
            next + given@.len() <= MAX_ID + 1,
            steps@.len() == k,
            forall|j: int|
                0 <= j < k ==> (#[trigger] steps@[j])@ == stored_step(
                    given@[j]@,
                    next + j,
                    recipe_id,
                ),
        decreases given.len() - k,
    {
        let id: i32 = (next + k as i64) as i32;
        steps.push(make_step(&given[k], id, recipe_id));
        k += 1;
    }
    steps
}

/// The ingredient lines of a new recipe: those given, with ids counted up
/// from `next`. The ingredient of line `k` has the id `ingredient_ids[k]`,
/// its unit the id `unit_ids[k + 1]`.
pub fn number_lines(
    given: &Vec<RecipeIngredient>,
    recipe_id: i32,
    next: i64,
    ingredient_ids: &Vec<i32>,
    unit_ids: &Vec<i32>,
) -> (lines: Vec<RecipeIngredient>)
    requires
        1 <= next,
        next + given@.len() <= MAX_ID + 1,
        ingredient_ids@.len() == given@.len(),
        unit_ids@.len() == given@.len() + 1,
    ensures
        lines@.len() == given@.len(),
        forall|k: int|
            0 <= k < given@.len() ==> (#[trigger] lines@[k])@ == line_with(
                given@[k]@,
                next + k,
                recipe_id,
                ingredient_ids@[k],
                unit_ids@[k + 1],
            ),
{
    let mut lines: Vec<RecipeIngredient> = Vec::new();
    let mut k: usize = 0;
    while k < given.len()
        invariant
            k <= given.len(),
            1 <= next,
            next + given@.len() <= MAX_ID + 1,
            ingredient_ids@.len() == given@.len(),
            unit_ids@.len() == given@.len() + 1,
            lines@.len() == k,
            forall|j: int|
                0 <= j < k ==> (#[trigger] lines@[j])@ == line_with(
                    given@[j]@,
                    next + j,
                    recipe_id,
                    ingredient_ids@[j],
                    unit_ids@[j + 1],
                ),
        decreases given.len() - k,
    {
        let id: i32 = (next + k as i64) as i32;
        lines.push(make_line(&given[k], id, recipe_id, ingredient_ids[k], unit_ids[k + 1]));
        k += 1;
    }
    lines
}

/// Adds to `steps` one step for each slot: the step of the update that the
/// slot names, under the slot's id.
pub fn fill_steps(steps: &mut Vec<Step>, slots: &Vec<Slot>, given: &Vec<Step>, recipe_id: i32)
    requires
        forall|k: int| 0 <= k < slots@.len() ==> (#[trigger] slots@[k]).source < given@.len(),
    ensures
        final(steps)@.len() == old(steps)@.len() + slots@.len(),
        forall|k: int| 0 <= k < old(steps)@.len() ==> final(steps)@[k] == old(steps)@[k],
        forall|k: int|
            0 <= k < slots@.len() ==> (#[trigger] final(steps)@[old(steps)@.len() + k])@
                == stored_step(given@[slots@[k].source as int]@, slots@[k].id as int, recipe_id),
{
    let mut k: usize = 0;
    while k < slots.len()
        invariant
            k <= slots.len(),
            forall|j: int| 0 <= j < slots@.len() ==> (#[trigger] slots@[j]).source < given@.len(),
            steps@.len() == old(steps)@.len() + k,
            forall|j: int| 0 <= j < old(steps)@.len() ==> steps@[j] == old(steps)@[j],
            forall|j: int|
                0 <= j < k ==> (#[trigger] steps@[old(steps)@.len() + j])@ == stored_step(
                    given@[slots@[j].source as int]@,
                    slots@[j].id as int,
                    recipe_id,
                ),
        decreases slots.len() - k,
    {
        let slot = slots[k];
        steps.push(make_step(&given[slot.source], slot.id, recipe_id));
        k += 1;
    }
}

/// Adds to `lines` one ingredient line for each slot: the line of the update
/// that the slot names, under the slot's id. The ingredient of the line at
/// position `i` of the update has the id `ingredient_ids[i]`, its unit the id
/// `unit_ids[i + 1]`.
pub fn fill_lines(
    lines: &mut Vec<RecipeIngredient>,
    slots: &Vec<Slot>,
    given: &Vec<RecipeIngredient>,
    recipe_id: i32,
    ingredient_ids: &Vec<i32>,
    unit_ids: &Vec<i32>,
)
    requires
        forall|k: int| 0 <= k < slots@.len() ==> (#[trigger] slots@[k]).source < given@.len(),
        ingredient_ids@.len() == given@.len(),
        unit_ids@.len() == given@.len() + 1,
    ensures
        final(lines)@.len() == old(lines)@.len() + slots@.len(),
        forall|k: int| 0 <= k < old(lines)@.len() ==> final(lines)@[k] == old(lines)@[k],
        forall|k: int|
            0 <= k < slots@.len() ==> (#[trigger] final(lines)@[old(lines)@.len() + k])@
                == line_with(
                given@[slots@[k].source as int]@,
                slots@[k].id as int,
                recipe_id,
                ingredient_ids@[slots@[k].source as int],
                unit_ids@[slots@[k].source + 1],
            ),
{
    let mut k: usize = 0;
    while k < slots.len()
        invariant
            k <= slots.len(),
            forall|j: int| 0 <= j < slots@.len() ==> (#[trigger] slots@[j]).source < given@.len(),
            ingredient_ids@.len() == given@.len(),
            unit_ids@.len() == given@.len() + 1,
            lines@.len() == old(lines)@.len() + k,
            forall|j: int| 0 <= j < old(lines)@.len() ==> lines@[j] == old(lines)@[j],
            forall|j: int|
                0 <= j < k ==> (#[trigger] lines@[old(lines)@.len() + j])@ == line_with(
                    given@[slots@[j].source as int]@,
                    slots@[j].id as int,
                    recipe_id,
                    ingredient_ids@[slots@[j].source as int],
                    unit_ids@[slots@[j].source + 1],
                ),
        decreases slots.len() - k,
    {
        let slot = slots[k];
        let rows = unit_ids.len();
        assert(slots@[k as int].source < given@.len());
        assert(slot.source + 1 < rows + 1);
        lines.push(
            make_line(
                &given[slot.source],
                slot.id,
                recipe_id,
                ingredient_ids[slot.source],
                unit_ids[slot.source + 1],
            ),
        );
        k += 1;
    }
}

} // verus!
