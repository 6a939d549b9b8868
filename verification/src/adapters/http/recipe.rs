//! Recipes as they come in requests and go out in responses.

use vstd::prelude::*;
use vstd::string::StringExecFns;

use crate::adapters::http::user::{id_to_show, shown_id, GetUser};
use crate::domain::recipe::{
    lines_view, steps_view, Ingredient, NamedView, Recipe, RecipeIngredient,
    RecipeIngredientView, Step, StepView, Unit,
};
use crate::domain::user::User;

verus! {

/// The units that a request may name.
#[derive(Debug, PartialEq, Eq, Clone, Copy, Structural)]
pub enum Units {
    Grams,
}

impl Units {
    /// The name of the unit, in lower case.
    pub open spec fn name(self) -> Seq<char> {
        match self {
            Units::Grams => "grams"@,
        }
    }

    /// The name of the unit, in lower case.
    pub fn to_string(&self) -> (text: String)
        ensures
            text@ == self.name(),
    {
        match self {
            Units::Grams => String::from_str("grams"),
        }
    }
}

/// An ingredient line as a response shows it. A line without an id is shown
/// with the id -1.
#[derive(Debug, PartialEq, Eq)]
pub struct GetRecipeIngredient {
    pub id: i32,
    pub ingredient: String,
    pub quantity: i32,
    pub units: String,
    pub preparation: String,
}

/// A step as a response shows it. A step without an id is shown with the id
/// -1.
#[derive(Debug, PartialEq, Eq)]
pub struct GetStep {
    pub id: i32,
    pub ordinal: i32,
    pub instruction: String,
}

/// A recipe as a response shows it. A recipe without an id is shown with the
/// id -1.
#[derive(Debug, PartialEq)]
pub struct GetRecipe {
    pub id: i32,
    pub title: String,
    pub description: Option<String>,
    pub author: GetUser,
    pub prep_time: Option<chrono::Duration>,
    pub cook_time: Option<chrono::Duration>,
    pub inactive_time: Option<chrono::Duration>,
    pub yield_quantity: i32,
    pub yield_units: String,
    pub ingredients: Vec<GetRecipeIngredient>,
    pub steps: Vec<GetStep>,
}

/// The ingredient line as a response shows it.
pub open spec fn shown_line(value: RecipeIngredient) -> GetRecipeIngredient {
    GetRecipeIngredient {
        id: shown_id(value.id),
        ingredient: value.ingredient.name,
        quantity: value.quantity,
        units: value.units.name,
        preparation: value.preparation,
    }
}

/// The step as a response shows it.
pub open spec fn shown_step(value: Step) -> GetStep {
    GetStep { id: shown_id(value.id), ordinal: value.ordinal, instruction: value.instruction }
}

impl vstd::std_specs::convert::FromSpecImpl<RecipeIngredient> for GetRecipeIngredient {
    open spec fn obeys_from_spec() -> bool {
        true
    }

    open spec fn from_spec(value: RecipeIngredient) -> GetRecipeIngredient {
        shown_line(value)
    }
}

impl From<RecipeIngredient> for GetRecipeIngredient {
    fn from(value: RecipeIngredient) -> (shown: GetRecipeIngredient) {
        GetRecipeIngredient {
            id: id_to_show(value.id),
            ingredient: value.ingredient.name,
            quantity: value.quantity,
            units: value.units.name,
            preparation: value.preparation,
        }
    }
}

impl vstd::std_specs::convert::FromSpecImpl<Step> for GetStep {
    open spec fn obeys_from_spec() -> bool {
        true
    }

    open spec fn from_spec(value: Step) -> GetStep {
        shown_step(value)
    }
}

impl From<Step> for GetStep {
    fn from(value: Step) -> (shown: GetStep) {
        GetStep {
            id: id_to_show(value.id),
            ordinal: value.ordinal,
            instruction: value.instruction,
        }
    }
}

impl GetRecipe {
    /// The recipe as a response shows it: its fields as they are, its author
    /// and its children as responses show them, its unit by name.
    pub fn from(value: Recipe) -> (shown: GetRecipe)
        ensures
            shown.id == shown_id(value.id),
            shown.title == value.title,
            shown.description == value.description,
            shown.author.id == shown_id(value.author.id),
            shown.author.name == value.author.name,
            shown.prep_time == value.prep_time,
            shown.cook_time == value.cook_time,
            shown.inactive_time == value.inactive_time,
            shown.yield_quantity == value.yield_quantity,
            shown.yield_units == value.yield_units.name,
            shown.ingredients@ == value.ingredients@.map_values(
                |l: RecipeIngredient| shown_line(l),
            ),
            shown.steps@ == value.steps@.map_values(|s: Step| shown_step(s)),
    {
        let mut ingredients: Vec<GetRecipeIngredient> = Vec::new();
        let mut i: usize = 0;
        while i < value.ingredients.len()
            invariant
                i <= value.ingredients.len(),
                ingredients@.len() == i,
                forall|k: int| 0 <= k < i ==> ingredients@[k] == shown_line(value.ingredients@[k]),
            decreases value.ingredients.len() - i,
        {
            let line = &value.ingredients[i];
            ingredients.push(
                GetRecipeIngredient {
                    id: id_to_show(line.id),
                    ingredient: line.ingredient.name.clone(),
                    quantity: line.quantity,
                    units: line.units.name.clone(),
                    preparation: line.preparation.clone(),
                },
            );
            i += 1;
        }
        let mut steps: Vec<GetStep> = Vec::new();
        let mut j: usize = 0;
        while j < value.steps.len()
            invariant
                j <= value.steps.len(),
                steps@.len() == j,
                forall|k: int| 0 <= k < j ==> steps@[k] == shown_step(value.steps@[k]),
            decreases value.steps.len() - j,
        {
            let step = &value.steps[j];
            steps.push(
                GetStep {
                    id: id_to_show(step.id),
                    ordinal: step.ordinal,
                    instruction: step.instruction.clone(),
                },
            );
            j += 1;
        }
        proof {
            assert(ingredients@ =~= value.ingredients@.map_values(
                |l: RecipeIngredient| shown_line(l),
            ));
            assert(steps@ =~= value.steps@.map_values(|s: Step| shown_step(s)));
        }
        GetRecipe {
            id: id_to_show(value.id),
            title: value.title,
            description: value.description,
            author: GetUser { id: id_to_show(value.author.id), name: value.author.name },
            prep_time: value.prep_time,
            cook_time: value.cook_time,
            inactive_time: value.inactive_time,
            yield_quantity: value.yield_quantity,
            yield_units: value.yield_units.name,
            ingredients,
            steps,
        }
    }
}

/// An ingredient line of a request to create a recipe.
#[derive(Debug)]
pub struct CreateRecipeIngredient {
    pub ingredient: String,
    pub quantity: i32,
    pub units: Units,
    pub preparation: String,
}

/// A step of a request to create a recipe.
#[derive(Debug)]
pub struct CreateStep {
    pub ordinal: i32,
    pub instruction: String,
}

/// A request to create a recipe.
#[derive(Debug)]
pub struct CreateRecipe {
    pub title: String,
    pub description: Option<String>,
    pub prep_time: Option<chrono::Duration>,
    pub cook_time: Option<chrono::Duration>,
    pub inactive_time: Option<chrono::Duration>,
    pub yield_quantity: i32,
    pub yield_units: Units,
    pub ingredients: Vec<CreateRecipeIngredient>,
    pub steps: Vec<CreateStep>,
}

/// An ingredient line of a request to update a recipe. The id says which
/// stored line is meant; a line without one is new.
#[derive(Debug)]
pub struct UpdateRecipeIngredient {
    pub id: Option<i32>,
    pub ingredient: String,
    pub quantity: i32,
    pub units: Units,
    pub preparation: String,
}

/// A step of a request to update a recipe. The id says which stored step is
/// meant; a step without one is new.
#[derive(Debug)]
pub struct UpdateStep {
    pub id: Option<i32>,
    pub ordinal: i32,
    pub instruction: String,
}

/// A request to update a recipe.
#[derive(Debug)]
pub struct UpdateRecipe {
    pub id: i32,
    pub title: String,
    pub description: Option<String>,
    pub prep_time: Option<chrono::Duration>,
    pub cook_time: Option<chrono::Duration>,
    pub inactive_time: Option<chrono::Duration>,
    pub yield_quantity: i32,
    pub yield_units: Units,
    pub ingredients: Vec<UpdateRecipeIngredient>,
    pub steps: Vec<UpdateStep>,
}

/// The ingredient line that a request gives, before it is stored: under the
/// id `id`, bound to the recipe `recipe_id`, its ingredient and its unit
/// known by name only.
pub open spec fn asked_line(
    id: Option<i32>,
    recipe_id: Option<i32>,
    ingredient: Seq<char>,
    quantity: i32,
    units: Units,
    preparation: Seq<char>,
) -> RecipeIngredientView {
    RecipeIngredientView {
        id,
        recipe_id,
        ingredient: NamedView { id: None, name: ingredient },
        quantity,
        units: NamedView { id: None, name: units.name() },
        preparation,
    }
}

/// The line of a request to create a recipe, as the domain sees it.
pub open spec fn created_line_view(value: CreateRecipeIngredient) -> RecipeIngredientView {
    asked_line(None, None, value.ingredient@, value.quantity, value.units, value.preparation@)
}

/// The step of a request to create a recipe, as the domain sees it.
pub open spec fn created_step_view(value: CreateStep) -> StepView {
    StepView {
        id: None,
        recipe_id: None,
        ordinal: value.ordinal,
        instruction: value.instruction@,
    }
}

/// The line of a request to update a recipe, as the domain sees it, not yet
/// bound to a recipe.
pub open spec fn updated_line_view(value: UpdateRecipeIngredient) -> RecipeIngredientView {
    asked_line(value.id, None, value.ingredient@, value.quantity, value.units, value.preparation@)
}

/// The step of a request to update a recipe, as the domain sees it, not yet
/// bound to a recipe.
pub open spec fn updated_step_view(value: UpdateStep) -> StepView {
    StepView {
        id: value.id,
        recipe_id: None,
        ordinal: value.ordinal,
        instruction: value.instruction@,
    }
}

impl vstd::std_specs::convert::FromSpecImpl<CreateRecipeIngredient> for RecipeIngredient {
    open spec fn obeys_from_spec() -> bool {
        false
    }

    open spec fn from_spec(value: CreateRecipeIngredient) -> RecipeIngredient {
        choose|line: RecipeIngredient| line@ == created_line_view(value)
    }
}

impl From<CreateRecipeIngredient> for RecipeIngredient {
    fn from(value: CreateRecipeIngredient) -> (line: RecipeIngredient)
        ensures
            line@ == created_line_view(value),
    {
        RecipeIngredient {
            id: None,
            recipe_id: None,
            ingredient: Ingredient { id: None, name: value.ingredient },
            quantity: value.quantity,
            units: Unit { id: None, name: value.units.to_string() },
            preparation: value.preparation,
        }
    }
}

impl vstd::std_specs::convert::FromSpecImpl<CreateStep> for Step {
    open spec fn obeys_from_spec() -> bool {
        true
    }

    open spec fn from_spec(value: CreateStep) -> Step {
        Step { id: None, recipe_id: None, ordinal: value.ordinal, instruction: value.instruction }
    }
}

impl From<CreateStep> for Step {
    fn from(value: CreateStep) -> (step: Step) {
        Step { id: None, recipe_id: None, ordinal: value.ordinal, instruction: value.instruction }
    }
}

impl vstd::std_specs::convert::FromSpecImpl<UpdateRecipeIngredient> for RecipeIngredient {
    open spec fn obeys_from_spec() -> bool {
        false
    }

    open spec fn from_spec(value: UpdateRecipeIngredient) -> RecipeIngredient {
        choose|line: RecipeIngredient| line@ == updated_line_view(value)
    }
}

impl From<UpdateRecipeIngredient> for RecipeIngredient {
    fn from(value: UpdateRecipeIngredient) -> (line: RecipeIngredient)
        ensures
            line@ == updated_line_view(value),
    {
        RecipeIngredient {
            id: value.id,
            recipe_id: None,
            ingredient: Ingredient { id: None, name: value.ingredient },
            quantity: value.quantity,
            units: Unit { id: None, name: value.units.to_string() },
            preparation: value.preparation,
        }
    }
}

impl vstd::std_specs::convert::FromSpecImpl<UpdateStep> for Step {
    open spec fn obeys_from_spec() -> bool {
        true
    }

    open spec fn from_spec(value: UpdateStep) -> Step {
        Step {
            id: value.id,
            recipe_id: None,
            ordinal: value.ordinal,
            instruction: value.instruction,
        }
    }
}

impl From<UpdateStep> for Step {
    fn from(value: UpdateStep) -> (step: Step) {
        Step {
            id: value.id,
            recipe_id: None,
            ordinal: value.ordinal,
            instruction: value.instruction,
        }
    }
}

impl Recipe {
    /// The recipe that a request to create one asks for, with `author` as its
    /// author: without ids, its ingredients and units known by name only.
    pub fn from_create(value: CreateRecipe, author: User) -> (recipe: Recipe)
        ensures
            recipe.id is None,
            recipe.title == value.title,
            recipe.description == value.description,
            recipe.author == author,
            recipe.prep_time == value.prep_time,
            recipe.cook_time == value.cook_time,
            recipe.inactive_time == value.inactive_time,
            recipe.yield_quantity == value.yield_quantity,
            recipe.yield_units@ == (NamedView { id: None, name: value.yield_units.name() }),
            lines_view(recipe.ingredients@) == value.ingredients@.map_values(
                |l: CreateRecipeIngredient| created_line_view(l),
            ),
            steps_view(recipe.steps@) == value.steps@.map_values(
                |s: CreateStep| created_step_view(s),
            ),
    {
        let mut ingredients: Vec<RecipeIngredient> = Vec::new();
        let mut i: usize = 0;
        while i < value.ingredients.len()
            invariant
                i <= value.ingredients.len(),
                ingredients@.len() == i,
                forall|k: int|
                    0 <= k < i ==> ingredients@[k]@ == created_line_view(value.ingredients@[k]),
            decreases value.ingredients.len() - i,
        {
            let line = &value.ingredients[i];
            ingredients.push(
                RecipeIngredient {
                    id: None,
                    recipe_id: None,
                    ingredient: Ingredient { id: None, name: line.ingredient.clone() },
                    quantity: line.quantity,
                    units: Unit { id: None, name: line.units.to_string() },
                    preparation: line.preparation.clone(),
                },
            );
            i += 1;
        }
        let mut steps: Vec<Step> = Vec::new();
        let mut j: usize = 0;
        while j < value.steps.len()
            invariant
                j <= value.steps.len(),
                steps@.len() == j,
                forall|k: int| 0 <= k < j ==> steps@[k]@ == created_step_view(value.steps@[k]),
            decreases value.steps.len() - j,
        {
            let step = &value.steps[j];
            steps.push(
                Step {
                    id: None,
                    recipe_id: None,
                    ordinal: step.ordinal,
                    instruction: step.instruction.clone(),
                },
            );
            j += 1;
        }
        proof {
            assert(lines_view(ingredients@) =~= value.ingredients@.map_values(
                |l: CreateRecipeIngredient| created_line_view(l),
            ));
            assert(steps_view(steps@) =~= value.steps@.map_values(
                |s: CreateStep| created_step_view(s),
            ));
        }
        Recipe {
            id: None,
            title: value.title,
            description: value.description,
            author,
            prep_time: value.prep_time,
            cook_time: value.cook_time,
            inactive_time: value.inactive_time,
            yield_quantity: value.yield_quantity,
            yield_units: Unit { id: None, name: value.yield_units.to_string() },
            ingredients,
            steps,
        }
    }

    /// The recipe that a request to update one asks for, with `author` as its
    /// author: under the id of the request, each child under the id it
    /// carries, if any, and bound to the recipe.
    pub fn from_update(value: UpdateRecipe, author: User) -> (recipe: Recipe)
        ensures
            recipe.id == Some(value.id),
            recipe.title == value.title,
            recipe.description == value.description,
            recipe.author == author,
            recipe.prep_time == value.prep_time,
            recipe.cook_time == value.cook_time,
            recipe.inactive_time == value.inactive_time,
            recipe.yield_quantity == value.yield_quantity,
            recipe.yield_units@ == (NamedView { id: None, name: value.yield_units.name() }),
            lines_view(recipe.ingredients@) == value.ingredients@.map_values(
                |l: UpdateRecipeIngredient|
                    RecipeIngredientView { recipe_id: Some(value.id), ..updated_line_view(l) },
            ),
            steps_view(recipe.steps@) == value.steps@.map_values(
                |s: UpdateStep| StepView { recipe_id: Some(value.id), ..updated_step_view(s) },
            ),
    {
        let id = value.id;
        let mut ingredients: Vec<RecipeIngredient> = Vec::new();
        let mut i: usize = 0;
        while i < value.ingredients.len()
            invariant
                i <= value.ingredients.len(),
                id == value.id,
                ingredients@.len() == i,
                forall|k: int|
                    0 <= k < i ==> ingredients@[k]@ == (RecipeIngredientView {
                        recipe_id: Some(id),
                        ..updated_line_view(value.ingredients@[k])
                    }),
            decreases value.ingredients.len() - i,
        {
            let line = &value.ingredients[i];
            ingredients.push(
                RecipeIngredient {
                    id: line.id,
                    recipe_id: Some(id),
                    ingredient: Ingredient { id: None, name: line.ingredient.clone() },
                    quantity: line.quantity,
                    units: Unit { id: None, name: line.units.to_string() },
                    preparation: line.preparation.clone(),
                },
            );
            i += 1;
        }
        let mut steps: Vec<Step> = Vec::new();
        let mut j: usize = 0;
        while j < value.steps.len()
            invariant
                j <= value.steps.len(),
                id == value.id,
                steps@.len() == j,
                forall|k: int|
                    0 <= k < j ==> steps@[k]@ == (StepView {
                        recipe_id: Some(id),
                        ..updated_step_view(value.steps@[k])
                    }),
            decreases value.steps.len() - j,
        {
            let step = &value.steps[j];
            steps.push(
                Step {
                    id: step.id,
                    recipe_id: Some(id),
                    ordinal: step.ordinal,
                    instruction: step.instruction.clone(),
                },
            );
            j += 1;
        }
        proof {
            assert(lines_view(ingredients@) =~= value.ingredients@.map_values(
                |l: UpdateRecipeIngredient|
                    RecipeIngredientView { recipe_id: Some(value.id), ..updated_line_view(l) },
            ));
            assert(steps_view(steps@) =~= value.steps@.map_values(
                |s: UpdateStep| StepView { recipe_id: Some(value.id), ..updated_step_view(s) },
            ));
        }
        Recipe {
            id: Some(id),
            title: value.title,
            description: value.description,
            author,
            prep_time: value.prep_time,
            cook_time: value.cook_time,
            inactive_time: value.inactive_time,
            yield_quantity: value.yield_quantity,
            yield_units: Unit { id: None, name: value.yield_units.to_string() },
            ingredients,
            steps,
        }
    }
}

} // verus!
