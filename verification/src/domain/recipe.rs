//! Recipes and what they are made of: units, ingredients, ingredient lines
//! and steps.

use vstd::prelude::*;
use vstd::string::StringExecFns;

use crate::domain::user::{User, UserView};
use crate::text::{decimal, decimal_text};

verus! {

/// `chrono::TimeDelta`, which `chrono::Duration` names: a span of time. The
/// times of a recipe are carried as they are given and never looked into.
#[verifier::external_type_specification]
#[verifier::external_body]
pub struct ExTimeDelta(chrono::TimeDelta);

/// Why a recipe operation failed.
#[derive(Debug, PartialEq, Eq, Clone, Copy, Structural)]
pub enum Error {
    /// The storage failed, or the request asked for what the storage refuses.
    Unexpected,
    /// No recipe is stored under this id.
    RecipeNotFound(i32),
    /// The acting user is not the recipe's author.
    Unauthorized,
    /// The request is malformed: an ingredient or a unit without a name.
    InvalidArgument,
}

impl Error {
    /// The message of an error.
    pub open spec fn message(self) -> Seq<char> {
        match self {
            Error::Unexpected => "unexpected error occurred"@,
            Error::RecipeNotFound(id) => "recipe with id `"@ + decimal(id as int)
                + "` not found"@,
            Error::Unauthorized => "recipe belongs to another user"@,
            Error::InvalidArgument => "ingredients and units must have a name"@,
        }
    }

    /// The message of the error, for a person to read.
    pub fn to_string(&self) -> (text: String)
        ensures
            text@ == self.message(),
    {
        match self {
            Error::Unexpected => String::from_str("unexpected error occurred"),
            Error::RecipeNotFound(id) => String::from_str("recipe with id `").concat(
                decimal_text(*id).as_str(),
            ).concat("` not found"),
            Error::Unauthorized => String::from_str("recipe belongs to another user"),
            Error::InvalidArgument => String::from_str("ingredients and units must have a name"),
        }
    }
}

/// What a [`Unit`] or an [`Ingredient`] is: a shared name and the id it is
/// stored under.
pub struct NamedView {
    pub id: Option<i32>,
    pub name: Seq<char>,
}

/// A unit of measure, shared by every recipe that names it.
#[derive(Debug, PartialEq)]
pub struct Unit {
    pub id: Option<i32>,
    pub name: String,
}

/// An ingredient, shared by every recipe that names it.
#[derive(Debug, PartialEq)]
pub struct Ingredient {
    pub id: Option<i32>,
    pub name: String,
}

impl View for Unit {
    type V = NamedView;

    open spec fn view(&self) -> NamedView {
        NamedView { id: self.id, name: self.name@ }
    }
}

impl View for Ingredient {
    type V = NamedView;

    open spec fn view(&self) -> NamedView {
        NamedView { id: self.id, name: self.name@ }
    }
}

impl Clone for Unit {
    fn clone(&self) -> (copy: Self)
        ensures
            copy@ == self@,
    {
        Unit { id: self.id, name: self.name.clone() }
    }
}

impl Clone for Ingredient {
    fn clone(&self) -> (copy: Self)
        ensures
            copy@ == self@,
    {
        Ingredient { id: self.id, name: self.name.clone() }
    }
}

/// What a [`Step`] is.
pub struct StepView {
    pub id: Option<i32>,
    pub recipe_id: Option<i32>,
    pub ordinal: i32,
    pub instruction: Seq<char>,
}

/// One instruction of a recipe. The ordinal is the caller's and is kept as
/// given.
#[derive(Debug, PartialEq)]
pub struct Step {
    pub id: Option<i32>,
    pub recipe_id: Option<i32>,
    pub ordinal: i32,
    pub instruction: String,
}

impl View for Step {
    type V = StepView;

    open spec fn view(&self) -> StepView {
        StepView {
            id: self.id,
            recipe_id: self.recipe_id,
            ordinal: self.ordinal,
            instruction: self.instruction@,
        }
    }
}

impl Clone for Step {
    fn clone(&self) -> (copy: Self)
        ensures
            copy@ == self@,
    {
        Step {
            id: self.id,
            recipe_id: self.recipe_id,
            ordinal: self.ordinal,
            instruction: self.instruction.clone(),
        }
    }
}

/// What a [`RecipeIngredient`] is.
pub struct RecipeIngredientView {
    pub id: Option<i32>,
    pub recipe_id: Option<i32>,
    pub ingredient: NamedView,
    pub quantity: i32,
    pub units: NamedView,
    pub preparation: Seq<char>,
}

/// One ingredient line of a recipe: how much of which ingredient, and how it
/// is prepared.
#[derive(Debug, PartialEq)]
pub struct RecipeIngredient {
    pub id: Option<i32>,
    pub recipe_id: Option<i32>,
    pub ingredient: Ingredient,
    pub quantity: i32,
    pub units: Unit,
    pub preparation: String,
}

impl View for RecipeIngredient {
    type V = RecipeIngredientView;

    open spec fn view(&self) -> RecipeIngredientView {
        RecipeIngredientView {
            id: self.id,
            recipe_id: self.recipe_id,
            ingredient: self.ingredient@,
            quantity: self.quantity,
            units: self.units@,
            preparation: self.preparation@,
        }
    }
}

impl Clone for RecipeIngredient {
    fn clone(&self) -> (copy: Self)
        ensures
            copy@ == self@,
    {
        RecipeIngredient {
            id: self.id,
            recipe_id: self.recipe_id,
            ingredient: self.ingredient.clone(),
            quantity: self.quantity,
            units: self.units.clone(),
            preparation: self.preparation.clone(),
        }
    }
}

/// The views of a list of steps, in order.
pub open spec fn steps_view(steps: Seq<Step>) -> Seq<StepView> {
    steps.map_values(|s: Step| s@)
}

/// The views of a list of ingredient lines, in order.
pub open spec fn lines_view(lines: Seq<RecipeIngredient>) -> Seq<RecipeIngredientView> {
    lines.map_values(|l: RecipeIngredient| l@)
}

/// The characters of an optional text.
pub open spec fn text_view(text: Option<String>) -> Option<Seq<char>> {
    match text {
        Some(t) => Some(t@),
        None => None,
    }
}

/// A copy of an optional text.
pub fn clone_text(text: &Option<String>) -> (copy: Option<String>)
    ensures
        text_view(copy) == text_view(*text),
{
    match text {
        Some(t) => Some(t.clone()),
        None => None,
    }
}

/// A copy of a list of steps.
pub fn clone_steps(steps: &Vec<Step>) -> (copy: Vec<Step>)
    ensures
        steps_view(copy@) == steps_view(steps@),
{
    let mut copy: Vec<Step> = Vec::new();
    let mut i: usize = 0;
    while i < steps.len()
        invariant
            i <= steps.len(),
            copy.len() == i,
            forall|k: int| 0 <= k < i ==> copy@[k]@ == steps@[k]@,
        decreases steps.len() - i,
    {
        copy.push(steps[i].clone());
        i += 1;
    }
    assert(steps_view(copy@) =~= steps_view(steps@));
    copy
}

/// A copy of a list of ingredient lines.
pub fn clone_lines(lines: &Vec<RecipeIngredient>) -> (copy: Vec<RecipeIngredient>)
    ensures
        lines_view(copy@) == lines_view(lines@),
{
    let mut copy: Vec<RecipeIngredient> = Vec::new();
    let mut i: usize = 0;
    while i < lines.len()
        invariant
            i <= lines.len(),
            copy.len() == i,
            forall|k: int| 0 <= k < i ==> copy@[k]@ == lines@[k]@,
        decreases lines.len() - i,
    {
        copy.push(lines[i].clone());
        i += 1;
    }
    assert(lines_view(copy@) =~= lines_view(lines@));
    copy
}

/// What a [`Recipe`] is.
pub struct RecipeView {
    pub id: Option<i32>,
    pub title: Seq<char>,
    pub description: Option<Seq<char>>,
    pub author: UserView,
    pub prep_time: Option<chrono::Duration>,
    pub cook_time: Option<chrono::Duration>,
    pub inactive_time: Option<chrono::Duration>,
    pub yield_quantity: i32,
    pub yield_units: NamedView,
    pub ingredients: Seq<RecipeIngredientView>,
    pub steps: Seq<StepView>,
}

/// A recipe with its ingredient lines and its steps. The id is absent until
/// the recipe has been stored.
#[derive(Debug, PartialEq)]
pub struct Recipe {
    pub id: Option<i32>,
    pub title: String,
    pub description: Option<String>,
    pub author: User,
    pub prep_time: Option<chrono::Duration>,
    pub cook_time: Option<chrono::Duration>,
    pub inactive_time: Option<chrono::Duration>,
    pub yield_quantity: i32,
    pub yield_units: Unit,
    pub ingredients: Vec<RecipeIngredient>,
    pub steps: Vec<Step>,
}

impl View for Recipe {
    type V = RecipeView;

    open spec fn view(&self) -> RecipeView {
        RecipeView {
            id: self.id,
            title: self.title@,
            description: text_view(self.description),
            author: self.author@,
            prep_time: self.prep_time,
            cook_time: self.cook_time,
            inactive_time: self.inactive_time,
            yield_quantity: self.yield_quantity,
            yield_units: self.yield_units@,
            ingredients: lines_view(self.ingredients@),
            steps: steps_view(self.steps@),
        }
    }
}

/// The views of a list of recipes, in order.
pub open spec fn recipes_view(recipes: Seq<Recipe>) -> Seq<RecipeView> {
    recipes.map_values(|r: Recipe| r@)
}

impl Clone for Recipe {
    fn clone(&self) -> (copy: Self)
        ensures
            copy@ == self@,
    {
        Recipe {
            id: self.id,
            title: self.title.clone(),
            description: clone_text(&self.description),
            author: self.author.clone(),
            prep_time: self.prep_time,
            cook_time: self.cook_time,
            inactive_time: self.inactive_time,
            yield_quantity: self.yield_quantity,
            yield_units: self.yield_units.clone(),
            ingredients: clone_lines(&self.ingredients),
            steps: clone_steps(&self.steps),
        }
    }
}

} // verus!
