//! The recipe service: hands reads through, and lets only the author of a
//! recipe change it.

use vstd::prelude::*;

use crate::domain::recipe::{Error, Recipe};
use crate::domain::user::User;
use crate::port::recipe::{written_by, RecipeRepository, RecipeService};
use crate::store::state::BookView;

verus! {

/// Whether `acting_user` may change the recipe: only its author may, and
/// anyone else is refused as `Unauthorized`.
pub fn check_author(current: &Recipe, acting_user: &User) -> (allowed: Result<(), Error>)
    ensures
        current@.author == acting_user@ ==> allowed == Ok::<(), Error>(()),
        current@.author != acting_user@ ==> allowed == Err::<(), _>(Error::Unauthorized),
{
    if current.author.same_as(acting_user) {
        Ok(())
    } else {
        Err(Error::Unauthorized)
    }
}

/// The recipe with `acting_user` as its author: what is handed to the store
/// when a user creates a recipe.
pub fn authored(recipe: Recipe, acting_user: &User) -> (payload: Recipe)
    ensures
        payload@ == written_by(recipe@, acting_user@),
{
    let mut payload = recipe;
    payload.author = acting_user.clone();
    payload
}

/// The id of the recipe that an update is about. An update that names no
/// recipe is refused as `Unexpected`.
pub fn id_to_update(recipe: &Recipe) -> (id: Result<i32, Error>)
    ensures
        match recipe.id {
            Some(recipe_id) => id == Ok::<_, Error>(recipe_id),
            None => id == Err::<i32, _>(Error::Unexpected),
        },
{
    match recipe.id {
        Some(recipe_id) => Ok(recipe_id),
        None => Err(Error::Unexpected),
    }
}

/// What is handed to the store when `acting_user` updates the recipe that
/// is stored as `current`: the update with `acting_user` as its author, if
/// that is the author of the stored recipe. Anyone else is refused as
/// `Unauthorized`.
pub fn authorized_update(current: &Recipe, recipe: Recipe, acting_user: &User) -> (allowed: Result<
    Recipe,
    Error,
>)
    ensures
        match allowed {
            Ok(payload) => current@.author == acting_user@ && payload@ == written_by(
                recipe@,
                acting_user@,
            ),
            Err(e) => current@.author != acting_user@ && e == Error::Unauthorized,
        },
{
    match check_author(current, acting_user) {
        Ok(()) => Ok(authored(recipe, acting_user)),
        Err(e) => Err(e),
    }
}

/// The recipe service over a store of recipes.
pub struct DefaultRecipeService<R: RecipeRepository> {
    recipe_repository: R,
}

impl<R: RecipeRepository> DefaultRecipeService<R> {
    /// The recipe book of the store that the service was made with.
    pub closed spec fn held(&self) -> BookView {
        self.recipe_repository.book()
    }

    /// The store that the service was made with is reliable.
    pub closed spec fn held_reliable(&self) -> bool {
        self.recipe_repository.reliable()
    }

    /// A service over `recipe_repository`.
    pub fn new(recipe_repository: R) -> (service: DefaultRecipeService<R>)
        ensures
            service.held() == recipe_repository.book(),
            service.held_reliable() == recipe_repository.reliable(),
    {
        DefaultRecipeService { recipe_repository }
    }

    /// Gives the store back.
    pub fn into_repository(self) -> (recipe_repository: R)
        ensures
            recipe_repository.book() == self.held(),
            recipe_repository.reliable() == self.held_reliable(),
    {
        self.recipe_repository
    }
}

impl<R: RecipeRepository> RecipeService for DefaultRecipeService<R> {
    open spec fn book(&self) -> BookView {
        self.held()
    }

    open spec fn reliable(&self) -> bool {
        self.held_reliable()
    }

    fn get_recipes(&self) -> (listed: Result<Vec<Recipe>, Error>) {
        self.recipe_repository.get_recipes()
    }

    fn get_recipe_by_id(&self, id: i32) -> (found: Result<Recipe, Error>) {
        self.recipe_repository.get_recipe_by_id(id)
    }

    fn create_recipe(&mut self, recipe: Recipe, acting_user: &User) -> (created: Result<
        Recipe,
        Error,
    >) {
        self.recipe_repository.create_recipe(authored(recipe, acting_user))
    }

    fn update_recipe(&mut self, recipe: Recipe, acting_user: &User) -> (updated: Result<
        Recipe,
        Error,
    >) {
        let id = match id_to_update(&recipe) {
            Ok(id) => id,
            Err(e) => {
                return Err(e);
            },
        };
        let current = match self.recipe_repository.get_recipe_by_id(id) {
            Ok(current) => current,
            Err(e) => {
                return Err(e);
            },
        };
        match authorized_update(&current, recipe, acting_user) {
            Ok(payload) => self.recipe_repository.update_recipe(payload),
            Err(e) => Err(e),
        }
    }

    fn delete_recipe_by_id(&mut self, id: i32, acting_user: &User) -> (deleted: Result<
        Recipe,
        Error,
    >) {
        let current = match self.recipe_repository.get_recipe_by_id(id) {
            Ok(current) => current,
            Err(e) => {
                return Err(e);
            },
        };
        match check_author(&current, acting_user) {
            Ok(()) => {},
            Err(e) => {
                return Err(e);
            },
        }
        self.recipe_repository.delete_recipe_by_id(id)
    }
}

} // verus!
