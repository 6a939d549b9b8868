use stockpot::domain::recipe;
use stockpot::domain::recipe::{Recipe, Unit};
use stockpot::domain::user;
use stockpot::domain::user::{User, UserView};
use stockpot::port::recipe::{RecipeRepository, RecipeService};
use stockpot::port::user::{UserRepository, UserService};
use stockpot::service::recipe::DefaultRecipeService;
use stockpot::service::user::DefaultUserService;
use stockpot::store::state::BookView;

struct Failing;

impl UserRepository for Failing {
    fn users(&self) -> vstd::seq::Seq<UserView> {
        unreachable!()
    }

    fn sound(&self) -> bool {
        unreachable!()
    }

    fn reliable(&self) -> bool {
        unreachable!()
    }

    fn get_user_by_id(&self, _id: i32) -> Result<User, user::Error> {
        Err(user::Error::Unexpected)
    }

    fn create_user(&mut self, _user: User) -> Result<User, user::Error> {
        Err(user::Error::Unexpected)
    }
}

#[test]
fn test_get_user_unexpected_error() {
    let id = 3;
    let user_service = DefaultUserService::new(Failing);
    assert_eq!(user_service.get_user(id).unwrap_err(), user::Error::Unexpected);
}

#[test]
fn a_failure_of_the_user_store_is_handed_on() {
    let mut user_service = DefaultUserService::new(Failing);
    assert_eq!(
        user_service.create_user(User { id: None, name: "Tom".to_string() }),
        Err(user::Error::Unexpected)
    );
}

struct FailingRecipes;

impl RecipeRepository for FailingRecipes {
    fn book(&self) -> BookView {
        unreachable!()
    }

    fn reliable(&self) -> bool {
        unreachable!()
    }

    fn get_recipes(&self) -> Result<Vec<Recipe>, recipe::Error> {
        Err(recipe::Error::Unexpected)
    }

    fn get_recipe_by_id(&self, _id: i32) -> Result<Recipe, recipe::Error> {
        Err(recipe::Error::Unexpected)
    }

    fn create_recipe(&mut self, _recipe: Recipe) -> Result<Recipe, recipe::Error> {
        Err(recipe::Error::Unexpected)
    }

    fn update_recipe(&mut self, _recipe: Recipe) -> Result<Recipe, recipe::Error> {
        Err(recipe::Error::Unexpected)
    }

    fn delete_recipe_by_id(&mut self, _id: i32) -> Result<Recipe, recipe::Error> {
        Err(recipe::Error::Unexpected)
    }
}

fn soup(id: Option<i32>, author: &User) -> Recipe {
    Recipe {
        id,
        title: "Soup".to_string(),
        description: None,
        author: author.clone(),
        prep_time: None,
        cook_time: None,
        inactive_time: None,
        yield_quantity: 1,
        yield_units: Unit { id: None, name: "bowls".to_string() },
        ingredients: vec![],
        steps: vec![],
    }
}

#[test]
fn a_failure_of_the_recipe_store_is_handed_on() {
    let matt = User { id: Some(1), name: "Matt".to_string() };
    let mut service = DefaultRecipeService::new(FailingRecipes);
    assert_eq!(service.get_recipes(), Err(recipe::Error::Unexpected));
    assert_eq!(service.get_recipe_by_id(1), Err(recipe::Error::Unexpected));
    assert_eq!(service.create_recipe(soup(None, &matt), &matt), Err(recipe::Error::Unexpected));
    assert_eq!(service.update_recipe(soup(Some(1), &matt), &matt), Err(recipe::Error::Unexpected));
    assert_eq!(service.delete_recipe_by_id(1, &matt), Err(recipe::Error::Unexpected));
}
