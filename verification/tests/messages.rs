use stockpot::adapters::http::error::{AppError, ErrorResponse, PathFailure, PathFailureKind};
use stockpot::adapters::http::recipe::{
    CreateRecipeIngredient, CreateStep, GetRecipe, GetRecipeIngredient, GetStep, Units,
    UpdateRecipe, UpdateRecipeIngredient, UpdateStep,
};
use stockpot::adapters::http::user::{id_to_show, CreateUser, GetToken, GetUser};
use stockpot::domain::auth;
use stockpot::domain::auth::{AuthUserCredentials, UserCredentials, UsernameAndPassword};
use stockpot::domain::recipe;
use stockpot::domain::recipe::{Ingredient, Recipe, RecipeIngredient, Step, Unit};
use stockpot::domain::user;
use stockpot::domain::user::User;
use stockpot::text::decimal_text;

#[test]
fn numbers_are_written_in_decimal() {
    assert_eq!(decimal_text(0), "0");
    assert_eq!(decimal_text(7), "7");
    assert_eq!(decimal_text(10), "10");
    assert_eq!(decimal_text(4096), "4096");
    assert_eq!(decimal_text(-5), "-5");
    assert_eq!(decimal_text(-120), "-120");
    assert_eq!(decimal_text(i32::MAX), "2147483647");
    assert_eq!(decimal_text(i32::MIN), "-2147483648");
}

#[test]
fn every_error_has_its_message() {
    assert_eq!(user::Error::UserNotFound(12).to_string(), "user with id `12` not found");
    assert_eq!(user::Error::Unexpected.to_string(), "unexpected error occurred");
    assert_eq!(
        auth::Error::AuthUserNotFound("matt42".to_string()).to_string(),
        "user with username `matt42` not found"
    );
    assert_eq!(auth::Error::UserNotFound(-1).to_string(), "user with id `-1` not found");
    assert_eq!(auth::Error::InvalidAuth.to_string(), "Invalid credentials");
    assert_eq!(auth::Error::Unexpected.to_string(), "unexpected error occurred");
    assert_eq!(recipe::Error::RecipeNotFound(3).to_string(), "recipe with id `3` not found");
    assert_eq!(recipe::Error::Unexpected.to_string(), "unexpected error occurred");
    assert_eq!(recipe::Error::Unauthorized.to_string(), "recipe belongs to another user");
    assert_eq!(recipe::Error::InvalidArgument.to_string(), "ingredients and units must have a name");
}

#[test]
fn every_kind_of_failure_has_its_status() {
    let cases: Vec<(AppError, u16, &str)> = vec![
        (user::Error::UserNotFound(4).into(), 404, "user with id `4` not found"),
        (user::Error::Unexpected.into(), 500, "unexpected error occurred"),
        (auth::Error::AuthUserNotFound("tom".to_string()).into(), 404, "user with username `tom` not found"),
        (auth::Error::UserNotFound(2).into(), 404, "user with id `2` not found"),
        (auth::Error::InvalidAuth.into(), 401, "Invalid credentials"),
        (auth::Error::Unexpected.into(), 500, "unexpected error occurred"),
        (recipe::Error::RecipeNotFound(9).into(), 404, "recipe with id `9` not found"),
        (recipe::Error::Unexpected.into(), 500, "unexpected error occurred"),
        (recipe::Error::Unauthorized.into(), 401, "recipe belongs to another user"),
        (recipe::Error::InvalidArgument.into(), 400, "ingredients and units must have a name"),
    ];
    for (error, status, message) in cases {
        assert_eq!(error.status_code(), status);
        assert_eq!(ErrorResponse::from(&error), ErrorResponse { error: message.to_string() });
        assert_eq!(error.into_response(), (status, ErrorResponse { error: message.to_string() }));
    }
    let path = |kind| AppError::PathParseError(PathFailure { kind, message: "no".to_string() });
    assert_eq!(path(PathFailureKind::Malformed).status_code(), 400);
    assert_eq!(path(PathFailureKind::UnsupportedType).status_code(), 500);
    assert_eq!(path(PathFailureKind::MissingPathParams).status_code(), 500);
    assert_eq!(path(PathFailureKind::Other).status_code(), 500);
    assert_eq!(AppError::EntityNotFound("x".to_string()).status_code(), 404);
    assert_eq!(AppError::Unauthorized("x".to_string()).status_code(), 401);
    assert_eq!(AppError::InvalidArgument("x".to_string()).status_code(), 400);
    assert_eq!(AppError::Unexpected("x".to_string()).status_code(), 500);
    assert_eq!(auth::Error::from(user::Error::UserNotFound(8)), auth::Error::UserNotFound(8));
    assert_eq!(auth::Error::from(user::Error::Unexpected), auth::Error::Unexpected);
}

#[test]
fn users_and_credentials_are_written_out() {
    assert_eq!(User { id: Some(3), name: "Matt".to_string() }.to_string(), "id: 3, name: Matt");
    assert_eq!(User { id: None, name: "Matt".to_string() }.to_string(), "id: None, name: Matt");
    let stored = AuthUserCredentials {
        id: Some(2),
        username: "matt42".to_string(),
        password_hash: "hidden".to_string(),
        user_id: 7,
    };
    assert_eq!(stored.to_string(), "id: 2, username: matt42, user_id: 7");
    let unsaved = AuthUserCredentials { id: None, ..stored };
    assert_eq!(unsaved.to_string(), "id: None, username: matt42, user_id: 7");
}

#[test]
fn requests_and_responses_map_to_the_domain() {
    assert_eq!(id_to_show(Some(5)), 5);
    assert_eq!(id_to_show(None), -1);
    assert_eq!(Units::Grams.to_string(), "grams");
    assert_eq!(GetUser::from(User { id: None, name: "Tom".to_string() }), GetUser { id: -1, name: "Tom".to_string() });
    let request = CreateUser { username: "tom333".to_string(), password: "secret".to_string(), name: "Tom".to_string() };
    assert_eq!(User::from(request.clone()), User { id: None, name: "Tom".to_string() });
    let credentials = UsernameAndPassword::from(request);
    assert_eq!(credentials.username, "tom333");
    assert_eq!(credentials.password, "secret");
    match UserCredentials::UsernameAndPassword(credentials) {
        UserCredentials::UsernameAndPassword(inner) => assert_eq!(inner.username, "tom333"),
        UserCredentials::JwtToken(_) => panic!("credentials changed their kind"),
    }
    assert_eq!(GetToken { token: "t".to_string() }.token, "t");

    let line = RecipeIngredient::from(CreateRecipeIngredient {
        ingredient: "salt".to_string(),
        quantity: 3,
        units: Units::Grams,
        preparation: "ground".to_string(),
    });
    assert_eq!(
        line,
        RecipeIngredient {
            id: None,
            recipe_id: None,
            ingredient: Ingredient { id: None, name: "salt".to_string() },
            quantity: 3,
            units: Unit { id: None, name: "grams".to_string() },
            preparation: "ground".to_string(),
        }
    );
    let line = RecipeIngredient::from(UpdateRecipeIngredient {
        id: Some(4),
        ingredient: "salt".to_string(),
        quantity: 3,
        units: Units::Grams,
        preparation: "ground".to_string(),
    });
    assert_eq!(line.id, Some(4));
    assert_eq!(line.recipe_id, None);
    assert_eq!(
        Step::from(CreateStep { ordinal: 2, instruction: "Stir".to_string() }),
        Step { id: None, recipe_id: None, ordinal: 2, instruction: "Stir".to_string() }
    );
    assert_eq!(
        Step::from(UpdateStep { id: Some(6), ordinal: 2, instruction: "Stir".to_string() }),
        Step { id: Some(6), recipe_id: None, ordinal: 2, instruction: "Stir".to_string() }
    );
    assert_eq!(
        GetStep::from(Step { id: None, recipe_id: None, ordinal: 2, instruction: "Stir".to_string() }),
        GetStep { id: -1, ordinal: 2, instruction: "Stir".to_string() }
    );
    assert_eq!(
        GetRecipeIngredient::from(line),
        GetRecipeIngredient {
            id: 4,
            ingredient: "salt".to_string(),
            quantity: 3,
            units: "grams".to_string(),
            preparation: "ground".to_string(),
        }
    );

    let author = User { id: Some(1), name: "Matt".to_string() };
    let recipe = Recipe::from_update(
        UpdateRecipe {
            id: 12,
            title: "Soup".to_string(),
            description: None,
            prep_time: None,
            cook_time: Some(chrono::Duration::seconds(90)),
            inactive_time: None,
            yield_quantity: 2,
            yield_units: Units::Grams,
            ingredients: vec![UpdateRecipeIngredient {
                id: None,
                ingredient: "water".to_string(),
                quantity: 500,
                units: Units::Grams,
                preparation: "boiled".to_string(),
            }],
            steps: vec![UpdateStep { id: Some(3), ordinal: 1, instruction: "Boil".to_string() }],
        },
        author.clone(),
    );
    assert_eq!(recipe.id, Some(12));
    assert_eq!(recipe.author, author);
    assert_eq!(recipe.yield_units, Unit { id: None, name: "grams".to_string() });
    assert_eq!(recipe.ingredients[0].recipe_id, Some(12));
    assert_eq!(recipe.ingredients[0].id, None);
    assert_eq!(recipe.steps, vec![Step { id: Some(3), recipe_id: Some(12), ordinal: 1, instruction: "Boil".to_string() }]);
    let shown = GetRecipe::from(recipe);
    assert_eq!(shown.id, 12);
    assert_eq!(shown.description, None);
    assert_eq!(shown.cook_time, Some(chrono::Duration::seconds(90)));
    assert_eq!(shown.ingredients[0].id, -1);
    assert_eq!(shown.steps[0].id, 3);
}
