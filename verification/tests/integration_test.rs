use axum::body::Body;
use axum::extract::path::ErrorKind;
use axum::extract::rejection::PathRejection;
use axum::http::{Request, StatusCode};
use axum::routing::get;
use axum::Router;
use stockpot::adapters::http::error::{AppError, ErrorResponse, PathFailure, PathFailureKind};
use stockpot::adapters::http::recipe::{
    CreateRecipe, CreateRecipeIngredient, CreateStep, GetRecipe, GetRecipeIngredient, GetStep,
    Units, UpdateRecipe, UpdateRecipeIngredient, UpdateStep,
};
use stockpot::adapters::http::user::{CreateUser, GetAuthUser, GetUser};
use stockpot::domain::auth;
use stockpot::domain::auth::{AuthUser, UsernameAndPassword};
use stockpot::domain::recipe;
use stockpot::domain::recipe::Recipe;
use stockpot::domain::user;
use stockpot::domain::user::User;
use stockpot::port::recipe::RecipeService;
use stockpot::port::user::UserService;
use stockpot::service::auth::{credentials_shown, new_salt, DefaultAuthUserService};
use stockpot::service::recipe::DefaultRecipeService;
use stockpot::service::user::DefaultUserService;
use stockpot::store::book::RecipeBook;
use tower::ServiceExt;

fn matt() -> User {
    User { id: Some(1), name: "Matt".to_string() }
}

fn book_with_matt() -> RecipeBook {
    let mut book = RecipeBook::new();
    let stored = book.create_user(User { id: None, name: "Matt".to_string() }).unwrap();
    assert_eq!(stored, matt());
    book
}

fn seconds(n: i64) -> Option<chrono::Duration> {
    Some(chrono::Duration::seconds(n))
}

fn carrots_line() -> CreateRecipeIngredient {
    CreateRecipeIngredient {
        ingredient: "carrots".to_string(),
        quantity: 200,
        units: Units::Grams,
        preparation: "diced".to_string(),
    }
}

fn butter_line() -> CreateRecipeIngredient {
    CreateRecipeIngredient {
        ingredient: "butter".to_string(),
        quantity: 200,
        units: Units::Grams,
        preparation: "melted".to_string(),
    }
}

fn saute_step() -> CreateStep {
    CreateStep { ordinal: 1, instruction: "Saute the carrots in the butter".to_string() }
}

fn eat_step() -> CreateStep {
    CreateStep { ordinal: 2, instruction: "Eat the carrots".to_string() }
}

fn buttered_carrots(ingredients: Vec<CreateRecipeIngredient>, steps: Vec<CreateStep>) -> CreateRecipe {
    CreateRecipe {
        title: "Buttered Carrots".to_string(),
        description: Some("Buttery carrots in a butter sauce".to_string()),
        prep_time: seconds(360),
        cook_time: seconds(400),
        inactive_time: seconds(8600),
        yield_quantity: 200,
        yield_units: Units::Grams,
        ingredients,
        steps,
    }
}

fn updated_carrots(ingredients: Vec<UpdateRecipeIngredient>, steps: Vec<UpdateStep>) -> UpdateRecipe {
    UpdateRecipe {
        id: 1,
        title: "Buttered Carrots".to_string(),
        description: Some("Buttery carrots in a butter sauce".to_string()),
        prep_time: seconds(360),
        cook_time: seconds(400),
        inactive_time: seconds(8600),
        yield_quantity: 200,
        yield_units: Units::Grams,
        ingredients,
        steps,
    }
}

fn shown_carrots(ingredients: Vec<GetRecipeIngredient>, steps: Vec<GetStep>) -> GetRecipe {
    GetRecipe {
        id: 1,
        title: "Buttered Carrots".to_string(),
        description: Some("Buttery carrots in a butter sauce".to_string()),
        author: GetUser { id: 1, name: "Matt".to_string() },
        prep_time: seconds(360),
        cook_time: seconds(400),
        inactive_time: seconds(8600),
        yield_quantity: 200,
        yield_units: "grams".to_string(),
        ingredients,
        steps,
    }
}

fn shown_line(id: i32, ingredient: &str, quantity: i32, preparation: &str) -> GetRecipeIngredient {
    GetRecipeIngredient {
        id,
        ingredient: ingredient.to_string(),
        quantity,
        units: "grams".to_string(),
        preparation: preparation.to_string(),
    }
}

fn shown_step(id: i32, ordinal: i32, instruction: &str) -> GetStep {
    GetStep { id, ordinal, instruction: instruction.to_string() }
}

fn update_line(id: Option<i32>, ingredient: &str, quantity: i32, preparation: &str) -> UpdateRecipeIngredient {
    UpdateRecipeIngredient {
        id,
        ingredient: ingredient.to_string(),
        quantity,
        units: Units::Grams,
        preparation: preparation.to_string(),
    }
}

fn update_step(id: Option<i32>, ordinal: i32, instruction: &str) -> UpdateStep {
    UpdateStep { id, ordinal, instruction: instruction.to_string() }
}

fn report(error: AppError) -> (u16, ErrorResponse) {
    error.into_response()
}

#[test]
fn test_get_non_existant_user() {
    let service = DefaultUserService::new(RecipeBook::new());
    let failed: AppError = service.get_user(1).unwrap_err().into();
    let (status, body) = report(failed);
    assert_eq!(status, 404);
    assert_eq!(body, ErrorResponse { error: "user with id `1` not found".to_string() });
}

#[test]
fn test_get_existing_user() {
    let service = DefaultUserService::new(book_with_matt());
    let shown: GetUser = service.get_user(1).unwrap().into();
    assert_eq!(shown, GetUser { id: 1, name: "Matt".to_string() });
}

fn failure_of(rejection: PathRejection) -> AppError {
    let message = rejection.to_string();
    let kind = match rejection {
        PathRejection::FailedToDeserializePathParams(inner) => match inner.into_kind() {
            ErrorKind::UnsupportedType { .. } => PathFailureKind::UnsupportedType,
            _ => PathFailureKind::Malformed,
        },
        PathRejection::MissingPathParams(_) => PathFailureKind::MissingPathParams,
        _ => PathFailureKind::Other,
    };
    AppError::PathParseError(PathFailure { kind, message })
}

async fn user_by_id(path: Result<axum::extract::Path<i32>, PathRejection>) -> (StatusCode, String) {
    match path {
        Ok(axum::extract::Path(id)) => (StatusCode::OK, id.to_string()),
        Err(rejection) => {
            let (status, body) = report(failure_of(rejection));
            (StatusCode::from_u16(status).unwrap(), body.error)
        }
    }
}

fn get_from_user_route(uri: &str) -> (StatusCode, String) {
    let runtime = tokio::runtime::Builder::new_current_thread().build().unwrap();
    runtime.block_on(async {
        let app = Router::new().route("/user/:id", get(user_by_id));
        let request = Request::builder().uri(uri).body(Body::empty()).unwrap();
        let response = app.oneshot(request).await.unwrap();
        let status = response.status();
        let bytes = axum::body::to_bytes(response.into_body(), usize::MAX).await.unwrap();
        (status, String::from_utf8(bytes.to_vec()).unwrap())
    })
}

#[test]
fn test_get_invalid_user_id() {
    let (status, body) = get_from_user_route("/user/foo");
    assert_eq!(status, StatusCode::BAD_REQUEST);
    assert_eq!(body, "Cannot parse `\"foo\"` to a `i32`");
    assert_eq!(get_from_user_route("/user/12"), (StatusCode::OK, "12".to_string()));
}

#[test]
fn test_create_user_success() {
    let mut service = DefaultUserService::new(RecipeBook::new());
    let auth_service = DefaultAuthUserService::new("secret".to_string());
    let request = CreateUser {
        username: "tom333".to_string(),
        password: "secret".to_string(),
        name: "Tom".to_string(),
    };
    let user = service.create_user(request.clone().into()).unwrap();
    let credentials: UsernameAndPassword = request.clone().into();
    let stored = auth_service.new_credentials(&user, &credentials, &new_salt()).unwrap();
    assert_eq!(stored.username, "tom333");
    assert_eq!(stored.user_id, 1);
    let shown: GetUser = user.into();
    assert_eq!(shown, GetUser { id: 1, name: "Tom".to_string() });
    let again: GetUser = service.get_user(1).unwrap().into();
    assert_eq!(again, GetUser { id: 1, name: "Tom".to_string() });
}

#[test]
fn test_error_missing_credentials() {
    let refused = match credentials_shown(None, None) {
        Err(e) => e,
        Ok(_) => panic!("credentials out of nothing"),
    };
    assert_eq!(refused, auth::Error::InvalidAuth);
    let failed: AppError = refused.into();
    let (status, body) = report(failed);
    assert_eq!(status, 401);
    assert_eq!(body, ErrorResponse { error: "Invalid credentials".to_string() });
}

#[test]
fn test_successful_authentication() {
    let auth_service = DefaultAuthUserService::new("secret".to_string());
    let registered = UsernameAndPassword {
        username: "matt42".to_string(),
        password: "secret".to_string(),
    };
    let stored = auth_service.new_credentials(&matt(), &registered, &new_salt()).unwrap();
    let shown = UsernameAndPassword {
        username: "matt42".to_string(),
        password: "secret".to_string(),
    };
    let auth_user = auth_service.validate_password(&shown, Ok((stored, Ok(matt())))).unwrap();
    assert_eq!(
        GetAuthUser::greeting(&auth_user),
        GetAuthUser { message: "Successful authentication for Matt".to_string() }
    );
}

#[test]
fn test_token_authentication_flow() {
    let auth_service = DefaultAuthUserService::new("secret".to_string());
    let auth_user = AuthUser { username: "matt42".to_string(), user: matt() };
    let claims = auth_service.claims_for(&auth_user, 1_700_000_000).unwrap();
    assert_eq!(claims.aud, "https://api.stockpot.com");
    assert_eq!(claims.sub, "matt42");
    assert_eq!(claims.exp, 1_700_604_800);
    let registered = UsernameAndPassword {
        username: "matt42".to_string(),
        password: "secret".to_string(),
    };
    let stored = auth_service.new_credentials(&matt(), &registered, &new_salt()).unwrap();
    let let_in = auth_service.validate_token(Ok((stored, Ok(matt())))).unwrap();
    assert_eq!(let_in, auth_user);
    assert_eq!(
        GetAuthUser::greeting(&let_in),
        GetAuthUser { message: "Successful authentication for Matt".to_string() }
    );
}

#[test]
fn test_create_recipe() {
    let mut service = DefaultRecipeService::new(book_with_matt());
    let request = buttered_carrots(vec![carrots_line(), butter_line()], vec![saute_step()]);
    let actual_recipe =
        GetRecipe::from(service.create_recipe(Recipe::from_create(request, matt()), &matt()).unwrap());
    let expected_recipe = shown_carrots(
        vec![shown_line(1, "carrots", 200, "diced"), shown_line(2, "butter", 200, "melted")],
        vec![shown_step(1, 1, "Saute the carrots in the butter")],
    );
    assert_eq!(actual_recipe, expected_recipe);
    let read = GetRecipe::from(service.get_recipe_by_id(1).unwrap());
    assert_eq!(read, expected_recipe);
}

#[test]
fn test_update_recipe_add_new_ingredient() {
    let mut service = DefaultRecipeService::new(book_with_matt());
    let request = buttered_carrots(vec![carrots_line()], vec![saute_step()]);
    service.create_recipe(Recipe::from_create(request, matt()), &matt()).unwrap();

    let request = updated_carrots(
        vec![update_line(Some(1), "carrots", 200, "diced"), update_line(None, "butter", 400, "melted")],
        vec![update_step(Some(1), 1, "Saute the carrots in the butter")],
    );
    let json =
        GetRecipe::from(service.update_recipe(Recipe::from_update(request, matt()), &matt()).unwrap());
    let updated_recipe = shown_carrots(
        vec![shown_line(1, "carrots", 200, "diced"), shown_line(2, "butter", 400, "melted")],
        vec![shown_step(1, 1, "Saute the carrots in the butter")],
    );
    assert_eq!(json, updated_recipe);
    let json = GetRecipe::from(service.get_recipe_by_id(1).unwrap());
    assert_eq!(json, updated_recipe);
}

#[test]
fn test_update_recipe_add_new_step() {
    let mut service = DefaultRecipeService::new(book_with_matt());
    let request = buttered_carrots(vec![carrots_line()], vec![saute_step()]);
    service.create_recipe(Recipe::from_create(request, matt()), &matt()).unwrap();

    let request = updated_carrots(
        vec![update_line(Some(1), "carrots", 200, "diced")],
        vec![
            update_step(Some(1), 1, "Saute the carrots in the butter"),
            update_step(None, 2, "Eat the carrots"),
        ],
    );
    let json =
        GetRecipe::from(service.update_recipe(Recipe::from_update(request, matt()), &matt()).unwrap());
    let updated_recipe = shown_carrots(
        vec![shown_line(1, "carrots", 200, "diced")],
        vec![
            shown_step(1, 1, "Saute the carrots in the butter"),
            shown_step(2, 2, "Eat the carrots"),
        ],
    );
    assert_eq!(json, updated_recipe);
    let json = GetRecipe::from(service.get_recipe_by_id(1).unwrap());
    assert_eq!(json, updated_recipe);
}

#[test]
fn test_update_recipe_change_existing_fields() {
    let mut service = DefaultRecipeService::new(book_with_matt());
    let request = buttered_carrots(vec![carrots_line()], vec![saute_step()]);
    service.create_recipe(Recipe::from_create(request, matt()), &matt()).unwrap();

    let request = UpdateRecipe {
        id: 1,
        title: "Boiled Potatoes".to_string(),
        description: Some("Bolied potatoes, that's it.".to_string()),
        prep_time: seconds(200),
        cook_time: seconds(200),
        inactive_time: seconds(200),
        yield_quantity: 100,
        yield_units: Units::Grams,
        ingredients: vec![update_line(Some(1), "potatoes", 100, "sliced")],
        steps: vec![update_step(Some(1), 1, "Boil the potatoes")],
    };
    let json =
        GetRecipe::from(service.update_recipe(Recipe::from_update(request, matt()), &matt()).unwrap());
    let updated_recipe = GetRecipe {
        id: 1,
        title: "Boiled Potatoes".to_string(),
        description: Some("Bolied potatoes, that's it.".to_string()),
        author: GetUser { id: 1, name: "Matt".to_string() },
        prep_time: seconds(200),
        cook_time: seconds(200),
        inactive_time: seconds(200),
        yield_quantity: 100,
        yield_units: "grams".to_string(),
        ingredients: vec![shown_line(1, "potatoes", 100, "sliced")],
        steps: vec![shown_step(1, 1, "Boil the potatoes")],
    };
    assert_eq!(json, updated_recipe);
    let json = GetRecipe::from(service.get_recipe_by_id(1).unwrap());
    assert_eq!(json, updated_recipe);
}

#[test]
fn test_update_recipe_remove_ingredient_step() {
    let mut service = DefaultRecipeService::new(book_with_matt());
    let request =
        buttered_carrots(vec![carrots_line(), butter_line()], vec![saute_step(), eat_step()]);
    service.create_recipe(Recipe::from_create(request, matt()), &matt()).unwrap();

    let request = updated_carrots(
        vec![update_line(Some(1), "carrots", 200, "diced")],
        vec![update_step(Some(1), 1, "Saute the carrots in the butter")],
    );
    let json =
        GetRecipe::from(service.update_recipe(Recipe::from_update(request, matt()), &matt()).unwrap());
    let updated_recipe = shown_carrots(
        vec![shown_line(1, "carrots", 200, "diced")],
        vec![shown_step(1, 1, "Saute the carrots in the butter")],
    );
    assert_eq!(json, updated_recipe);
    let json = GetRecipe::from(service.get_recipe_by_id(1).unwrap());
    assert_eq!(json, updated_recipe);
}

#[test]
fn test_delete_recipe() {
    let mut service = DefaultRecipeService::new(book_with_matt());
    let request = buttered_carrots(vec![carrots_line()], vec![saute_step()]);
    let created =
        GetRecipe::from(service.create_recipe(Recipe::from_create(request, matt()), &matt()).unwrap());
    let expected_recipe = shown_carrots(
        vec![shown_line(1, "carrots", 200, "diced")],
        vec![shown_step(1, 1, "Saute the carrots in the butter")],
    );
    assert_eq!(created, expected_recipe);

    let deleted = GetRecipe::from(service.delete_recipe_by_id(1, &matt()).unwrap());
    assert_eq!(deleted, expected_recipe);

    let failed: AppError = service.get_recipe_by_id(1).unwrap_err().into();
    let (status, body) = report(failed);
    assert_eq!(status, 404);
    assert_eq!(body, ErrorResponse { error: "recipe with id `1` not found".to_string() });
    assert_eq!(service.get_recipe_by_id(1), Err(recipe::Error::RecipeNotFound(1)));
}

#[test]
fn test_into_response_for_app_error() {
    let app_err: AppError = user::Error::UserNotFound(4).into();
    let (status, body) = app_err.into_response();
    assert_eq!(status, 404);
    assert_eq!(body, ErrorResponse { error: "user with id `4` not found".to_string() });
}

#[test]
fn test_get_user_successfully() {
    let id = 3;
    let user = User { id: Some(id), name: "test".to_string() };
    let mut book = RecipeBook::new();
    book.create_user(User { id: None, name: "first".to_string() }).unwrap();
    book.create_user(User { id: None, name: "second".to_string() }).unwrap();
    book.create_user(User { id: None, name: "test".to_string() }).unwrap();
    let user_service = DefaultUserService::new(book);
    assert_eq!(user_service.get_user(id).unwrap(), user);
}

#[test]
fn test_get_user_not_found() {
    let id = 3;
    let user_service = DefaultUserService::new(RecipeBook::new());
    assert_eq!(user_service.get_user(id).unwrap_err(), user::Error::UserNotFound(id));
}

#[test]
fn test_create_user_successfully() {
    let id = Some(3);
    let mut book = RecipeBook::new();
    book.create_user(User { id: None, name: "first".to_string() }).unwrap();
    book.create_user(User { id: None, name: "second".to_string() }).unwrap();
    let mut user_service = DefaultUserService::new(book);
    assert_eq!(
        user_service.create_user(User { id: None, name: "foo".to_owned() }).unwrap(),
        User { id, name: "foo".to_owned() }
    );
}
