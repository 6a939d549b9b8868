use stockpot::domain::recipe::{Error, Ingredient, Recipe, RecipeIngredient, Step, Unit};
use stockpot::domain::user;
use stockpot::domain::user::User;
use stockpot::port::recipe::{RecipeRepository, RecipeService};
use stockpot::port::user::UserRepository;
use stockpot::service::recipe::DefaultRecipeService;
use stockpot::store::book::RecipeBook;
use stockpot::store::reference::ReferenceKind;
use stockpot::store::statements::{
    all_distinct, create_statements, row_of_recipe, update_statements, RecipeRow, Statement,
};

fn line(id: Option<i32>, ingredient: &str, quantity: i32, units: &str, preparation: &str) -> RecipeIngredient {
    RecipeIngredient {
        id,
        recipe_id: None,
        ingredient: Ingredient { id: None, name: ingredient.to_string() },
        quantity,
        units: Unit { id: None, name: units.to_string() },
        preparation: preparation.to_string(),
    }
}

fn step(id: Option<i32>, ordinal: i32, instruction: &str) -> Step {
    Step { id, recipe_id: None, ordinal, instruction: instruction.to_string() }
}

fn stored_step(id: i32, recipe_id: i32, ordinal: i32, instruction: &str) -> Step {
    Step { id: Some(id), recipe_id: Some(recipe_id), ordinal, instruction: instruction.to_string() }
}

fn carrots(id: Option<i32>, author: &User, lines: Vec<RecipeIngredient>, steps: Vec<Step>) -> Recipe {
    Recipe {
        id,
        title: "Buttered Carrots".to_string(),
        description: Some("Buttery carrots in a butter sauce".to_string()),
        author: author.clone(),
        prep_time: Some(chrono::Duration::seconds(360)),
        cook_time: Some(chrono::Duration::seconds(400)),
        inactive_time: Some(chrono::Duration::seconds(8600)),
        yield_quantity: 200,
        yield_units: Unit { id: None, name: "grams".to_string() },
        ingredients: lines,
        steps,
    }
}

fn book_with_matt() -> (RecipeBook, User) {
    let mut book = RecipeBook::new();
    let matt = book.create_user(User { id: None, name: "Matt".to_string() }).unwrap();
    (book, matt)
}

fn ids_of_steps(recipe: &Recipe) -> Vec<Option<i32>> {
    recipe.steps.iter().map(|s| s.id).collect()
}

fn ids_of_lines(recipe: &Recipe) -> Vec<Option<i32>> {
    recipe.ingredients.iter().map(|l| l.id).collect()
}

#[test]
fn create_assigns_ids_from_one() {
    let (book, matt) = book_with_matt();
    let mut service = DefaultRecipeService::new(book);
    let created = service
        .create_recipe(
            carrots(
                None,
                &User { id: None, name: "nobody".to_string() },
                vec![line(None, "carrots", 200, "grams", "diced"), line(None, "butter", 200, "grams", "melted")],
                vec![step(None, 1, "Saute the carrots in the butter")],
            ),
            &matt,
        )
        .unwrap();
    assert_eq!(created.id, Some(1));
    assert_eq!(created.author, User { id: Some(1), name: "Matt".to_string() });
    assert_eq!(created.yield_units, Unit { id: Some(1), name: "grams".to_string() });
    assert_eq!(created.ingredients.len(), 2);
    assert_eq!(created.ingredients[0].id, Some(1));
    assert_eq!(created.ingredients[0].recipe_id, Some(1));
    assert_eq!(created.ingredients[0].ingredient, Ingredient { id: Some(1), name: "carrots".to_string() });
    assert_eq!(created.ingredients[0].units, Unit { id: Some(1), name: "grams".to_string() });
    assert_eq!(created.ingredients[1].id, Some(2));
    assert_eq!(created.ingredients[1].ingredient, Ingredient { id: Some(2), name: "butter".to_string() });
    assert_eq!(created.steps, vec![stored_step(1, 1, 1, "Saute the carrots in the butter")]);
    assert_eq!(service.get_recipe_by_id(1).unwrap(), created);
    assert_eq!(service.get_recipes().unwrap(), vec![created]);
}

#[test]
fn missing_recipe_is_not_found() {
    let (mut book, matt) = book_with_matt();
    assert_eq!(book.get_recipe_by_id(7), Err(Error::RecipeNotFound(7)));
    assert_eq!(book.get_recipes(), Ok(vec![]));
    assert_eq!(book.delete_recipe_by_id(7), Err(Error::RecipeNotFound(7)));
    assert_eq!(
        book.update_recipe(carrots(Some(7), &matt, vec![], vec![])),
        Err(Error::RecipeNotFound(7))
    );
    let mut service = DefaultRecipeService::new(book);
    assert_eq!(service.delete_recipe_by_id(7, &matt), Err(Error::RecipeNotFound(7)));
    assert_eq!(
        service.update_recipe(carrots(Some(7), &matt, vec![], vec![]), &matt),
        Err(Error::RecipeNotFound(7))
    );
}

#[test]
fn create_ignores_the_ids_it_is_given() {
    let (mut book, matt) = book_with_matt();
    let created = book
        .create_recipe(carrots(
            Some(40),
            &matt,
            vec![line(Some(9), "carrots", 1, "grams", "")],
            vec![step(Some(12), 1, "Cook"), step(Some(12), 2, "Eat")],
        ))
        .unwrap();
    assert_eq!(created.id, Some(1));
    assert_eq!(ids_of_lines(&created), vec![Some(1)]);
    assert_eq!(ids_of_steps(&created), vec![Some(1), Some(2)]);
}

#[test]
fn reference_data_is_shared_between_recipes() {
    let (mut book, matt) = book_with_matt();
    let first = book
        .create_recipe(carrots(None, &matt, vec![line(None, "butter", 1, "grams", "")], vec![]))
        .unwrap();
    let second = book
        .create_recipe(carrots(
            None,
            &matt,
            vec![line(None, "salt", 1, "pinches", ""), line(None, "butter", 2, "grams", "")],
            vec![],
        ))
        .unwrap();
    assert_eq!(second.id, Some(2));
    assert_eq!(second.ingredients[0].ingredient, Ingredient { id: Some(2), name: "salt".to_string() });
    assert_eq!(second.ingredients[0].units, Unit { id: Some(2), name: "pinches".to_string() });
    assert_eq!(second.ingredients[1].ingredient, first.ingredients[0].ingredient);
    assert_eq!(second.ingredients[1].units, Unit { id: Some(1), name: "grams".to_string() });
    assert_eq!(ids_of_lines(&second), vec![Some(2), Some(3)]);
    assert_eq!(book.get_recipes().unwrap(), vec![first, second]);
}

#[test]
fn an_empty_name_is_an_invalid_argument() {
    let (mut book, matt) = book_with_matt();
    assert_eq!(
        book.create_recipe(carrots(None, &matt, vec![line(None, "", 1, "grams", "")], vec![])),
        Err(Error::InvalidArgument)
    );
    assert_eq!(
        book.create_recipe(carrots(None, &matt, vec![line(None, "salt", 1, "", "")], vec![])),
        Err(Error::InvalidArgument)
    );
    let mut unnamed_yield = carrots(None, &matt, vec![], vec![]);
    unnamed_yield.yield_units.name = String::new();
    assert_eq!(book.create_recipe(unnamed_yield), Err(Error::InvalidArgument));
    assert_eq!(book.get_recipes(), Ok(vec![]));

    book.create_recipe(carrots(None, &matt, vec![], vec![])).unwrap();
    assert_eq!(
        book.update_recipe(carrots(Some(1), &matt, vec![line(None, "", 1, "grams", "")], vec![])),
        Err(Error::InvalidArgument)
    );
}

#[test]
fn an_unknown_author_is_unexpected() {
    let (mut book, matt) = book_with_matt();
    let stranger = User { id: Some(5), name: "Tom".to_string() };
    let renamed = User { id: Some(1), name: "Matthew".to_string() };
    let unsaved = User { id: None, name: "Matt".to_string() };
    assert_eq!(book.create_recipe(carrots(None, &stranger, vec![], vec![])), Err(Error::Unexpected));
    assert_eq!(book.create_recipe(carrots(None, &renamed, vec![], vec![])), Err(Error::Unexpected));
    assert_eq!(book.create_recipe(carrots(None, &unsaved, vec![], vec![])), Err(Error::Unexpected));
    book.create_recipe(carrots(None, &matt, vec![], vec![])).unwrap();
    assert_eq!(
        book.update_recipe(carrots(Some(1), &stranger, vec![], vec![])),
        Err(Error::Unexpected)
    );
    assert_eq!(book.update_recipe(carrots(None, &matt, vec![], vec![])), Err(Error::Unexpected));
}

#[test]
fn update_keeps_overwrites_adds_and_drops() {
    let (mut book, matt) = book_with_matt();
    book.create_recipe(carrots(
        None,
        &matt,
        vec![line(None, "carrots", 200, "grams", "diced"), line(None, "butter", 200, "grams", "melted")],
        vec![step(None, 1, "Wash"), step(None, 2, "Cook"), step(None, 3, "Eat")],
    ))
    .unwrap();
    let updated = book
        .update_recipe(carrots(
            Some(1),
            &matt,
            vec![line(None, "salt", 1, "pinches", ""), line(Some(2), "butter", 250, "grams", "browned")],
            vec![step(None, 9, "Serve"), step(Some(3), 4, "Enjoy"), step(Some(1), 1, "Rinse"), step(Some(77), 5, "Rest")],
        ))
        .unwrap();
    assert_eq!(
        updated.steps,
        vec![
            stored_step(1, 1, 1, "Rinse"),
            stored_step(3, 1, 4, "Enjoy"),
            stored_step(4, 1, 9, "Serve"),
            stored_step(5, 1, 5, "Rest"),
        ]
    );
    assert_eq!(ids_of_lines(&updated), vec![Some(2), Some(3)]);
    assert_eq!(updated.ingredients[0].quantity, 250);
    assert_eq!(updated.ingredients[0].preparation, "browned");
    assert_eq!(updated.ingredients[0].ingredient, Ingredient { id: Some(2), name: "butter".to_string() });
    assert_eq!(updated.ingredients[1].ingredient, Ingredient { id: Some(3), name: "salt".to_string() });
    assert_eq!(updated.ingredients[1].units, Unit { id: Some(2), name: "pinches".to_string() });
    assert_eq!(book.get_recipe_by_id(1).unwrap(), updated);

    let again = book
        .update_recipe(carrots(Some(1), &matt, vec![], vec![step(None, 1, "Start over")]))
        .unwrap();
    assert_eq!(again.steps, vec![stored_step(6, 1, 1, "Start over")]);
    assert_eq!(again.ingredients, vec![]);
}

#[test]
fn a_child_of_another_recipe_is_added_as_new() {
    let (mut book, matt) = book_with_matt();
    book.create_recipe(carrots(None, &matt, vec![], vec![step(None, 1, "First")])).unwrap();
    let other = book.create_recipe(carrots(None, &matt, vec![], vec![step(None, 1, "Second")])).unwrap();
    assert_eq!(ids_of_steps(&other), vec![Some(2)]);
    let updated = book
        .update_recipe(carrots(Some(1), &matt, vec![], vec![step(Some(2), 1, "Borrowed")]))
        .unwrap();
    assert_eq!(updated.steps, vec![stored_step(3, 1, 1, "Borrowed")]);
    assert_eq!(book.get_recipe_by_id(2).unwrap(), other);
}

#[test]
fn naming_a_stored_child_twice_is_unexpected() {
    let (mut book, matt) = book_with_matt();
    let created = book
        .create_recipe(carrots(None, &matt, vec![line(None, "salt", 1, "grams", "")], vec![step(None, 1, "Cook")]))
        .unwrap();
    assert_eq!(
        book.update_recipe(carrots(
            Some(1),
            &matt,
            vec![line(Some(1), "salt", 1, "grams", "")],
            vec![step(Some(1), 1, "Cook"), step(Some(1), 2, "Cook again")],
        )),
        Err(Error::Unexpected)
    );
    assert_eq!(
        book.update_recipe(carrots(
            Some(1),
            &matt,
            vec![line(Some(1), "salt", 1, "grams", ""), line(Some(1), "pepper", 1, "grams", "")],
            vec![],
        )),
        Err(Error::Unexpected)
    );
    assert_eq!(book.get_recipe_by_id(1).unwrap(), created);
    let twice_unknown = book
        .update_recipe(carrots(Some(1), &matt, vec![], vec![step(Some(8), 1, "A"), step(Some(8), 2, "B")]))
        .unwrap();
    assert_eq!(ids_of_steps(&twice_unknown), vec![Some(2), Some(3)]);
}

#[test]
fn only_the_author_changes_a_recipe() {
    let (mut book, matt) = book_with_matt();
    let tom = book.create_user(User { id: None, name: "Tom".to_string() }).unwrap();
    let mut service = DefaultRecipeService::new(book);
    let created = service
        .create_recipe(carrots(None, &matt, vec![line(None, "salt", 1, "grams", "")], vec![step(None, 1, "Cook")]), &matt)
        .unwrap();
    assert_eq!(
        service.update_recipe(carrots(Some(1), &tom, vec![], vec![]), &tom),
        Err(Error::Unauthorized)
    );
    assert_eq!(
        service.update_recipe(carrots(Some(1), &matt, vec![], vec![]), &tom),
        Err(Error::Unauthorized)
    );
    assert_eq!(service.delete_recipe_by_id(1, &tom), Err(Error::Unauthorized));
    assert_eq!(
        service.delete_recipe_by_id(1, &User { id: Some(1), name: "Tom".to_string() }),
        Err(Error::Unauthorized)
    );
    assert_eq!(service.get_recipe_by_id(1).unwrap(), created);
    assert_eq!(service.get_recipes().unwrap(), vec![created.clone()]);

    let kept_author = service
        .update_recipe(carrots(Some(1), &tom, vec![], vec![]), &matt)
        .unwrap();
    assert_eq!(kept_author.author, matt);
    assert_eq!(service.update_recipe(carrots(None, &matt, vec![], vec![]), &matt), Err(Error::Unexpected));
    let deleted = service.delete_recipe_by_id(1, &matt).unwrap();
    assert_eq!(deleted, kept_author);
    assert_eq!(service.get_recipes(), Ok(vec![]));
    let book = service.into_repository();
    assert_eq!(book.get_recipe_by_id(1), Err(Error::RecipeNotFound(1)));
}

#[test]
fn deleting_leaves_the_other_recipes() {
    let (mut book, matt) = book_with_matt();
    let first = book.create_recipe(carrots(None, &matt, vec![], vec![step(None, 1, "A")])).unwrap();
    let second = book.create_recipe(carrots(None, &matt, vec![], vec![step(None, 1, "B")])).unwrap();
    let third = book.create_recipe(carrots(None, &matt, vec![], vec![step(None, 1, "C")])).unwrap();
    assert_eq!(book.delete_recipe_by_id(2).unwrap(), second);
    assert_eq!(book.get_recipes().unwrap(), vec![first, third]);
    let fourth = book.create_recipe(carrots(None, &matt, vec![], vec![step(None, 1, "D")])).unwrap();
    assert_eq!(fourth.id, Some(4));
    assert_eq!(ids_of_steps(&fourth), vec![Some(4)]);
}

#[test]
fn users_are_numbered_from_one() {
    let mut book = RecipeBook::new();
    assert_eq!(book.get_user_by_id(1), Err(user::Error::UserNotFound(1)));
    assert_eq!(book.get_user_by_id(0), Err(user::Error::UserNotFound(0)));
    assert_eq!(book.get_user_by_id(-3), Err(user::Error::UserNotFound(-3)));
    let matt = UserRepository::create_user(&mut book, User { id: Some(9), name: "Matt".to_string() }).unwrap();
    assert_eq!(matt, User { id: Some(1), name: "Matt".to_string() });
    assert_eq!(UserRepository::get_user_by_id(&book, 1), Ok(matt.clone()));
    assert!(book.knows_user(&matt));
    assert!(!book.knows_user(&User { id: Some(1), name: "Tom".to_string() }));
    assert!(!book.knows_user(&User { id: Some(2), name: "Matt".to_string() }));
    assert!(!book.knows_user(&User { id: None, name: "Matt".to_string() }));
    assert_eq!(RecipeRepository::get_recipes(&book), Ok(vec![]));
}

#[test]
fn a_name_is_resolved_to_one_row() {
    let (mut book, matt) = book_with_matt();
    let butter = vec!["butter".to_string()];
    for _ in 0..4 {
        assert_eq!(book.resolve_names(ReferenceKind::Ingredient, &butter), Ok(vec![1]));
    }
    assert_eq!(
        book.resolve_names(
            ReferenceKind::Ingredient,
            &vec!["salt".to_string(), "butter".to_string(), "salt".to_string()]
        ),
        Ok(vec![2, 1, 2])
    );
    assert_eq!(book.resolve_names(ReferenceKind::Unit, &butter), Ok(vec![1]));
    assert_eq!(
        book.resolve_names(ReferenceKind::Unit, &vec!["grams".to_string(), String::new()]),
        Err(Error::InvalidArgument)
    );
    assert_eq!(book.resolve_names(ReferenceKind::Unit, &vec!["grams".to_string()]), Ok(vec![2]));
    let created = book
        .create_recipe(carrots(None, &matt, vec![line(None, "salt", 1, "grams", "")], vec![]))
        .unwrap();
    assert_eq!(created.ingredients[0].ingredient, Ingredient { id: Some(2), name: "salt".to_string() });
    assert_eq!(created.ingredients[0].units, Unit { id: Some(2), name: "grams".to_string() });
    assert_eq!(created.yield_units, Unit { id: Some(2), name: "grams".to_string() });
}

fn row(author: &User) -> RecipeRow {
    RecipeRow {
        title: "Buttered Carrots".to_string(),
        description: Some("Buttery carrots in a butter sauce".to_string()),
        author: author.clone(),
        prep_time: Some(chrono::Duration::seconds(360)),
        cook_time: Some(chrono::Duration::seconds(400)),
        inactive_time: Some(chrono::Duration::seconds(8600)),
        yield_quantity: 200,
        yield_units: "grams".to_string(),
    }
}

#[test]
fn a_creation_is_written_statement_by_statement() {
    let matt = User { id: Some(1), name: "Matt".to_string() };
    let recipe = carrots(
        Some(3),
        &matt,
        vec![line(Some(1), "carrots", 200, "grams", "diced"), line(None, "butter", 100, "knobs", "")],
        vec![step(None, 1, "Saute"), step(Some(4), 2, "Eat")],
    );
    assert_eq!(row_of_recipe(&recipe), row(&matt));
    assert_eq!(
        create_statements(&recipe),
        Ok(vec![
            Statement::ResolveNames {
                kind: ReferenceKind::Ingredient,
                names: vec!["carrots".to_string(), "butter".to_string()],
            },
            Statement::ResolveNames {
                kind: ReferenceKind::Unit,
                names: vec!["grams".to_string(), "grams".to_string(), "knobs".to_string()],
            },
            Statement::InsertRecipe { row: row(&matt) },
            Statement::InsertStep { ordinal: 1, instruction: "Saute".to_string() },
            Statement::InsertStep { ordinal: 2, instruction: "Eat".to_string() },
            Statement::InsertLine {
                ingredient: "carrots".to_string(),
                quantity: 200,
                units: "grams".to_string(),
                preparation: "diced".to_string(),
            },
            Statement::InsertLine {
                ingredient: "butter".to_string(),
                quantity: 100,
                units: "knobs".to_string(),
                preparation: String::new(),
            },
        ])
    );
    assert_eq!(
        create_statements(&carrots(None, &matt, vec![line(None, "", 1, "grams", "")], vec![])),
        Err(Error::InvalidArgument)
    );
}

#[test]
fn an_update_is_written_statement_by_statement() {
    let matt = User { id: Some(1), name: "Matt".to_string() };
    let recipe = carrots(
        Some(3),
        &matt,
        vec![line(Some(8), "butter", 100, "knobs", "soft")],
        vec![step(None, 3, "Serve"), step(Some(6), 2, "Eat"), step(Some(4), 1, "Saute")],
    );
    assert_eq!(
        update_statements(&recipe, &vec![4, 5, 6], &vec![7, 8]),
        Ok(vec![
            Statement::ResolveNames { kind: ReferenceKind::Ingredient, names: vec!["butter".to_string()] },
            Statement::ResolveNames {
                kind: ReferenceKind::Unit,
                names: vec!["grams".to_string(), "knobs".to_string()],
            },
            Statement::UpdateRecipe { id: 3, row: row(&matt) },
            Statement::UpdateStep { id: 4, ordinal: 1, instruction: "Saute".to_string() },
            Statement::UpdateStep { id: 6, ordinal: 2, instruction: "Eat".to_string() },
            Statement::InsertStep { ordinal: 3, instruction: "Serve".to_string() },
            Statement::DeleteStep { id: 5 },
            Statement::UpdateLine {
                id: 8,
                ingredient: "butter".to_string(),
                quantity: 100,
                units: "knobs".to_string(),
                preparation: "soft".to_string(),
            },
            Statement::DeleteLine { id: 7 },
        ])
    );
    assert_eq!(update_statements(&carrots(None, &matt, vec![], vec![]), &vec![], &vec![]), Err(Error::Unexpected));
    assert_eq!(
        update_statements(&carrots(Some(3), &matt, vec![line(None, "salt", 1, "", "")], vec![]), &vec![], &vec![]),
        Err(Error::InvalidArgument)
    );
    assert_eq!(update_statements(&recipe, &vec![4, 4], &vec![]), Err(Error::Unexpected));
    assert_eq!(update_statements(&recipe, &vec![], &vec![8, 8]), Err(Error::Unexpected));
    let twice = carrots(Some(3), &matt, vec![], vec![step(Some(4), 1, "A"), step(Some(4), 2, "B")]);
    assert_eq!(update_statements(&twice, &vec![4], &vec![]), Err(Error::Unexpected));
    assert_eq!(
        update_statements(&twice, &vec![], &vec![]),
        Ok(vec![
            Statement::ResolveNames { kind: ReferenceKind::Ingredient, names: vec![] },
            Statement::ResolveNames { kind: ReferenceKind::Unit, names: vec!["grams".to_string()] },
            Statement::UpdateRecipe { id: 3, row: row(&matt) },
            Statement::InsertStep { ordinal: 1, instruction: "A".to_string() },
            Statement::InsertStep { ordinal: 2, instruction: "B".to_string() },
        ])
    );
    assert!(all_distinct(&vec![3, 1, 2]));
    assert!(all_distinct(&vec![]));
    assert!(!all_distinct(&vec![3, 1, 3]));
}
