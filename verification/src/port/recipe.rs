//! The store of recipes and the service on top of it.

use vstd::prelude::*;

use crate::domain::recipe::{recipes_view, Error, Recipe, RecipeView};
use crate::domain::user::{User, UserView};
use crate::store::state::{
    after_create, after_delete, after_update, book_wf, create_refusal, created_recipe,
    has_recipe, place_of, read, update_refusal, updated_recipe, BookView,
};

verus! {

/// The given recipe with `author` as its author.
pub open spec fn written_by(given: RecipeView, author: UserView) -> RecipeView {
    RecipeView { author, ..given }
}

/// Why the service refuses an update by `acting`, if it does: the recipe is
/// not there, it is another user's, or the store refuses it.
pub open spec fn update_denial(book: BookView, given: RecipeView, acting: UserView) -> Option<
    Error,
> {
    if given.id is None {
        Some(Error::Unexpected)
    } else if !has_recipe(book, given.id->0) {
        Some(Error::RecipeNotFound(given.id->0))
    } else if book.recipes[place_of(book, given.id->0)].author != acting {
        Some(Error::Unauthorized)
    } else {
        update_refusal(book, written_by(given, acting))
    }
}

/// Why the service refuses to let `acting` delete the recipe `id`, if it
/// does: the recipe is not there, or it is another user's.
pub open spec fn delete_denial(book: BookView, id: i32, acting: UserView) -> Option<Error> {
    if !has_recipe(book, id) {
        Some(Error::RecipeNotFound(id))
    } else if book.recipes[place_of(book, id)].author != acting {
        Some(Error::Unauthorized)
    } else {
        None
    }
}

/// A store of recipes. It stands for a recipe book, and each operation does
/// to that book what [`crate::store::state`] says, in one step: a failure
/// leaves the book as it was. A store may fail on its own account, as
/// `Unexpected`, unless it is reliable.
pub trait RecipeRepository {
    /// The recipe book that the store stands for.
    spec fn book(&self) -> BookView;

    /// The store never fails on its own account: an operation fails only
    /// where the book refuses it.
    spec fn reliable(&self) -> bool;

    /// Every recipe, in the order of their ids.
    fn get_recipes(&self) -> (listed: Result<Vec<Recipe>, Error>)
        requires
            book_wf(self.book()),
        ensures
            match listed {
                Ok(list) => recipes_view(list@) == self.book().recipes,
                Err(e) => e == Error::Unexpected && !self.reliable(),
            },
    ;

    /// The recipe stored under `id`, or `RecipeNotFound(id)`.
    fn get_recipe_by_id(&self, id: i32) -> (found: Result<Recipe, Error>)
        requires
            book_wf(self.book()),
        ensures
            match found {
                Ok(r) => read(self.book(), id) == Ok::<_, Error>(r@),
                Err(e) => read(self.book(), id) == Err::<RecipeView, _>(e) || (e
                    == Error::Unexpected && !self.reliable()),
            },
    ;

    /// Stores a new recipe with its children and hands it back as stored.
    fn create_recipe(&mut self, recipe: Recipe) -> (created: Result<Recipe, Error>)
        requires
            book_wf(old(self).book()),
        ensures
            book_wf(final(self).book()),
            final(self).reliable() == old(self).reliable(),
            match created {
                Ok(r) => {
                    &&& create_refusal(old(self).book(), recipe@) is None
                    &&& r@ == created_recipe(old(self).book(), recipe@)
                    &&& final(self).book() == after_create(old(self).book(), recipe@)
                },
                Err(e) => {
                    &&& create_refusal(old(self).book(), recipe@) == Some(e) || (e
                        == Error::Unexpected && !old(self).reliable())
                    &&& final(self).book() == old(self).book()
                },
            },
    ;

    /// Brings a stored recipe to what `recipe` says and hands it back as
    /// stored.
    fn update_recipe(&mut self, recipe: Recipe) -> (updated: Result<Recipe, Error>)
        requires
            book_wf(old(self).book()),
        ensures
            book_wf(final(self).book()),
            final(self).reliable() == old(self).reliable(),
            match updated {
                Ok(r) => {
                    &&& update_refusal(old(self).book(), recipe@) is None
                    &&& r@ == updated_recipe(old(self).book(), recipe@)
                    &&& final(self).book() == after_update(old(self).book(), recipe@)
                },
                Err(e) => {
                    &&& update_refusal(old(self).book(), recipe@) == Some(e) || (e
                        == Error::Unexpected && !old(self).reliable())
                    &&& final(self).book() == old(self).book()
                },
            },
    ;

    /// Deletes the recipe stored under `id` and hands it back as it was.
    fn delete_recipe_by_id(&mut self, id: i32) -> (deleted: Result<Recipe, Error>)
        requires
            book_wf(old(self).book()),
        ensures
            book_wf(final(self).book()),
            final(self).reliable() == old(self).reliable(),
            match deleted {
                Ok(r) => {
                    &&& read(old(self).book(), id) == Ok::<_, Error>(r@)
                    &&& final(self).book() == after_delete(old(self).book(), id)
                },
                Err(e) => {
                    &&& read(old(self).book(), id) == Err::<RecipeView, _>(e) || (e
                        == Error::Unexpected && !old(self).reliable())
                    &&& final(self).book() == old(self).book()
                },
            },
    ;
}

/// What callers are offered: reading recipes, and changing them in the name
/// of a user. Only its author may update or delete a recipe. A failure of the
/// store is handed on as it is, and leaves the book as it was.
pub trait RecipeService {
    /// The recipe book that the service works on.
    spec fn book(&self) -> BookView;

    /// The store of the service never fails on its own account.
    spec fn reliable(&self) -> bool;

    /// Every recipe, in the order of their ids.
    fn get_recipes(&self) -> (listed: Result<Vec<Recipe>, Error>)
        requires
            book_wf(self.book()),
        ensures
            match listed {
                Ok(list) => recipes_view(list@) == self.book().recipes,
                Err(e) => e == Error::Unexpected && !self.reliable(),
            },
    ;

    /// The recipe stored under `id`, or `RecipeNotFound(id)`.
    fn get_recipe_by_id(&self, id: i32) -> (found: Result<Recipe, Error>)
        requires
            book_wf(self.book()),
        ensures
            match found {
                Ok(r) => read(self.book(), id) == Ok::<_, Error>(r@),
                Err(e) => read(self.book(), id) == Err::<RecipeView, _>(e) || (e
                    == Error::Unexpected && !self.reliable()),
            },
    ;

    /// Stores a new recipe with `acting_user` as its author.
    fn create_recipe(&mut self, recipe: Recipe, acting_user: &User) -> (created: Result<
        Recipe,
        Error,
    >)
        requires
            book_wf(old(self).book()),
        ensures
            book_wf(final(self).book()),
            final(self).reliable() == old(self).reliable(),
            match created {
                Ok(r) => {
                    &&& create_refusal(old(self).book(), written_by(recipe@, acting_user@))
                        is None
                    &&& r@ == created_recipe(old(self).book(), written_by(recipe@, acting_user@))
                    &&& final(self).book() == after_create(
                        old(self).book(),
                        written_by(recipe@, acting_user@),
                    )
                },
                Err(e) => {
                    &&& create_refusal(old(self).book(), written_by(recipe@, acting_user@))
                        == Some(e) || (e == Error::Unexpected && !old(self).reliable())
                    &&& final(self).book() == old(self).book()
                },
            },
            old(self).reliable() && create_refusal(
                old(self).book(),
                written_by(recipe@, acting_user@),
            ) is None ==> created is Ok,
    ;

    /// Updates a recipe in the name of `acting_user`, who must be its author.
    /// Nothing is changed for anyone else: the call fails as `Unauthorized`.
    fn update_recipe(&mut self, recipe: Recipe, acting_user: &User) -> (updated: Result<
        Recipe,
        Error,
    >)
        requires
            book_wf(old(self).book()),
        ensures
            book_wf(final(self).book()),
            final(self).reliable() == old(self).reliable(),
            match updated {
                Ok(r) => {
                    &&& update_denial(old(self).book(), recipe@, acting_user@) is None
                    &&& r@ == updated_recipe(old(self).book(), written_by(recipe@, acting_user@))
                    &&& final(self).book() == after_update(
                        old(self).book(),
                        written_by(recipe@, acting_user@),
                    )
                },
                Err(e) => {
                    &&& update_denial(old(self).book(), recipe@, acting_user@) == Some(e) || (e
                        == Error::Unexpected && !old(self).reliable())
                    &&& final(self).book() == old(self).book()
                },
            },
            old(self).reliable() && update_denial(old(self).book(), recipe@, acting_user@) == Some(
                Error::Unauthorized,
            ) ==> updated == Err::<Recipe, _>(Error::Unauthorized) && final(self).book() == old(
                self,
            ).book(),
            old(self).reliable() && update_denial(old(self).book(), recipe@, acting_user@)
                is None ==> updated is Ok,
    ;

    /// Deletes a recipe in the name of `acting_user`, who must be its author,
    /// and hands back the recipe as it was. Nothing is changed for anyone
    /// else: the call fails as `Unauthorized`.
    fn delete_recipe_by_id(&mut self, id: i32, acting_user: &User) -> (deleted: Result<
        Recipe,
        Error,
    >)
        requires
            book_wf(old(self).book()),
        ensures
            book_wf(final(self).book()),
            final(self).reliable() == old(self).reliable(),
            match deleted {
                Ok(r) => {
                    &&& delete_denial(old(self).book(), id, acting_user@) is None
                    &&& r@ == old(self).book().recipes[place_of(old(self).book(), id)]
                    &&& final(self).book() == after_delete(old(self).book(), id)
                },
                Err(e) => {
                    &&& delete_denial(old(self).book(), id, acting_user@) == Some(e) || (e
                        == Error::Unexpected && !old(self).reliable())
                    &&& final(self).book() == old(self).book()
                },
            },
            old(self).reliable() && delete_denial(old(self).book(), id, acting_user@) == Some(
                Error::Unauthorized,
            ) ==> deleted == Err::<Recipe, _>(Error::Unauthorized) && final(self).book() == old(
                self,
            ).book(),
            old(self).reliable() && delete_denial(old(self).book(), id, acting_user@)
                is None ==> deleted is Ok,
    ;
}

/// Only the author changes a recipe: whoever else asks for an update or for
/// a deletion is refused as `Unauthorized`. A refusal leaves the book as it
/// was, as every failure does.
pub proof fn lemma_only_the_author_changes(
    book: BookView,
    given: RecipeView,
    id: i32,
    acting: UserView,
)
    requires
        has_recipe(book, id),
        book.recipes[place_of(book, id)].author != acting,
    ensures
        delete_denial(book, id, acting) == Some(Error::Unauthorized),
        given.id == Some(id) ==> update_denial(book, given, acting) == Some(Error::Unauthorized),
{
}

/// An update that the service lets through changes neither the id nor the
/// author of the recipe: the author stays who created it.
pub proof fn lemma_update_keeps_id_and_author(book: BookView, given: RecipeView, acting: UserView)
    requires
        update_denial(book, given, acting) is None,
    ensures
        given.id is Some,
        has_recipe(book, given.id->0),
        updated_recipe(book, written_by(given, acting)).id == book.recipes[place_of(
            book,
            given.id->0,
        )].id,
        updated_recipe(book, written_by(given, acting)).author == book.recipes[place_of(
            book,
            given.id->0,
        )].author,
{
}

} // verus!
