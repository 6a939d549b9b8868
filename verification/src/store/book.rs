//! The recipe book held in memory.
//!
//! Every operation is one atomic step: it either succeeds and leaves the book
//! in the state that [`crate::store::state`] describes, or it fails and
//! leaves the book as it was.

use vstd::prelude::*;

use crate::domain::recipe::{
    lines_view, recipes_view, steps_view, Error, Recipe, RecipeIngredient, RecipeView, Step, Unit,
};
use crate::domain::user;
use crate::domain::user::{users_view, User, UserView};
use crate::port::recipe::RecipeRepository;
use crate::port::user::{added_user, find_user, UserRepository};
use crate::store::assemble::{
    fill_lines, fill_steps, ids_of_lines, ids_of_steps, names_of_ingredients, names_of_units,
    line_with, number_lines, number_steps, wanted_of_lines, wanted_of_steps,
};
use crate::store::children::{inserts, outcome, updates};
use crate::store::outcome::lemma_outcome_is_sound;
use crate::store::planner::{plan_children, slots_view};
use crate::store::reference::{all_named, id_of, intern_all, texts_view, ReferenceKind, MAX_ID};
use crate::store::resolver::{names_are_given, ReferenceTable};
use crate::store::soundness::{
    lemma_create_keeps_wf, lemma_resolve_keeps_wf, lemma_stored_ids, lemma_update_keeps_wf,
};
use crate::store::state::{
    after_create, after_delete, after_resolve, after_update, book_wf, create_refusal, created_recipe,
    empty_book, has_recipe, ingredient_names, place_of, read, recipe_fits, stored_step,
    table_of, unit_names, update_refusal, updated_recipe, user_known, BookView,
};

verus! {

/// A recipe book in memory.
#[derive(Debug)]
pub struct RecipeBook {
    users: Vec<User>,
    units: ReferenceTable,
    ingredients: ReferenceTable,
    recipes: Vec<Recipe>,
    next_recipe_id: i64,
    next_step_id: i64,
    next_line_id: i64,
}

impl View for RecipeBook {
    type V = BookView;

    closed spec fn view(&self) -> BookView {
        BookView {
            users: users_view(self.users@),
            units: self.units@,
            ingredients: self.ingredients@,
            recipes: recipes_view(self.recipes@),
            next_recipe_id: self.next_recipe_id as int,
            next_step_id: self.next_step_id as int,
            next_line_id: self.next_line_id as int,
        }
    }
}

impl RecipeBook {
    /// The book is well formed.
    pub open spec fn wf(&self) -> bool {
        book_wf(self@)
    }

    /// A book without users, reference data or recipes.
    pub fn new() -> (book: RecipeBook)
        ensures
            book.wf(),
            book@ == empty_book(),
    {
        let book = RecipeBook {
            users: Vec::new(),
            units: ReferenceTable::new(),
            ingredients: ReferenceTable::new(),
            recipes: Vec::new(),
            next_recipe_id: 1,
            next_step_id: 1,
            next_line_id: 1,
        };
        proof {
            assert(book@.users =~= Seq::empty());
            assert(book@.recipes =~= Seq::empty());
        }
        book
    }

    /// Stores a new user under the next free id. The id that `user` carries
    /// is ignored. Fails as `Unexpected`, and changes nothing, when no id is
    /// left.
    pub fn create_user(&mut self, user: User) -> (stored: Result<User, user::Error>)
        requires
            old(self).wf(),
        ensures
            final(self).wf(),
            match stored {
                Ok(u) => {
                    &&& old(self)@.users.len() < MAX_ID
                    &&& u@ == added_user(old(self)@.users, user@)
                    &&& final(self)@ == (BookView {
                        users: old(self)@.users.push(u@),
                        ..old(self)@
                    })
                },
                Err(e) => {
                    &&& e == user::Error::Unexpected
                    &&& old(self)@.users.len() >= MAX_ID
                    &&& final(self)@ == old(self)@
                },
            },
    {
        if self.users.len() >= MAX_ID as usize {
            return Err(user::Error::Unexpected);
        }
        let id: i32 = (self.users.len() + 1) as i32;
        let stored = User { id: Some(id), name: user.name };
        let ghost before = self@;
        self.users.push(stored.clone());
        proof {
            assert(self@.users =~= before.users.push(stored@));
            assert(self@.recipes == before.recipes);
            assert forall|k: int| 0 <= k < self@.recipes.len() implies recipe_fits(
                #[trigger] self@.recipes[k],
                self@,
            ) by {
                assert(recipe_fits(before.recipes[k], before));
            }
        }
        Ok(stored)
    }

    /// The user stored under `id`, or `UserNotFound(id)`.
    pub fn get_user_by_id(&self, id: i32) -> (found: Result<User, user::Error>)
        requires
            self.wf(),
        ensures
            match found {
                Ok(u) => find_user(self@.users, id) == Ok::<_, user::Error>(u@) && u@.id == Some(
                    id,
                ),
                Err(e) => find_user(self@.users, id) == Err::<UserView, _>(e),
            },
    {
        if id >= 1 && (id as usize) <= self.users.len() {
            let u = self.users[(id - 1) as usize].clone();
            assert(u@ == self@.users[id - 1]);
            Ok(u)
        } else {
            Err(user::Error::UserNotFound(id))
        }
    }

    /// Whether `user` is stored, under the id and the name it carries.
    pub fn knows_user(&self, user: &User) -> (known: bool)
        requires
            self.wf(),
        ensures
            known == user_known(self@.users, user@),
    {
        match user.id {
            None => false,
            Some(id) => {
                if id >= 1 && (id as usize) <= self.users.len() {
                    let same = self.users[(id - 1) as usize].same_as(user);
                    assert(self@.users[id - 1] == self.users@[id - 1]@);
                    same
                } else {
                    false
                }
            },
        }
    }

    /// Makes sure that the table of reference data of this kind has a row for
    /// each name, and hands back the ids of the rows, one for each name and
    /// in the order of `names`.
    ///
    /// A name that is stored keeps its row and its id; a name that is not
    /// gets a row of its own, however often it is given. A list with an
    /// empty name is refused as `InvalidArgument`, and one that would need
    /// more rows than there are ids as `Unexpected`; either way the book
    /// stays as it was.
    pub fn resolve_names(&mut self, kind: ReferenceKind, names: &Vec<String>) -> (resolved: Result<
        Vec<i32>,
        Error,
    >)
        requires
            old(self).wf(),
        ensures
            final(self).wf(),
            match resolved {
                Ok(ids) => {
                    &&& all_named(texts_view(names@))
                    &&& intern_all(table_of(old(self)@, kind), texts_view(names@)).len() <= MAX_ID
                    &&& final(self)@ == after_resolve(old(self)@, kind, texts_view(names@))
                    &&& ids@.len() == names@.len()
                    &&& forall|i: int|
                        0 <= i < ids@.len() ==> #[trigger] ids@[i] == id_of(
                            table_of(final(self)@, kind),
                            texts_view(names@)[i],
                        )
                },
                Err(e) => {
                    &&& final(self)@ == old(self)@
                    &&& e == Error::InvalidArgument || e == Error::Unexpected
                    &&& e == Error::InvalidArgument <==> !all_named(texts_view(names@))
                    &&& e == Error::Unexpected <==> all_named(texts_view(names@)) && intern_all(
                        table_of(old(self)@, kind),
                        texts_view(names@),
                    ).len() > MAX_ID
                },
            },
            all_named(texts_view(names@)) && intern_all(
                table_of(old(self)@, kind),
                texts_view(names@),
            ).len() <= MAX_ID ==> resolved is Ok,
    {
        let ghost before = self@;
        let resolved = match kind {
            ReferenceKind::Ingredient => self.ingredients.resolve(names),
            ReferenceKind::Unit => self.units.resolve(names),
        };
        proof {
            if resolved is Ok {
                lemma_resolve_keeps_wf(before, kind, texts_view(names@));
                assert(self@ == after_resolve(before, kind, texts_view(names@)));
            } else {
                assert(self@ == before);
            }
        }
        resolved
    }

    /// The place of the recipe stored under `id`, if there is one.
    fn place(&self, id: i32) -> (found: Option<usize>)
        requires
            self.wf(),
        ensures
            match found {
                Some(k) => {
                    &&& has_recipe(self@, id)
                    &&& k == place_of(self@, id)
                    &&& k < self.recipes@.len()
                    &&& self.recipes@[k as int].id == Some(id)
                },
                None => !has_recipe(self@, id),
            },
    {
        let mut k: usize = 0;
        while k < self.recipes.len()
            invariant
                k <= self.recipes.len(),
                self.wf(),
                forall|j: int| 0 <= j < k ==> (#[trigger] self@.recipes[j]).id != Some(id),
            decreases self.recipes.len() - k,
        {
            assert(self@.recipes[k as int] == self.recipes@[k as int]@);
            if self.recipes[k].id == Some(id) {
                proof {
                    let chosen = place_of(self@, id);
                    assert(has_recipe(self@, id));
                    if chosen < k {
                        assert(self@.recipes[chosen].id->0 < self@.recipes[k as int].id->0);
                    } else if chosen > k {
                        assert(self@.recipes[k as int].id->0 < self@.recipes[chosen].id->0);
                    }
                }
                return Some(k);
            }
            k += 1;
        }
        None
    }

    /// Every recipe of the book, in the order of their ids. An empty book
    /// gives an empty list.
    pub fn get_recipes(&self) -> (listed: Result<Vec<Recipe>, Error>)
        requires
            self.wf(),
        ensures
            listed matches Ok(list) && recipes_view(list@) == self@.recipes,
    {
        let mut list: Vec<Recipe> = Vec::new();
        let mut k: usize = 0;
        while k < self.recipes.len()
            invariant
                k <= self.recipes.len(),
                list@.len() == k,
                forall|j: int| 0 <= j < k ==> list@[j]@ == self.recipes@[j]@,
            decreases self.recipes.len() - k,
        {
            list.push(self.recipes[k].clone());
            k += 1;
        }
        assert(recipes_view(list@) =~= self@.recipes);
        Ok(list)
    }

    /// The recipe stored under `id`, with its author, its unit and its
    /// children, or `RecipeNotFound(id)`.
    pub fn get_recipe_by_id(&self, id: i32) -> (found: Result<Recipe, Error>)
        requires
            self.wf(),
        ensures
            match found {
                Ok(r) => read(self@, id) == Ok::<_, Error>(r@),
                Err(e) => read(self@, id) == Err::<RecipeView, _>(e),
            },
    {
        match self.place(id) {
            Some(k) => {
                let r = self.recipes[k].clone();
                assert(self@.recipes[k as int] == self.recipes@[k as int]@);
                Ok(r)
            },
            None => Err(Error::RecipeNotFound(id)),
        }
    }

    /// Stores a new recipe with its steps and its ingredient lines, and hands
    /// back the recipe as it is stored, with every id assigned.
    ///
    /// The ids that `recipe` and its children carry are ignored. The names of
    /// its ingredients and units are resolved first: a name that is stored
    /// keeps its row, a new name gets one. The author must be a stored user.
    /// Steps and lines are stored in the order given.
    ///
    /// Fails with `InvalidArgument` where an ingredient or a unit has no
    /// name, and with `Unexpected` where the author is not stored or the ids
    /// run out. A failure leaves the book as it was.
    pub fn create_recipe(&mut self, recipe: Recipe) -> (created: Result<Recipe, Error>)
        requires
            old(self).wf(),
        ensures
            final(self).wf(),
            match created {
                Ok(r) => {
                    &&& create_refusal(old(self)@, recipe@) is None
                    &&& r@ == created_recipe(old(self)@, recipe@)
                    &&& final(self)@ == after_create(old(self)@, recipe@)
                },
                Err(e) => {
                    &&& create_refusal(old(self)@, recipe@) == Some(e)
                    &&& final(self)@ == old(self)@
                },
            },
    {
        let ghost given = recipe@;
        let ghost before = self@;
        let ingredient_list = names_of_ingredients(&recipe);
        let unit_list = names_of_units(&recipe);
        if !names_are_given(&ingredient_list) || !names_are_given(&unit_list) {
            return Err(Error::InvalidArgument);
        }
        if !self.knows_user(&recipe.author) {
            return Err(Error::Unexpected);
        }
        let mut ingredients = self.ingredients.clone();
        let ingredient_ids = match ingredients.resolve(&ingredient_list) {
            Ok(ids) => ids,
            Err(_) => {
                return Err(Error::Unexpected);
            },
        };
        let mut units = self.units.clone();
        let unit_ids = match units.resolve(&unit_list) {
            Ok(ids) => ids,
            Err(_) => {
                return Err(Error::Unexpected);
            },
        };
        if self.next_recipe_id > MAX_ID as i64 {
            return Err(Error::Unexpected);
        }
        let steps_left: usize = (MAX_ID as i64 + 1 - self.next_step_id) as usize;
        let lines_left: usize = (MAX_ID as i64 + 1 - self.next_line_id) as usize;
        if recipe.steps.len() > steps_left || recipe.ingredients.len() > lines_left {
            return Err(Error::Unexpected);
        }
        assert(create_refusal(before, given) is None);
        let id: i32 = self.next_recipe_id as i32;
        let step_count: i64 = recipe.steps.len() as i64;
        let line_count: i64 = recipe.ingredients.len() as i64;
        let steps = number_steps(&recipe.steps, id, self.next_step_id);
        let lines = number_lines(
            &recipe.ingredients,
            id,
            self.next_line_id,
            &ingredient_ids,
            &unit_ids,
        );
        let made = Recipe {
            id: Some(id),
            title: recipe.title,
            description: recipe.description,
            author: recipe.author,
            prep_time: recipe.prep_time,
            cook_time: recipe.cook_time,
            inactive_time: recipe.inactive_time,
            yield_quantity: recipe.yield_quantity,
            yield_units: Unit { id: Some(unit_ids[0]), name: recipe.yield_units.name },
            ingredients: lines,
            steps,
        };
        proof {
            let wanted = created_recipe(before, given);
            assert(unit_names(given)[0] == given.yield_units.name);
            assert(made@.yield_units == wanted.yield_units);
            assert(made@.steps =~= wanted.steps);
            assert forall|k: int| 0 <= k < wanted.ingredients.len() implies made@.ingredients[k]
                == wanted.ingredients[k] by {
                assert(ingredient_names(given)[k] == given.ingredients[k].ingredient.name);
                assert(unit_names(given)[k + 1] == given.ingredients[k].units.name);
                assert(ingredient_ids@[k] == id_of(
                    ingredients@,
                    ingredient_names(given)[k],
                ));
                assert(unit_ids@[k + 1] == id_of(
                    units@,
                    unit_names(given)[k + 1],
                ));
            }
            assert(made@.ingredients =~= wanted.ingredients);
            assert(made@ == wanted);
        }
        let handed = made.clone();
        self.ingredients = ingredients;
        self.units = units;
        self.recipes.push(made);
        self.next_recipe_id = self.next_recipe_id + 1;
        self.next_step_id = self.next_step_id + step_count;
        self.next_line_id = self.next_line_id + line_count;
        proof {
            lemma_create_keeps_wf(before, given);
            assert(self@.recipes =~= after_create(before, given).recipes);
            assert(self@ == after_create(before, given));
        }
        Ok(handed)
    }

    /// Brings the stored recipe with the id of `recipe` to what `recipe`
    /// says, and hands back the recipe as it is stored then.
    ///
    /// The fields of the recipe are overwritten. Of each kind of children,
    /// those of `recipe` that carry the id of a stored child of this recipe
    /// overwrite that child, which keeps its id and its place; the others are
    /// added after them, in the order given, under new ids; the stored
    /// children that `recipe` does not name are deleted. Names of ingredients
    /// and units are resolved as they are on creation.
    ///
    /// Fails with `RecipeNotFound` where no recipe has the id, with
    /// `InvalidArgument` where an ingredient or a unit has no name, and with
    /// `Unexpected` where `recipe` has no id, the author is not stored, a
    /// stored child is named twice, or the ids run out. A failure leaves the
    /// book as it was.
    pub fn update_recipe(&mut self, recipe: Recipe) -> (updated: Result<Recipe, Error>)
        requires
            old(self).wf(),
        ensures
            final(self).wf(),
            match updated {
                Ok(r) => {
                    &&& update_refusal(old(self)@, recipe@) is None
                    &&& r@ == updated_recipe(old(self)@, recipe@)
                    &&& final(self)@ == after_update(old(self)@, recipe@)
                },
                Err(e) => {
                    &&& update_refusal(old(self)@, recipe@) == Some(e)
                    &&& final(self)@ == old(self)@
                },
            },
    {
        let ghost given = recipe@;
        let ghost before = self@;
        let id = match recipe.id {
            Some(id) => id,
            None => {
                return Err(Error::Unexpected);
            },
        };
        let place = match self.place(id) {
            Some(k) => k,
            None => {
                return Err(Error::RecipeNotFound(id));
            },
        };
        let ingredient_list = names_of_ingredients(&recipe);
        let unit_list = names_of_units(&recipe);
        if !names_are_given(&ingredient_list) || !names_are_given(&unit_list) {
            return Err(Error::InvalidArgument);
        }
        if !self.knows_user(&recipe.author) {
            return Err(Error::Unexpected);
        }
        let mut ingredients = self.ingredients.clone();
        let ingredient_ids = match ingredients.resolve(&ingredient_list) {
            Ok(ids) => ids,
            Err(_) => {
                return Err(Error::Unexpected);
            },
        };
        let mut units = self.units.clone();
        let unit_ids = match units.resolve(&unit_list) {
            Ok(ids) => ids,
            Err(_) => {
                return Err(Error::Unexpected);
            },
        };
        let ghost stored = before.recipes[place as int];
        proof {
            assert(stored == self.recipes@[place as int]@);
            lemma_stored_ids(before, place as int);
            assert(recipe_fits(stored, before));
            assert forall|i: int| 0 <= i < self.recipes@[place as int].steps@.len() implies (
            #[trigger] self.recipes@[place as int].steps@[i]).id is Some by {
                assert(stored.steps[i].id is Some);
            }
            assert forall|i: int|
                0 <= i < self.recipes@[place as int].ingredients@.len() implies (
            #[trigger] self.recipes@[place as int].ingredients@[i]).id is Some by {
                assert(stored.ingredients[i].id is Some);
            }
        }
        let stored_steps = ids_of_steps(&self.recipes[place].steps);
        let wanted_steps = wanted_of_steps(&recipe.steps);
        let step_plan = match plan_children(&stored_steps, &wanted_steps, self.next_step_id) {
            Some(plan) => plan,
            None => {
                return Err(Error::Unexpected);
            },
        };
        let stored_lines = ids_of_lines(&self.recipes[place].ingredients);
        let wanted_lines = wanted_of_lines(&recipe.ingredients);
        let line_plan = match plan_children(&stored_lines, &wanted_lines, self.next_line_id) {
            Some(plan) => plan,
            None => {
                return Err(Error::Unexpected);
            },
        };
        assert(update_refusal(before, given) is None);
        let ghost step_slots = outcome(stored_steps@, wanted_steps@, before.next_step_id);
        let ghost line_slots = outcome(stored_lines@, wanted_lines@, before.next_line_id);
        proof {
            lemma_outcome_is_sound(stored_steps@, wanted_steps@, before.next_step_id);
            lemma_outcome_is_sound(stored_lines@, wanted_lines@, before.next_line_id);
            let step_ups = updates(stored_steps@, wanted_steps@);
            let step_ins = inserts(stored_steps@, wanted_steps@, before.next_step_id);
            assert forall|k: int| 0 <= k < step_plan.updates@.len() implies (
            #[trigger] step_plan.updates@[k]).source < recipe.steps@.len() by {
                assert(slots_view(step_plan.updates@)[k] == step_slots[k]);
            }
            assert forall|k: int| 0 <= k < step_plan.inserts@.len() implies (
            #[trigger] step_plan.inserts@[k]).source < recipe.steps@.len() by {
                assert(slots_view(step_plan.inserts@)[k] == step_slots[step_ups.len() + k]);
            }
            let line_ups = updates(stored_lines@, wanted_lines@);
            assert forall|k: int| 0 <= k < line_plan.updates@.len() implies (
            #[trigger] line_plan.updates@[k]).source < recipe.ingredients@.len() by {
                assert(slots_view(line_plan.updates@)[k] == line_slots[k]);
            }
            assert forall|k: int| 0 <= k < line_plan.inserts@.len() implies (
            #[trigger] line_plan.inserts@[k]).source < recipe.ingredients@.len() by {
                assert(slots_view(line_plan.inserts@)[k] == line_slots[line_ups.len() + k]);
            }
        }
        let ghost given_steps = recipe.steps@;
        let ghost given_lines = recipe.ingredients@;
        let mut steps: Vec<Step> = Vec::new();
        fill_steps(&mut steps, &step_plan.updates, &recipe.steps, id);
        let ghost first_steps = steps@;
        fill_steps(&mut steps, &step_plan.inserts, &recipe.steps, id);
        let mut lines: Vec<RecipeIngredient> = Vec::new();
        fill_lines(
            &mut lines,
            &line_plan.updates,
            &recipe.ingredients,
            id,
            &ingredient_ids,
            &unit_ids,
        );
        let ghost first_lines = lines@;
        fill_lines(
            &mut lines,
            &line_plan.inserts,
            &recipe.ingredients,
            id,
            &ingredient_ids,
            &unit_ids,
        );
        let new_steps: i64 = step_plan.inserts.len() as i64;
        let new_lines: i64 = line_plan.inserts.len() as i64;
        proof {
            let wanted = updated_recipe(before, given);
            let step_ups = updates(stored_steps@, wanted_steps@);
            let line_ups = updates(stored_lines@, wanted_lines@);
            assert(given.steps == steps_view(given_steps));
            assert(given.ingredients == lines_view(given_lines));
            assert(stored.steps == steps_view(self.recipes@[place as int].steps@));
            assert(stored.ingredients == lines_view(self.recipes@[place as int].ingredients@));
            assert(slots_view(step_plan.updates@).len() == step_ups.len());
            assert(slots_view(line_plan.updates@).len() == line_ups.len());
            assert(first_steps.len() == step_ups.len());
            assert(first_lines.len() == line_ups.len());
            assert(steps@.len() == step_slots.len());
            assert(lines@.len() == line_slots.len());
            assert(wanted.steps.len() == step_slots.len());
            assert(wanted.ingredients.len() == line_slots.len());
            assert forall|k: int| 0 <= k < wanted.steps.len() implies steps@[k]@
                == wanted.steps[k] by {
                let slot = step_slots[k];
                assert(0 <= slot.source < given_steps.len());
                assert(given.steps[slot.source] == given_steps[slot.source]@);
                if k < step_ups.len() {
                    assert(slots_view(step_plan.updates@)[k] == slot);
                    assert(step_plan.updates@[k]@ == slot);
                    assert(first_steps[0 + k]@ == stored_step(
                        given_steps[step_plan.updates@[k].source as int]@,
                        step_plan.updates@[k].id as int,
                        id,
                    ));
                    assert(steps@[k] == first_steps[k]);
                } else {
                    let j = k - step_ups.len();
                    assert(slots_view(step_plan.inserts@)[j] == slot);
                    assert(step_plan.inserts@[j]@ == slot);
                    assert(steps@[first_steps.len() + j]@ == stored_step(
                        given_steps[step_plan.inserts@[j].source as int]@,
                        step_plan.inserts@[j].id as int,
                        id,
                    ));
                }
            }
            assert(steps_view(steps@) =~= wanted.steps);
            assert forall|k: int| 0 <= k < wanted.ingredients.len() implies lines@[k]@
                == wanted.ingredients[k] by {
                let slot = line_slots[k];
                assert(0 <= slot.source < given_lines.len());
                assert(given.ingredients[slot.source] == given_lines[slot.source]@);
                assert(ingredient_names(given)[slot.source]
                    == given.ingredients[slot.source].ingredient.name);
                assert(unit_names(given)[slot.source + 1]
                    == given.ingredients[slot.source].units.name);
                assert(ingredient_ids@[slot.source] == id_of(
                    ingredients@,
                    ingredient_names(given)[slot.source],
                ));
                assert(unit_ids@[slot.source + 1] == id_of(
                    units@,
                    unit_names(given)[slot.source + 1],
                ));
                if k < line_ups.len() {
                    assert(slots_view(line_plan.updates@)[k] == slot);
                    assert(line_plan.updates@[k]@ == slot);
                    assert(first_lines[0 + k]@ == line_with(
                        given_lines[line_plan.updates@[k].source as int]@,
                        line_plan.updates@[k].id as int,
                        id,
                        ingredient_ids@[line_plan.updates@[k].source as int],
                        unit_ids@[line_plan.updates@[k].source + 1],
                    ));
                    assert(lines@[k] == first_lines[k]);
                } else {
                    let j = k - line_ups.len();
                    assert(slots_view(line_plan.inserts@)[j] == slot);
                    assert(line_plan.inserts@[j]@ == slot);
                    assert(lines@[first_lines.len() + j]@ == line_with(
                        given_lines[line_plan.inserts@[j].source as int]@,
                        line_plan.inserts@[j].id as int,
                        id,
                        ingredient_ids@[line_plan.inserts@[j].source as int],
                        unit_ids@[line_plan.inserts@[j].source + 1],
                    ));
                }
            }
            assert(lines_view(lines@) =~= wanted.ingredients);
        }
        let made = Recipe {
            id: Some(id),
            title: recipe.title,
            description: recipe.description,
            author: recipe.author,
            prep_time: recipe.prep_time,
            cook_time: recipe.cook_time,
            inactive_time: recipe.inactive_time,
            yield_quantity: recipe.yield_quantity,
            yield_units: Unit { id: Some(unit_ids[0]), name: recipe.yield_units.name },
            ingredients: lines,
            steps,
        };
        proof {
            let wanted = updated_recipe(before, given);
            assert(unit_names(given)[0] == given.yield_units.name);
            assert(made@.yield_units == wanted.yield_units);
            assert(made@ == wanted);
        }
        let handed = made.clone();
        self.ingredients = ingredients;
        self.units = units;
        self.recipes.set(place, made);
        self.next_step_id = self.next_step_id + new_steps;
        self.next_line_id = self.next_line_id + new_lines;
        proof {
            lemma_update_keeps_wf(before, given);
            assert(self@.recipes =~= after_update(before, given).recipes);
            assert(self@ == after_update(before, given));
        }
        Ok(handed)
    }

    /// Deletes the recipe stored under `id`, with its children, and hands
    /// back the recipe as it was. Reference data stays.
    pub fn delete_recipe_by_id(&mut self, id: i32) -> (deleted: Result<Recipe, Error>)
        requires
            old(self).wf(),
        ensures
            final(self).wf(),
            match deleted {
                Ok(r) => {
                    &&& read(old(self)@, id) == Ok::<_, Error>(r@)
                    &&& final(self)@ == after_delete(old(self)@, id)
                },
                Err(e) => {
                    &&& read(old(self)@, id) == Err::<RecipeView, _>(e)
                    &&& final(self)@ == old(self)@
                },
            },
    {
        match self.place(id) {
            Some(k) => {
                let ghost before = self@;
                assert(before.recipes[k as int] == self.recipes@[k as int]@);
                let r = self.recipes.remove(k);
                proof {
                    assert(self@.recipes =~= before.recipes.remove(k as int));
                    assert forall|j: int| 0 <= j < self@.recipes.len() implies recipe_fits(
                        #[trigger] self@.recipes[j],
                        self@,
                    ) by {
                        if j < k {
                            assert(recipe_fits(before.recipes[j], before));
                        } else {
                            assert(recipe_fits(before.recipes[j + 1], before));
                        }
                    }
                    assert forall|a: int, b: int| 0 <= a < b < self@.recipes.len() implies (
                    #[trigger] self@.recipes[a]).id->0 < (#[trigger] self@.recipes[b]).id->0 by {
                        let a0 = if a < k { a } else { a + 1 };
                        let b0 = if b < k { b } else { b + 1 };
                        assert(before.recipes[a0].id->0 < before.recipes[b0].id->0);
                    }
                }
                Ok(r)
            },
            None => Err(Error::RecipeNotFound(id)),
        }
    }
}

impl RecipeRepository for RecipeBook {
    open spec fn book(&self) -> BookView {
        self@
    }

    open spec fn reliable(&self) -> bool {
        true
    }

    fn get_recipes(&self) -> (listed: Result<Vec<Recipe>, Error>) {
        RecipeBook::get_recipes(self)
    }

    fn get_recipe_by_id(&self, id: i32) -> (found: Result<Recipe, Error>) {
        RecipeBook::get_recipe_by_id(self, id)
    }

    fn create_recipe(&mut self, recipe: Recipe) -> (created: Result<Recipe, Error>) {
        RecipeBook::create_recipe(self, recipe)
    }

    fn update_recipe(&mut self, recipe: Recipe) -> (updated: Result<Recipe, Error>) {
        RecipeBook::update_recipe(self, recipe)
    }

    fn delete_recipe_by_id(&mut self, id: i32) -> (deleted: Result<Recipe, Error>) {
        RecipeBook::delete_recipe_by_id(self, id)
    }
}

impl UserRepository for RecipeBook {
    open spec fn users(&self) -> Seq<UserView> {
        self@.users
    }

    open spec fn sound(&self) -> bool {
        self.wf()
    }

    open spec fn reliable(&self) -> bool {
        true
    }

    fn get_user_by_id(&self, id: i32) -> (found: Result<User, user::Error>) {
        RecipeBook::get_user_by_id(self, id)
    }

    fn create_user(&mut self, user: User) -> (stored: Result<User, user::Error>) {
        RecipeBook::create_user(self, user)
    }
}

} // verus!
