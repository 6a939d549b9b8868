//! What is to be written, statement by statement, before anything is
//! written.
//!
//! A store that keeps its rows elsewhere carries out a creation or an update
//! as a list of statements, in order and as one unit: first the names are
//! resolved, then the recipe is written, then its children are overwritten,
//! added and deleted. A statement that adds a row leaves the id to the
//! store.

use vstd::prelude::*;

use crate::domain::recipe::{
    clone_text, lines_view, steps_view, text_view, Error, Recipe, RecipeIngredient,
    RecipeIngredientView, RecipeView, Step, StepView,
};
use crate::domain::user::{User, UserView};
use crate::store::assemble::{
    names_of_ingredients, names_of_units, wanted_of_lines, wanted_of_steps,
};
use crate::store::children::{conflict, dropped, inserts, new_positions, updates, SlotView};
use crate::store::outcome::lemma_sources_are_given;
use crate::store::planner::{holds_id, plan_children, slots_view, ChildPlan};
use crate::store::reference::{all_named, texts_view, ReferenceKind, MAX_ID};
use crate::store::resolver::names_are_given;
use crate::store::state::{ingredient_names, line_wanted, step_wanted, unit_names};

verus! {

/// What the row of a recipe holds, its author and its unit known by name.
pub struct RecipeRowView {
    pub title: Seq<char>,
    pub description: Option<Seq<char>>,
    pub author: UserView,
    pub prep_time: Option<chrono::Duration>,
    pub cook_time: Option<chrono::Duration>,
    pub inactive_time: Option<chrono::Duration>,
    pub yield_quantity: i32,
    pub yield_units: Seq<char>,
}

/// The row of a recipe: its own fields, its author, and the name of its
/// unit.
#[derive(Debug, PartialEq)]
pub struct RecipeRow {
    pub title: String,
    pub description: Option<String>,
    pub author: User,
    pub prep_time: Option<chrono::Duration>,
    pub cook_time: Option<chrono::Duration>,
    pub inactive_time: Option<chrono::Duration>,
    pub yield_quantity: i32,
    pub yield_units: String,
}

impl View for RecipeRow {
    type V = RecipeRowView;

    open spec fn view(&self) -> RecipeRowView {
        RecipeRowView {
            title: self.title@,
            description: text_view(self.description),
            author: self.author@,
            prep_time: self.prep_time,
            cook_time: self.cook_time,
            inactive_time: self.inactive_time,
            yield_quantity: self.yield_quantity,
            yield_units: self.yield_units@,
        }
    }
}

/// What a [`Statement`] is.
pub enum StatementView {
    ResolveNames { kind: ReferenceKind, names: Seq<Seq<char>> },
    InsertRecipe { row: RecipeRowView },
    UpdateRecipe { id: i32, row: RecipeRowView },
    InsertStep { ordinal: i32, instruction: Seq<char> },
    UpdateStep { id: i32, ordinal: i32, instruction: Seq<char> },
    DeleteStep { id: i32 },
    InsertLine { ingredient: Seq<char>, quantity: i32, units: Seq<char>, preparation: Seq<char> },
    UpdateLine {
        id: i32,
        ingredient: Seq<char>,
        quantity: i32,
        units: Seq<char>,
        preparation: Seq<char>,
    },
    DeleteLine { id: i32 },
}

/// One statement of a write. Children are those of the recipe that the write
/// is about: the one that `InsertRecipe` has just added, or the one that
/// `UpdateRecipe` names.
#[derive(Debug, PartialEq)]
pub enum Statement {
    /// Make sure that each name has a row in the table of this kind.
    ResolveNames { kind: ReferenceKind, names: Vec<String> },
    /// Add the recipe, under the next id.
    InsertRecipe { row: RecipeRow },
    /// Overwrite the recipe with this id.
    UpdateRecipe { id: i32, row: RecipeRow },
    /// Add a step to the recipe, under the next id.
    InsertStep { ordinal: i32, instruction: String },
    /// Overwrite the step with this id.
    UpdateStep { id: i32, ordinal: i32, instruction: String },
    /// Delete the step with this id.
    DeleteStep { id: i32 },
    /// Add an ingredient line to the recipe, under the next id.
    InsertLine { ingredient: String, quantity: i32, units: String, preparation: String },
    /// Overwrite the ingredient line with this id.
    UpdateLine { id: i32, ingredient: String, quantity: i32, units: String, preparation: String },
    /// Delete the ingredient line with this id.
    DeleteLine { id: i32 },
}

impl View for Statement {
    type V = StatementView;

    open spec fn view(&self) -> StatementView {
        match self {
            Statement::ResolveNames { kind, names } => StatementView::ResolveNames {
                kind: *kind,
                names: texts_view(names@),
            },
            Statement::InsertRecipe { row } => StatementView::InsertRecipe { row: row@ },
            Statement::UpdateRecipe { id, row } => StatementView::UpdateRecipe {
                id: *id,
                row: row@,
            },
            Statement::InsertStep { ordinal, instruction } => StatementView::InsertStep {
                ordinal: *ordinal,
                instruction: instruction@,
            },
            Statement::UpdateStep { id, ordinal, instruction } => StatementView::UpdateStep {
                id: *id,
                ordinal: *ordinal,
                instruction: instruction@,
            },
            Statement::DeleteStep { id } => StatementView::DeleteStep { id: *id },
            Statement::InsertLine {
                ingredient,
                quantity,
                units,
                preparation,
            } => StatementView::InsertLine {
                ingredient: ingredient@,
                quantity: *quantity,
                units: units@,
                preparation: preparation@,
            },
            Statement::UpdateLine {
                id,
                ingredient,
                quantity,
                units,
                preparation,
            } => StatementView::UpdateLine {
                id: *id,
                ingredient: ingredient@,
                quantity: *quantity,
                units: units@,
                preparation: preparation@,
            },
            Statement::DeleteLine { id } => StatementView::DeleteLine { id: *id },
        }
    }
}

/// The views of a list of statements, in order.
pub open spec fn statements_view(statements: Seq<Statement>) -> Seq<StatementView> {
    statements.map_values(|s: Statement| s@)
}

/// The row of a recipe.
pub open spec fn row_for(given: RecipeView) -> RecipeRowView {
    RecipeRowView {
        title: given.title,
        description: given.description,
        author: given.author,
        prep_time: given.prep_time,
        cook_time: given.cook_time,
        inactive_time: given.inactive_time,
        yield_quantity: given.yield_quantity,
        yield_units: given.yield_units.name,
    }
}

/// The statement that adds a step.
pub open spec fn insert_step(given: StepView) -> StatementView {
    StatementView::InsertStep { ordinal: given.ordinal, instruction: given.instruction }
}

/// The statement that overwrites the step `id` with what is given.
pub open spec fn update_step(id: i32, given: StepView) -> StatementView {
    StatementView::UpdateStep { id, ordinal: given.ordinal, instruction: given.instruction }
}

/// The statement that adds an ingredient line.
pub open spec fn insert_line(given: RecipeIngredientView) -> StatementView {
    StatementView::InsertLine {
        ingredient: given.ingredient.name,
        quantity: given.quantity,
        units: given.units.name,
        preparation: given.preparation,
    }
}

/// The statement that overwrites the ingredient line `id` with what is
/// given.
pub open spec fn update_line(id: i32, given: RecipeIngredientView) -> StatementView {
    StatementView::UpdateLine {
        id,
        ingredient: given.ingredient.name,
        quantity: given.quantity,
        units: given.units.name,
        preparation: given.preparation,
    }
}

/// The statements that resolve the names of a recipe: its ingredients, then
/// its units.
pub open spec fn resolving(given: RecipeView) -> Seq<StatementView> {
    seq![
        StatementView::ResolveNames {
            kind: ReferenceKind::Ingredient,
            names: ingredient_names(given),
        },
        StatementView::ResolveNames { kind: ReferenceKind::Unit, names: unit_names(given) },
    ]
}

/// The statements that create a recipe: the names are resolved, the recipe
/// is added, then its steps and its ingredient lines, in the order given.
pub open spec fn creation(given: RecipeView) -> Seq<StatementView> {
    resolving(given).push(StatementView::InsertRecipe { row: row_for(given) })
        + given.steps.map_values(|s: StepView| insert_step(s)) + given.ingredients.map_values(
        |l: RecipeIngredientView| insert_line(l),
    )
}

/// The statements that overwrite the stored steps which the update names,
/// in stored order.
pub open spec fn step_updates(stored: Seq<i32>, given: Seq<StepView>) -> Seq<StatementView> {
    updates(stored, step_wanted(given)).map_values(
        |slot: SlotView| update_step(slot.id as i32, given[slot.source]),
    )
}

/// The statements that add the new steps, in the order of the update.
pub open spec fn step_inserts(stored: Seq<i32>, given: Seq<StepView>) -> Seq<StatementView> {
    inserts(stored, step_wanted(given), 1).map_values(
        |slot: SlotView| insert_step(given[slot.source]),
    )
}

/// The statements that delete the stored steps which the update does not
/// name.
pub open spec fn step_deletes(stored: Seq<i32>, given: Seq<StepView>) -> Seq<StatementView> {
    dropped(stored, step_wanted(given)).map_values(|id: i32| StatementView::DeleteStep { id })
}

/// The statements that reconcile the steps of a recipe: the stored steps
/// that the update names are overwritten, the new steps are added, and the
/// stored steps that the update does not name are deleted.
pub open spec fn step_reconciliation(stored: Seq<i32>, given: Seq<StepView>) -> Seq<
    StatementView,
> {
    step_updates(stored, given) + step_inserts(stored, given) + step_deletes(stored, given)
}

/// The statements that overwrite the stored ingredient lines which the
/// update names, in stored order.
pub open spec fn line_updates(stored: Seq<i32>, given: Seq<RecipeIngredientView>) -> Seq<
    StatementView,
> {
    updates(stored, line_wanted(given)).map_values(
        |slot: SlotView| update_line(slot.id as i32, given[slot.source]),
    )
}

/// The statements that add the new ingredient lines, in the order of the
/// update.
pub open spec fn line_inserts(stored: Seq<i32>, given: Seq<RecipeIngredientView>) -> Seq<
    StatementView,
> {
    inserts(stored, line_wanted(given), 1).map_values(
        |slot: SlotView| insert_line(given[slot.source]),
    )
}

/// The statements that delete the stored ingredient lines which the update
/// does not name.
pub open spec fn line_deletes(stored: Seq<i32>, given: Seq<RecipeIngredientView>) -> Seq<
    StatementView,
> {
    dropped(stored, line_wanted(given)).map_values(|id: i32| StatementView::DeleteLine { id })
}

/// The statements that reconcile the ingredient lines of a recipe, as those
/// for its steps do.
pub open spec fn line_reconciliation(stored: Seq<i32>, given: Seq<RecipeIngredientView>) -> Seq<
    StatementView,
> {
    line_updates(stored, given) + line_inserts(stored, given) + line_deletes(stored, given)
}

/// The statements that update a recipe whose stored steps and ingredient
/// lines have these ids: the names are resolved, the recipe is overwritten,
/// then its steps are reconciled, then its ingredient lines.
pub open spec fn reconciliation(
    given: RecipeView,
    stored_steps: Seq<i32>,
    stored_lines: Seq<i32>,
) -> Seq<StatementView> {
    resolving(given).push(StatementView::UpdateRecipe { id: given.id->0, row: row_for(given) })
        + step_reconciliation(stored_steps, given.steps) + line_reconciliation(
        stored_lines,
        given.ingredients,
    )
}

/// Why there are no statements for the update, if there are none: the
/// recipe has no id, a name is missing, the ids of the stored children are
/// not distinct, the update names a stored child twice, or it has more new
/// children than there are ids.
pub open spec fn reconciliation_refusal(
    given: RecipeView,
    stored_steps: Seq<i32>,
    stored_lines: Seq<i32>,
) -> Option<Error> {
    if given.id is None {
        Some(Error::Unexpected)
    } else if !all_named(ingredient_names(given)) || !all_named(unit_names(given)) {
        Some(Error::InvalidArgument)
    } else if !stored_steps.no_duplicates() || !stored_lines.no_duplicates() {
        Some(Error::Unexpected)
    } else if conflict(stored_steps, step_wanted(given.steps)) || new_positions(
        stored_steps,
        step_wanted(given.steps),
        given.steps.len() as int,
    ).len() > MAX_ID {
        Some(Error::Unexpected)
    } else if conflict(stored_lines, line_wanted(given.ingredients)) || new_positions(
        stored_lines,
        line_wanted(given.ingredients),
        given.ingredients.len() as int,
    ).len() > MAX_ID {
        Some(Error::Unexpected)
    } else {
        None
    }
}

/// Why there are no statements for the creation, if there are none: a name
/// is missing.
pub open spec fn creation_refusal(given: RecipeView) -> Option<Error> {
    if !all_named(ingredient_names(given)) || !all_named(unit_names(given)) {
        Some(Error::InvalidArgument)
    } else {
        None
    }
}

/// The row of a recipe.
pub fn row_of_recipe(recipe: &Recipe) -> (row: RecipeRow)
    ensures
        row@ == row_for(recipe@),
{
    RecipeRow {
        title: recipe.title.clone(),
        description: clone_text(&recipe.description),
        author: recipe.author.clone(),
        prep_time: recipe.prep_time,
        cook_time: recipe.cook_time,
        inactive_time: recipe.inactive_time,
        yield_quantity: recipe.yield_quantity,
        yield_units: recipe.yield_units.name.clone(),
    }
}

/// Whether no id occurs twice in the list.
pub fn all_distinct(ids: &Vec<i32>) -> (distinct: bool)
    ensures
        distinct == ids@.no_duplicates(),
{
    let mut seen: Vec<i32> = Vec::new();
    let mut i: usize = 0;
    while i < ids.len()
        invariant
            i <= ids.len(),
            seen@ == ids@.take(i as int),
            seen@.no_duplicates(),
        decreases ids.len() - i,
    {
        if holds_id(&seen, ids[i]) {
            proof {
                let j = seen@.index_of(ids@[i as int]);
                assert(ids@[j] == ids@[i as int]);
            }
            return false;
        }
        seen.push(ids[i]);
        proof {
            assert(seen@ =~= ids@.take(i + 1));
        }
        i += 1;
    }
    proof {
        assert(ids@.take(i as int) =~= ids@);
    }
    true
}

/// The statement that adds the given step.
fn step_insertion(given: &Step) -> (statement: Statement)
    ensures
        statement@ == insert_step(given@),
{
    Statement::InsertStep { ordinal: given.ordinal, instruction: given.instruction.clone() }
}

/// The statement that adds the given ingredient line.
fn line_insertion(given: &RecipeIngredient) -> (statement: Statement)
    ensures
        statement@ == insert_line(given@),
{
    Statement::InsertLine {
        ingredient: given.ingredient.name.clone(),
        quantity: given.quantity,
        units: given.units.name.clone(),
        preparation: given.preparation.clone(),
    }
}

/// The two statements that resolve the names of a recipe.
fn push_resolving(statements: &mut Vec<Statement>, recipe: &Recipe)
    requires
        old(statements)@.len() == 0,
    ensures
        statements_view(final(statements)@) == resolving(recipe@),
{
    statements.push(
        Statement::ResolveNames {
            kind: ReferenceKind::Ingredient,
            names: names_of_ingredients(recipe),
        },
    );
    statements.push(
        Statement::ResolveNames { kind: ReferenceKind::Unit, names: names_of_units(recipe) },
    );
    assert(statements_view(statements@) =~= resolving(recipe@));
}

/// The statements that create the recipe in a store: the names are
/// resolved, the recipe is added, then its steps and its ingredient lines,
/// in the order given. The ids that the recipe and its children carry are
/// left out. A recipe with an ingredient or a unit without a name is refused
/// as `InvalidArgument`.
pub fn create_statements(recipe: &Recipe) -> (planned: Result<Vec<Statement>, Error>)
    ensures
        match planned {
            Ok(statements) => creation_refusal(recipe@) is None && statements_view(statements@)
                == creation(recipe@),
            Err(e) => creation_refusal(recipe@) == Some(e),
        },
{
    let ingredient_list = names_of_ingredients(recipe);
    let unit_list = names_of_units(recipe);
    if !names_are_given(&ingredient_list) || !names_are_given(&unit_list) {
        return Err(Error::InvalidArgument);
    }
    let mut statements: Vec<Statement> = Vec::new();
    push_resolving(&mut statements, recipe);
    statements.push(Statement::InsertRecipe { row: row_of_recipe(recipe) });
    let ghost head = statements_view(statements@);
    let ghost steps = recipe@.steps.map_values(|s: StepView| insert_step(s));
    let ghost lines = recipe@.ingredients.map_values(|l: RecipeIngredientView| insert_line(l));
    proof {
        assert(head =~= resolving(recipe@).push(
            StatementView::InsertRecipe { row: row_for(recipe@) },
        ));
        assert(steps.take(0) =~= Seq::<StatementView>::empty());
        assert(statements_view(statements@) =~= head + steps.take(0));
    }
    let mut i: usize = 0;
    while i < recipe.steps.len()
        invariant
            i <= recipe.steps.len(),
            steps == recipe@.steps.map_values(|s: StepView| insert_step(s)),
            statements_view(statements@) == head + steps.take(i as int),
        decreases recipe.steps.len() - i,
    {
        let ghost before = statements_view(statements@);
        statements.push(step_insertion(&recipe.steps[i]));
        proof {
            assert(recipe@.steps[i as int] == recipe.steps@[i as int]@);
            assert(steps.take(i + 1) =~= steps.take(i as int).push(steps[i as int]));
            assert(statements_view(statements@) =~= before.push(steps[i as int]));
            assert(statements_view(statements@) =~= head + steps.take(i + 1));
        }
        i += 1;
    }
    proof {
        assert(steps.take(i as int) =~= steps);
        assert(lines.take(0) =~= Seq::<StatementView>::empty());
        assert(statements_view(statements@) =~= head + steps + lines.take(0));
    }
    let mut j: usize = 0;
    while j < recipe.ingredients.len()
        invariant
            j <= recipe.ingredients.len(),
            lines == recipe@.ingredients.map_values(|l: RecipeIngredientView| insert_line(l)),
            statements_view(statements@) == head + steps + lines.take(j as int),
        decreases recipe.ingredients.len() - j,
    {
        let ghost before = statements_view(statements@);
        statements.push(line_insertion(&recipe.ingredients[j]));
        proof {
            assert(recipe@.ingredients[j as int] == recipe.ingredients@[j as int]@);
            assert(lines.take(j + 1) =~= lines.take(j as int).push(lines[j as int]));
            assert(statements_view(statements@) =~= before.push(lines[j as int]));
            assert(statements_view(statements@) =~= head + steps + lines.take(j + 1));
        }
        j += 1;
    }
    proof {
        assert(lines.take(j as int) =~= lines);
    }
    Ok(statements)
}

/// Adds the statements that reconcile the steps of a recipe, as the plan
/// says.
fn push_step_statements(
    statements: &mut Vec<Statement>,
    plan: &ChildPlan,
    given: &Vec<Step>,
    Ghost(stored): Ghost<Seq<i32>>,
)
    requires
        slots_view(plan.updates@) == updates(stored, step_wanted(steps_view(given@))),
        slots_view(plan.inserts@) == inserts(stored, step_wanted(steps_view(given@)), 1),
        plan.deletes@ == dropped(stored, step_wanted(steps_view(given@))),
    ensures
        statements_view(final(statements)@) == statements_view(old(statements)@)
            + step_reconciliation(stored, steps_view(given@)),
{
    let ghost head = statements_view(statements@);
    let ghost asked = steps_view(given@);
    let ghost wanted = step_wanted(asked);
    let ghost ups = step_updates(stored, asked);
    let ghost ins = step_inserts(stored, asked);
    let ghost dels = step_deletes(stored, asked);
    proof {
        lemma_sources_are_given(stored, wanted, 1);
        assert(wanted.len() == given@.len());
        assert(statements_view(statements@) =~= head + ups.take(0));
    }
    let mut k: usize = 0;
    while k < plan.updates.len()
        invariant
            k <= plan.updates.len(),
            asked == steps_view(given@),
            wanted == step_wanted(asked),
            wanted.len() == given@.len(),
            ups == step_updates(stored, asked),
            slots_view(plan.updates@) == updates(stored, wanted),
            forall|j: int|
                0 <= j < updates(stored, wanted).len() ==> 0 <= (#[trigger] updates(
                    stored,
                    wanted,
                )[j]).source < wanted.len(),
            statements_view(statements@) == head + ups.take(k as int),
        decreases plan.updates.len() - k,
    {
        let ghost before = statements_view(statements@);
        let slot = plan.updates[k];
        proof {
            assert(slots_view(plan.updates@)[k as int] == slot@);
            assert(updates(stored, wanted)[k as int] == slot@);
            assert(0 <= slot.source < given@.len());
        }
        let step = &given[slot.source];
        statements.push(
            Statement::UpdateStep {
                id: slot.id,
                ordinal: step.ordinal,
                instruction: step.instruction.clone(),
            },
        );
        proof {
            assert(asked[slot.source as int] == given@[slot.source as int]@);
            assert(ups.len() == plan.updates@.len());
            assert(ups.take(k + 1) =~= ups.take(k as int).push(ups[k as int]));
            assert(statements_view(statements@) =~= before.push(ups[k as int]));
            assert(statements_view(statements@) =~= head + ups.take(k + 1));
        }
        k += 1;
    }
    proof {
        assert(ups.len() == plan.updates@.len());
        assert(ups.take(k as int) =~= ups);
        assert(statements_view(statements@) =~= head + ups + ins.take(0));
    }
    let mut i: usize = 0;
    while i < plan.inserts.len()
        invariant
            i <= plan.inserts.len(),
            asked == steps_view(given@),
            wanted == step_wanted(asked),
            wanted.len() == given@.len(),
            ins == step_inserts(stored, asked),
            slots_view(plan.inserts@) == inserts(stored, wanted, 1),
            forall|j: int|
                0 <= j < inserts(stored, wanted, 1).len() ==> 0 <= (#[trigger] inserts(
                    stored,
                    wanted,
                    1,
                )[j]).source < wanted.len(),
            statements_view(statements@) == head + ups + ins.take(i as int),
        decreases plan.inserts.len() - i,
    {
        let ghost before = statements_view(statements@);
        let slot = plan.inserts[i];
        proof {
            assert(slots_view(plan.inserts@)[i as int] == slot@);
            assert(inserts(stored, wanted, 1)[i as int] == slot@);
            assert(0 <= slot.source < given@.len());
        }
        statements.push(step_insertion(&given[slot.source]));
        proof {
            assert(asked[slot.source as int] == given@[slot.source as int]@);
            assert(ins.len() == plan.inserts@.len());
            assert(ins.take(i + 1) =~= ins.take(i as int).push(ins[i as int]));
            assert(statements_view(statements@) =~= before.push(ins[i as int]));
            assert(statements_view(statements@) =~= head + ups + ins.take(i + 1));
        }
        i += 1;
    }
    proof {
        assert(ins.len() == plan.inserts@.len());
        assert(ins.take(i as int) =~= ins);
        assert(statements_view(statements@) =~= head + ups + ins + dels.take(0));
    }
    let mut d: usize = 0;
    while d < plan.deletes.len()
        invariant
            d <= plan.deletes.len(),
            dels == step_deletes(stored, asked),
            wanted == step_wanted(asked),
            plan.deletes@ == dropped(stored, wanted),
            statements_view(statements@) == head + ups + ins + dels.take(d as int),
        decreases plan.deletes.len() - d,
    {
        let ghost before = statements_view(statements@);
        statements.push(Statement::DeleteStep { id: plan.deletes[d] });
        proof {
            assert(dels.len() == plan.deletes@.len());
            assert(dels.take(d + 1) =~= dels.take(d as int).push(dels[d as int]));
            assert(statements_view(statements@) =~= before.push(dels[d as int]));
            assert(statements_view(statements@) =~= head + ups + ins + dels.take(d + 1));
        }
        d += 1;
    }
    proof {
        assert(dels.len() == plan.deletes@.len());
        assert(dels.take(d as int) =~= dels);
        assert(head + ups + ins + dels =~= head + step_reconciliation(stored, asked));
    }
}

/// Adds the statements that reconcile the ingredient lines of a recipe, as
/// the plan says.
fn push_line_statements(
    statements: &mut Vec<Statement>,
    plan: &ChildPlan,
    given: &Vec<RecipeIngredient>,
    Ghost(stored): Ghost<Seq<i32>>,
)
    requires
        slots_view(plan.updates@) == updates(stored, line_wanted(lines_view(given@))),
        slots_view(plan.inserts@) == inserts(stored, line_wanted(lines_view(given@)), 1),
        plan.deletes@ == dropped(stored, line_wanted(lines_view(given@))),
    ensures
        statements_view(final(statements)@) == statements_view(old(statements)@)
            + line_reconciliation(stored, lines_view(given@)),
{
    let ghost head = statements_view(statements@);
    let ghost asked = lines_view(given@);
    let ghost wanted = line_wanted(asked);
    let ghost ups = line_updates(stored, asked);
    let ghost ins = line_inserts(stored, asked);
    let ghost dels = line_deletes(stored, asked);
    proof {
        lemma_sources_are_given(stored, wanted, 1);
        assert(wanted.len() == given@.len());
        assert(statements_view(statements@) =~= head + ups.take(0));
    }
    let mut k: usize = 0;
    while k < plan.updates.len()
        invariant
            k <= plan.updates.len(),
            asked == lines_view(given@),
            wanted == line_wanted(asked),
            wanted.len() == given@.len(),
            ups == line_updates(stored, asked),
            slots_view(plan.updates@) == updates(stored, wanted),
            forall|j: int|
                0 <= j < updates(stored, wanted).len() ==> 0 <= (#[trigger] updates(
                    stored,
                    wanted,
                )[j]).source < wanted.len(),
            statements_view(statements@) == head + ups.take(k as int),
        decreases plan.updates.len() - k,
    {
        let ghost before = statements_view(statements@);
        let slot = plan.updates[k];
        proof {
            assert(slots_view(plan.updates@)[k as int] == slot@);
            assert(updates(stored, wanted)[k as int] == slot@);
            assert(0 <= slot.source < given@.len());
        }
        let line = &given[slot.source];
        statements.push(
            Statement::UpdateLine {
                id: slot.id,
                ingredient: line.ingredient.name.clone(),
                quantity: line.quantity,
                units: line.units.name.clone(),
                preparation: line.preparation.clone(),
            },
        );
        proof {
            assert(asked[slot.source as int] == given@[slot.source as int]@);
            assert(ups.len() == plan.updates@.len());
            assert(ups.take(k + 1) =~= ups.take(k as int).push(ups[k as int]));
            assert(statements_view(statements@) =~= before.push(ups[k as int]));
            assert(statements_view(statements@) =~= head + ups.take(k + 1));
        }
        k += 1;
    }
    proof {
        assert(ups.len() == plan.updates@.len());
        assert(ups.take(k as int) =~= ups);
        assert(statements_view(statements@) =~= head + ups + ins.take(0));
    }
    let mut i: usize = 0;
    while i < plan.inserts.len()
        invariant
            i <= plan.inserts.len(),
            asked == lines_view(given@),
            wanted == line_wanted(asked),
            wanted.len() == given@.len(),
            ins == line_inserts(stored, asked),
            slots_view(plan.inserts@) == inserts(stored, wanted, 1),
            forall|j: int|
                0 <= j < inserts(stored, wanted, 1).len() ==> 0 <= (#[trigger] inserts(
                    stored,
                    wanted,
                    1,
                )[j]).source < wanted.len(),
            statements_view(statements@) == head + ups + ins.take(i as int),
        decreases plan.inserts.len() - i,
    {
        let ghost before = statements_view(statements@);
        let slot = plan.inserts[i];
        proof {
            assert(slots_view(plan.inserts@)[i as int] == slot@);
            assert(inserts(stored, wanted, 1)[i as int] == slot@);
            assert(0 <= slot.source < given@.len());
        }
        statements.push(line_insertion(&given[slot.source]));
        proof {
            assert(asked[slot.source as int] == given@[slot.source as int]@);
            assert(ins.len() == plan.inserts@.len());
            assert(ins.take(i + 1) =~= ins.take(i as int).push(ins[i as int]));
            assert(statements_view(statements@) =~= before.push(ins[i as int]));
            assert(statements_view(statements@) =~= head + ups + ins.take(i + 1));
        }
        i += 1;
    }
    proof {
        assert(ins.len() == plan.inserts@.len());
        assert(ins.take(i as int) =~= ins);
        assert(statements_view(statements@) =~= head + ups + ins + dels.take(0));
    }
    let mut d: usize = 0;
    while d < plan.deletes.len()
        invariant
            d <= plan.deletes.len(),
            dels == line_deletes(stored, asked),
            wanted == line_wanted(asked),
            plan.deletes@ == dropped(stored, wanted),
            statements_view(statements@) == head + ups + ins + dels.take(d as int),
        decreases plan.deletes.len() - d,
    {
        let ghost before = statements_view(statements@);
        statements.push(Statement::DeleteLine { id: plan.deletes[d] });
        proof {
            assert(dels.len() == plan.deletes@.len());
            assert(dels.take(d + 1) =~= dels.take(d as int).push(dels[d as int]));
            assert(statements_view(statements@) =~= before.push(dels[d as int]));
            assert(statements_view(statements@) =~= head + ups + ins + dels.take(d + 1));
        }
        d += 1;
    }
    proof {
        assert(dels.len() == plan.deletes@.len());
        assert(dels.take(d as int) =~= dels);
        assert(head + ups + ins + dels =~= head + line_reconciliation(stored, asked));
    }
}

/// The statements that bring a stored recipe to what `recipe` says, in a
/// store where the recipe has steps and ingredient lines with these ids:
/// the names are resolved, the recipe is overwritten, then the steps are
/// reconciled, then the ingredient lines. Of each kind, the stored children
/// that `recipe` names are overwritten, its other children are added, and
/// the stored children that it does not name are deleted.
///
/// There are no statements, and the failure is `Unexpected`, where the
/// recipe has no id, the ids of the stored children are not distinct, a
/// stored child is named twice, or there are more new children than ids;
/// the failure is `InvalidArgument` where an ingredient or a unit has no
/// name.
pub fn update_statements(recipe: &Recipe, stored_steps: &Vec<i32>, stored_lines: &Vec<i32>) -> (planned:
    Result<Vec<Statement>, Error>)
    ensures
        match planned {
            Ok(statements) => reconciliation_refusal(recipe@, stored_steps@, stored_lines@)
                is None && statements_view(statements@) == reconciliation(
                recipe@,
                stored_steps@,
                stored_lines@,
            ),
            Err(e) => reconciliation_refusal(recipe@, stored_steps@, stored_lines@) == Some(e),
        },
{
    let id = match recipe.id {
        Some(id) => id,
        None => {
            return Err(Error::Unexpected);
        },
    };
    let ingredient_list = names_of_ingredients(recipe);
    let unit_list = names_of_units(recipe);
    if !names_are_given(&ingredient_list) || !names_are_given(&unit_list) {
        return Err(Error::InvalidArgument);
    }
    if !all_distinct(stored_steps) || !all_distinct(stored_lines) {
        return Err(Error::Unexpected);
    }
    let wanted_steps = wanted_of_steps(&recipe.steps);
    let step_plan = match plan_children(stored_steps, &wanted_steps, 1) {
        Some(plan) => plan,
        None => {
            return Err(Error::Unexpected);
        },
    };
    let wanted_lines = wanted_of_lines(&recipe.ingredients);
    let line_plan = match plan_children(stored_lines, &wanted_lines, 1) {
        Some(plan) => plan,
        None => {
            return Err(Error::Unexpected);
        },
    };
    let mut statements: Vec<Statement> = Vec::new();
    push_resolving(&mut statements, recipe);
    statements.push(Statement::UpdateRecipe { id, row: row_of_recipe(recipe) });
    proof {
        assert(statements_view(statements@) =~= resolving(recipe@).push(
            StatementView::UpdateRecipe { id, row: row_for(recipe@) },
        ));
    }
    push_step_statements(&mut statements, &step_plan, &recipe.steps, Ghost(stored_steps@));
    push_line_statements(&mut statements, &line_plan, &recipe.ingredients, Ghost(stored_lines@));
    Ok(statements)
}

} // verus!
