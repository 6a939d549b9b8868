//! What carrying out statements makes of the recipe book, and that the
//! statements of a creation and of an update make of it what the book says
//! of creating and updating.

use vstd::prelude::*;

use crate::domain::recipe::{RecipeIngredientView, RecipeView, StepView};
use crate::store::changes::{
    adds, apply, apply_all, ids_of, lemma_adds, lemma_apply_all_in_a_row,
    lemma_changes_leave_the_outcome, plan_changes, puts, removes, Change,
};
use crate::store::children::{
    dropped, inserts, next_after, outcome, rising, updates, SlotView,
};
use crate::store::laws::lemma_place_is_unique;
use crate::store::outcome::{lemma_outcome_is_sound, lemma_rising_is_distinct};
use crate::store::reference::ReferenceKind;
use crate::store::soundness::{lemma_resolve_keeps_wf, lemma_stored_ids, lemma_update_keeps_wf};
use crate::store::reference::MAX_ID;
use crate::store::state::{
    after_create, after_resolve, after_update, book_wf, create_refusal, created_recipe,
    ingredient_names, line_ids, line_wanted, place_of, reconciled_lines, reconciled_steps, row_of,
    step_ids, step_wanted, stored_line, stored_step, unit_names, update_refusal, BookView,
};
use crate::store::statements::{
    creation, creation_refusal, insert_line, insert_step, line_deletes, line_inserts, line_reconciliation,
    line_updates, reconciliation, reconciliation_refusal, resolving, row_for, step_deletes, step_inserts,
    step_reconciliation, step_updates, update_line, update_step, RecipeRowView, StatementView,
};

verus! {

/// A write in progress: the book as it is, and the place of the recipe that
/// the write is about, once a statement has said which it is.
pub struct Progress {
    pub book: BookView,
    pub place: Option<int>,
}

/// The id of a stored step.
pub open spec fn step_id() -> spec_fn(StepView) -> i32 {
    |s: StepView| s.id->0
}

/// The id of a stored ingredient line.
pub open spec fn line_id() -> spec_fn(RecipeIngredientView) -> i32 {
    |l: RecipeIngredientView| l.id->0
}

/// The book with other steps for the recipe at `place`.
pub open spec fn with_steps(book: BookView, place: int, steps: Seq<StepView>) -> BookView {
    BookView {
        recipes: book.recipes.update(place, RecipeView { steps, ..book.recipes[place] }),
        ..book
    }
}

/// The book with other ingredient lines for the recipe at `place`.
pub open spec fn with_lines(book: BookView, place: int, lines: Seq<RecipeIngredientView>) -> BookView {
    BookView {
        recipes: book.recipes.update(
            place,
            RecipeView { ingredients: lines, ..book.recipes[place] },
        ),
        ..book
    }
}

/// The recipe that a row makes when it is added: under the next id, without
/// children.
pub open spec fn added_recipe(book: BookView, row: RecipeRowView) -> RecipeView {
    RecipeView {
        id: Some(book.next_recipe_id as i32),
        title: row.title,
        description: row.description,
        author: row.author,
        prep_time: row.prep_time,
        cook_time: row.cook_time,
        inactive_time: row.inactive_time,
        yield_quantity: row.yield_quantity,
        yield_units: row_of(book.units, row.yield_units),
        ingredients: Seq::empty(),
        steps: Seq::empty(),
    }
}

/// The stored recipe overwritten by a row: its id and its children stay.
pub open spec fn rewritten_recipe(book: BookView, stored: RecipeView, row: RecipeRowView) -> RecipeView {
    RecipeView {
        title: row.title,
        description: row.description,
        author: row.author,
        prep_time: row.prep_time,
        cook_time: row.cook_time,
        inactive_time: row.inactive_time,
        yield_quantity: row.yield_quantity,
        yield_units: row_of(book.units, row.yield_units),
        ..stored
    }
}

/// The step that a statement writes into the recipe `recipe_id`, under
/// `id`.
pub open spec fn written_step(
    id: int,
    recipe_id: Option<i32>,
    ordinal: i32,
    instruction: Seq<char>,
) -> StepView {
    StepView { id: Some(id as i32), recipe_id, ordinal, instruction }
}

/// The ingredient line that a statement writes into the recipe
/// `recipe_id`, under `id`: its ingredient and its unit are the rows that
/// the tables of the book have for the names.
pub open spec fn written_line(
    book: BookView,
    id: int,
    recipe_id: Option<i32>,
    ingredient: Seq<char>,
    quantity: i32,
    units: Seq<char>,
    preparation: Seq<char>,
) -> RecipeIngredientView {
    RecipeIngredientView {
        id: Some(id as i32),
        recipe_id,
        ingredient: row_of(book.ingredients, ingredient),
        quantity,
        units: row_of(book.units, units),
        preparation,
    }
}

/// The write after one more statement. A statement about a child does
/// nothing before a statement has said which recipe the write is about.
pub open spec fn carry_out(progress: Progress, statement: StatementView) -> Progress {
    let book = progress.book;
    match statement {
        StatementView::ResolveNames { kind, names } => Progress {
            book: after_resolve(book, kind, names),
            ..progress
        },
        StatementView::InsertRecipe { row } => Progress {
            book: BookView {
                recipes: book.recipes.push(added_recipe(book, row)),
                next_recipe_id: book.next_recipe_id + 1,
                ..book
            },
            place: Some(book.recipes.len() as int),
        },
        StatementView::UpdateRecipe { id, row } => {
            let place = place_of(book, id);
            Progress {
                book: BookView {
                    recipes: book.recipes.update(
                        place,
                        rewritten_recipe(book, book.recipes[place], row),
                    ),
                    ..book
                },
                place: Some(place),
            }
        },
        StatementView::InsertStep { ordinal, instruction } => match progress.place {
            Some(place) => {
                let recipe = book.recipes[place];
                let step = written_step(book.next_step_id, recipe.id, ordinal, instruction);
                Progress {
                    book: BookView {
                        next_step_id: book.next_step_id + 1,
                        ..with_steps(book, place, apply(recipe.steps, step_id(), Change::Add(step)))
                    },
                    ..progress
                }
            },
            None => progress,
        },
        StatementView::UpdateStep { id, ordinal, instruction } => match progress.place {
            Some(place) => {
                let recipe = book.recipes[place];
                let step = written_step(id as int, recipe.id, ordinal, instruction);
                Progress {
                    book: with_steps(book, place, apply(recipe.steps, step_id(), Change::Put(step))),
                    ..progress
                }
            },
            None => progress,
        },
        StatementView::DeleteStep { id } => match progress.place {
            Some(place) => Progress {
                book: with_steps(
                    book,
                    place,
                    apply(book.recipes[place].steps, step_id(), Change::Remove(id)),
                ),
                ..progress
            },
            None => progress,
        },
        StatementView::InsertLine {
            ingredient,
            quantity,
            units,
            preparation,
        } => match progress.place {
            Some(place) => {
                let recipe = book.recipes[place];
                let line = written_line(
                    book,
                    book.next_line_id,
                    recipe.id,
                    ingredient,
                    quantity,
                    units,
                    preparation,
                );
                Progress {
                    book: BookView {
                        next_line_id: book.next_line_id + 1,
                        ..with_lines(
                            book,
                            place,
                            apply(recipe.ingredients, line_id(), Change::Add(line)),
                        )
                    },
                    ..progress
                }
            },
            None => progress,
        },
        StatementView::UpdateLine {
            id,
            ingredient,
            quantity,
            units,
            preparation,
        } => match progress.place {
            Some(place) => {
                let recipe = book.recipes[place];
                let line = written_line(
                    book,
                    id as int,
                    recipe.id,
                    ingredient,
                    quantity,
                    units,
                    preparation,
                );
                Progress {
                    book: with_lines(
                        book,
                        place,
                        apply(recipe.ingredients, line_id(), Change::Put(line)),
                    ),
                    ..progress
                }
            },
            None => progress,
        },
        StatementView::DeleteLine { id } => match progress.place {
            Some(place) => Progress {
                book: with_lines(
                    book,
                    place,
                    apply(book.recipes[place].ingredients, line_id(), Change::Remove(id)),
                ),
                ..progress
            },
            None => progress,
        },
    }
}

/// The write after the statements, carried out first to last.
pub open spec fn carry_out_all(progress: Progress, statements: Seq<StatementView>) -> Progress
    decreases statements.len(),
{
    if statements.len() == 0 {
        progress
    } else {
        carry_out(carry_out_all(progress, statements.drop_last()), statements.last())
    }
}

/// Statements carried out one list after the other are the statements of
/// both lists carried out in a row.
pub proof fn lemma_carry_out_in_a_row(
    progress: Progress,
    first: Seq<StatementView>,
    then: Seq<StatementView>,
)
    ensures
        carry_out_all(progress, first + then) == carry_out_all(
            carry_out_all(progress, first),
            then,
        ),
    decreases then.len(),
{
    if then.len() == 0 {
        assert(first + then =~= first);
    } else {
        lemma_carry_out_in_a_row(progress, first, then.drop_last());
        assert((first + then).drop_last() =~= first + then.drop_last());
        assert((first + then).last() == then.last());
    }
}

/// The step that fills a slot: the step of the update that the slot names,
/// as it is stored under the id of the slot.
pub open spec fn step_filler(given: Seq<StepView>, recipe_id: i32) -> spec_fn(SlotView) -> StepView {
    |slot: SlotView| stored_step(given[slot.source], slot.id, recipe_id)
}

/// The ingredient line that fills a slot: the line of the update that the
/// slot names, as it is stored under the id of the slot.
pub open spec fn line_filler(
    given: Seq<RecipeIngredientView>,
    recipe_id: i32,
    ingredients: Seq<Seq<char>>,
    units: Seq<Seq<char>>,
) -> spec_fn(SlotView) -> RecipeIngredientView {
    |slot: SlotView| stored_line(given[slot.source], slot.id, recipe_id, ingredients, units)
}

/// Carrying out the statements that overwrite steps makes the changes that
/// put the steps which fill the slots.
pub proof fn lemma_step_updates_carried(
    progress: Progress,
    place: int,
    recipe_id: i32,
    slots: Seq<SlotView>,
    given: Seq<StepView>,
    statements: Seq<StatementView>,
)
    requires
        progress.place == Some(place),
        0 <= place < progress.book.recipes.len(),
        progress.book.recipes[place].id == Some(recipe_id),
        statements.len() == slots.len(),
        forall|k: int| 0 <= k < slots.len() ==> 1 <= (#[trigger] slots[k]).id <= MAX_ID,
        forall|k: int|
            0 <= k < slots.len() ==> #[trigger] statements[k] == update_step(
                slots[k].id as i32,
                given[slots[k].source],
            ),
    ensures
        carry_out_all(progress, statements) == (Progress {
            book: with_steps(
                progress.book,
                place,
                apply_all(
                    progress.book.recipes[place].steps,
                    step_id(),
                    puts(slots, step_filler(given, recipe_id)),
                ),
            ),
            place: Some(place),
        }),
    decreases slots.len(),
{
    let book = progress.book;
    let start = book.recipes[place].steps;
    let filler = step_filler(given, recipe_id);
    if slots.len() == 0 {
        assert(with_steps(book, place, start).recipes =~= book.recipes);
    } else {
        let rest = slots.drop_last();
        let last = slots.last();
        assert forall|k: int| 0 <= k < rest.len() implies #[trigger] statements.drop_last()[k]
            == update_step(rest[k].id as i32, given[rest[k].source]) by {
            assert(rest[k] == slots[k]);
            assert(statements.drop_last()[k] == statements[k]);
        }
        assert forall|k: int| 0 <= k < rest.len() implies 1 <= (#[trigger] rest[k]).id
            <= MAX_ID by {
            assert(rest[k] == slots[k]);
        }
        lemma_step_updates_carried(progress, place, recipe_id, rest, given, statements.drop_last());
        let before = apply_all(start, step_id(), puts(rest, filler));
        let middle = with_steps(book, place, before);
        assert(puts(slots, filler).drop_last() =~= puts(rest, filler));
        assert(puts(slots, filler).last() == Change::Put(filler(last)));
        assert(statements.last() == update_step(last.id as i32, given[last.source]));
        assert(1 <= slots[slots.len() - 1].id <= MAX_ID);
        assert(written_step(
            (last.id as i32) as int,
            Some(recipe_id),
            given[last.source].ordinal,
            given[last.source].instruction,
        ) == filler(last));
        let after = apply(before, step_id(), Change::Put(filler(last)));
        assert(with_steps(middle, place, after).recipes =~= with_steps(book, place, after).recipes);
    }
}

/// Carrying out the statements that add steps makes the changes that add
/// the steps which fill the slots, each under the next id.
pub proof fn lemma_step_inserts_carried(
    progress: Progress,
    place: int,
    recipe_id: i32,
    slots: Seq<SlotView>,
    given: Seq<StepView>,
    statements: Seq<StatementView>,
)
    requires
        progress.place == Some(place),
        0 <= place < progress.book.recipes.len(),
        progress.book.recipes[place].id == Some(recipe_id),
        statements.len() == slots.len(),
        forall|k: int|
            0 <= k < slots.len() ==> (#[trigger] slots[k]).id == progress.book.next_step_id + k,
        forall|k: int|
            0 <= k < slots.len() ==> #[trigger] statements[k] == insert_step(
                given[slots[k].source],
            ),
    ensures
        carry_out_all(progress, statements) == (Progress {
            book: BookView {
                next_step_id: progress.book.next_step_id + slots.len(),
                ..with_steps(
                    progress.book,
                    place,
                    apply_all(
                        progress.book.recipes[place].steps,
                        step_id(),
                        adds(slots, step_filler(given, recipe_id)),
                    ),
                )
            },
            place: Some(place),
        }),
    decreases slots.len(),
{
    let book = progress.book;
    let start = book.recipes[place].steps;
    let filler = step_filler(given, recipe_id);
    if slots.len() == 0 {
        assert(with_steps(book, place, start).recipes =~= book.recipes);
    } else {
        let rest = slots.drop_last();
        let last = slots.last();
        assert forall|k: int| 0 <= k < rest.len() implies #[trigger] statements.drop_last()[k]
            == insert_step(given[rest[k].source]) by {
            assert(rest[k] == slots[k]);
            assert(statements.drop_last()[k] == statements[k]);
        }
        assert forall|k: int| 0 <= k < rest.len() implies (#[trigger] rest[k]).id
            == book.next_step_id + k by {
            assert(rest[k] == slots[k]);
        }
        lemma_step_inserts_carried(progress, place, recipe_id, rest, given, statements.drop_last());
        let before = apply_all(start, step_id(), adds(rest, filler));
        let middle = BookView {
            next_step_id: book.next_step_id + rest.len(),
            ..with_steps(book, place, before)
        };
        assert(adds(slots, filler).drop_last() =~= adds(rest, filler));
        assert(adds(slots, filler).last() == Change::Add(filler(last)));
        assert(statements.last() == insert_step(given[last.source]));
        assert(slots[slots.len() - 1].id == book.next_step_id + (slots.len() - 1));
        assert(written_step(
            middle.next_step_id,
            Some(recipe_id),
            given[last.source].ordinal,
            given[last.source].instruction,
        ) == filler(last));
        let after = apply(before, step_id(), Change::Add(filler(last)));
        assert(with_steps(middle, place, after).recipes =~= with_steps(book, place, after).recipes);
    }
}

/// Carrying out the statements that delete steps makes the changes that
/// remove the steps with these ids.
pub proof fn lemma_step_deletes_carried(
    progress: Progress,
    place: int,
    gone: Seq<i32>,
    statements: Seq<StatementView>,
)
    requires
        progress.place == Some(place),
        0 <= place < progress.book.recipes.len(),
        statements.len() == gone.len(),
        forall|k: int|
            0 <= k < gone.len() ==> #[trigger] statements[k] == (StatementView::DeleteStep {
                id: gone[k],
            }),
    ensures
        carry_out_all(progress, statements) == (Progress {
            book: with_steps(
                progress.book,
                place,
                apply_all(progress.book.recipes[place].steps, step_id(), removes(gone)),
            ),
            place: Some(place),
        }),
    decreases gone.len(),
{
    let book = progress.book;
    let start = book.recipes[place].steps;
    if gone.len() == 0 {
        assert(with_steps(book, place, start).recipes =~= book.recipes);
    } else {
        let rest = gone.drop_last();
        assert forall|k: int| 0 <= k < rest.len() implies #[trigger] statements.drop_last()[k] == (
        StatementView::DeleteStep { id: rest[k] }) by {
            assert(rest[k] == gone[k]);
            assert(statements.drop_last()[k] == statements[k]);
        }
        lemma_step_deletes_carried(progress, place, rest, statements.drop_last());
        let before = apply_all(start, step_id(), removes::<StepView>(rest));
        let middle = with_steps(book, place, before);
        assert(removes::<StepView>(gone).drop_last() =~= removes::<StepView>(rest));
        assert(removes::<StepView>(gone).last() == Change::<StepView>::Remove(gone.last()));
        assert(statements.last() == (StatementView::DeleteStep { id: gone[gone.len() - 1] }));
        let after = apply(before, step_id(), Change::Remove(gone.last()));
        assert(with_steps(middle, place, after).recipes =~= with_steps(book, place, after).recipes);
    }
}

/// Carrying out the statements that overwrite ingredient lines makes the
/// changes that put the lines which fill the slots.
pub proof fn lemma_line_updates_carried(
    progress: Progress,
    place: int,
    recipe_id: i32,
    slots: Seq<SlotView>,
    given: Seq<RecipeIngredientView>,
    statements: Seq<StatementView>,
)
    requires
        progress.place == Some(place),
        0 <= place < progress.book.recipes.len(),
        progress.book.recipes[place].id == Some(recipe_id),
        statements.len() == slots.len(),
        forall|k: int| 0 <= k < slots.len() ==> 1 <= (#[trigger] slots[k]).id <= MAX_ID,
        forall|k: int|
            0 <= k < slots.len() ==> #[trigger] statements[k] == update_line(
                slots[k].id as i32,
                given[slots[k].source],
            ),
    ensures
        carry_out_all(progress, statements) == (Progress {
            book: with_lines(
                progress.book,
                place,
                apply_all(
                    progress.book.recipes[place].ingredients,
                    line_id(),
                    puts(
                        slots,
                        line_filler(
                            given,
                            recipe_id,
                            progress.book.ingredients,
                            progress.book.units,
                        ),
                    ),
                ),
            ),
            place: Some(place),
        }),
    decreases slots.len(),
{
    let book = progress.book;
    let start = book.recipes[place].ingredients;
    let filler = line_filler(given, recipe_id, book.ingredients, book.units);
    if slots.len() == 0 {
        assert(with_lines(book, place, start).recipes =~= book.recipes);
    } else {
        let rest = slots.drop_last();
        let last = slots.last();
        assert forall|k: int| 0 <= k < rest.len() implies #[trigger] statements.drop_last()[k]
            == update_line(rest[k].id as i32, given[rest[k].source]) by {
            assert(rest[k] == slots[k]);
            assert(statements.drop_last()[k] == statements[k]);
        }
        assert forall|k: int| 0 <= k < rest.len() implies 1 <= (#[trigger] rest[k]).id
            <= MAX_ID by {
            assert(rest[k] == slots[k]);
        }
        lemma_line_updates_carried(progress, place, recipe_id, rest, given, statements.drop_last());
        let before = apply_all(start, line_id(), puts(rest, filler));
        let middle = with_lines(book, place, before);
        assert(puts(slots, filler).drop_last() =~= puts(rest, filler));
        assert(puts(slots, filler).last() == Change::Put(filler(last)));
        assert(statements.last() == update_line(last.id as i32, given[last.source]));
        assert(1 <= slots[slots.len() - 1].id <= MAX_ID);
        assert(written_line(
            middle,
            (last.id as i32) as int,
            Some(recipe_id),
            given[last.source].ingredient.name,
            given[last.source].quantity,
            given[last.source].units.name,
            given[last.source].preparation,
        ) == filler(last));
        let after = apply(before, line_id(), Change::Put(filler(last)));
        assert(with_lines(middle, place, after).recipes =~= with_lines(book, place, after).recipes);
    }
}

/// Carrying out the statements that add ingredient lines makes the changes
/// that add the lines which fill the slots, each under the next id.
pub proof fn lemma_line_inserts_carried(
    progress: Progress,
    place: int,
    recipe_id: i32,
    slots: Seq<SlotView>,
    given: Seq<RecipeIngredientView>,
    statements: Seq<StatementView>,
)
    requires
        progress.place == Some(place),
        0 <= place < progress.book.recipes.len(),
        progress.book.recipes[place].id == Some(recipe_id),
        statements.len() == slots.len(),
        forall|k: int|
            0 <= k < slots.len() ==> (#[trigger] slots[k]).id == progress.book.next_line_id + k,
        forall|k: int|
            0 <= k < slots.len() ==> #[trigger] statements[k] == insert_line(
                given[slots[k].source],
            ),
    ensures
        carry_out_all(progress, statements) == (Progress {
            book: BookView {
                next_line_id: progress.book.next_line_id + slots.len(),
                ..with_lines(
                    progress.book,
                    place,
                    apply_all(
                        progress.book.recipes[place].ingredients,
                        line_id(),
                        adds(
                            slots,
                            line_filler(
                                given,
                                recipe_id,
                                progress.book.ingredients,
                                progress.book.units,
                            ),
                        ),
                    ),
                )
            },
            place: Some(place),
        }),
    decreases slots.len(),
{
    let book = progress.book;
    let start = book.recipes[place].ingredients;
    let filler = line_filler(given, recipe_id, book.ingredients, book.units);
    if slots.len() == 0 {
        assert(with_lines(book, place, start).recipes =~= book.recipes);
    } else {
        let rest = slots.drop_last();
        let last = slots.last();
        assert forall|k: int| 0 <= k < rest.len() implies #[trigger] statements.drop_last()[k]
            == insert_line(given[rest[k].source]) by {
            assert(rest[k] == slots[k]);
            assert(statements.drop_last()[k] == statements[k]);
        }
        assert forall|k: int| 0 <= k < rest.len() implies (#[trigger] rest[k]).id
            == book.next_line_id + k by {
            assert(rest[k] == slots[k]);
        }
        lemma_line_inserts_carried(progress, place, recipe_id, rest, given, statements.drop_last());
        let before = apply_all(start, line_id(), adds(rest, filler));
        let middle = BookView {
            next_line_id: book.next_line_id + rest.len(),
            ..with_lines(book, place, before)
        };
        assert(adds(slots, filler).drop_last() =~= adds(rest, filler));
        assert(adds(slots, filler).last() == Change::Add(filler(last)));
        assert(statements.last() == insert_line(given[last.source]));
        assert(slots[slots.len() - 1].id == book.next_line_id + (slots.len() - 1));
        assert(written_line(
            middle,
            middle.next_line_id,
            Some(recipe_id),
            given[last.source].ingredient.name,
            given[last.source].quantity,
            given[last.source].units.name,
            given[last.source].preparation,
        ) == filler(last));
        let after = apply(before, line_id(), Change::Add(filler(last)));
        assert(with_lines(middle, place, after).recipes =~= with_lines(book, place, after).recipes);
    }
}

/// Carrying out the statements that delete ingredient lines makes the
/// changes that remove the lines with these ids.
pub proof fn lemma_line_deletes_carried(
    progress: Progress,
    place: int,
    gone: Seq<i32>,
    statements: Seq<StatementView>,
)
    requires
        progress.place == Some(place),
        0 <= place < progress.book.recipes.len(),
        statements.len() == gone.len(),
        forall|k: int|
            0 <= k < gone.len() ==> #[trigger] statements[k] == (StatementView::DeleteLine {
                id: gone[k],
            }),
    ensures
        carry_out_all(progress, statements) == (Progress {
            book: with_lines(
                progress.book,
                place,
                apply_all(progress.book.recipes[place].ingredients, line_id(), removes(gone)),
            ),
            place: Some(place),
        }),
    decreases gone.len(),
{
    let book = progress.book;
    let start = book.recipes[place].ingredients;
    if gone.len() == 0 {
        assert(with_lines(book, place, start).recipes =~= book.recipes);
    } else {
        let rest = gone.drop_last();
        assert forall|k: int| 0 <= k < rest.len() implies #[trigger] statements.drop_last()[k] == (
        StatementView::DeleteLine { id: rest[k] }) by {
            assert(rest[k] == gone[k]);
            assert(statements.drop_last()[k] == statements[k]);
        }
        lemma_line_deletes_carried(progress, place, rest, statements.drop_last());
        let before = apply_all(start, line_id(), removes::<RecipeIngredientView>(rest));
        let middle = with_lines(book, place, before);
        assert(removes::<RecipeIngredientView>(gone).drop_last() =~= removes::<
            RecipeIngredientView,
        >(rest));
        assert(removes::<RecipeIngredientView>(gone).last() == Change::<
            RecipeIngredientView,
        >::Remove(gone.last()));
        assert(statements.last() == (StatementView::DeleteLine { id: gone[gone.len() - 1] }));
        let after = apply(before, line_id(), Change::Remove(gone.last()));
        assert(with_lines(middle, place, after).recipes =~= with_lines(book, place, after).recipes);
    }
}

/// Carrying out the statements that reconcile the steps of a recipe leaves
/// the recipe with the steps that the book says it has after the update,
/// and the counter of steps past the ids of the new ones.
pub proof fn lemma_steps_are_reconciled(
    progress: Progress,
    place: int,
    recipe_id: i32,
    given: Seq<StepView>,
)
    requires
        progress.place == Some(place),
        0 <= place < progress.book.recipes.len(),
        progress.book.recipes[place].id == Some(recipe_id),
        rising(step_ids(progress.book.recipes[place].steps)),
        1 <= progress.book.next_step_id,
        forall|j: int|
            0 <= j < progress.book.recipes[place].steps.len() ==> 1 <= #[trigger] step_ids(
                progress.book.recipes[place].steps,
            )[j] < progress.book.next_step_id,
        next_after(
            step_ids(progress.book.recipes[place].steps),
            step_wanted(given),
            progress.book.next_step_id,
        ) <= MAX_ID + 1,
    ensures
        carry_out_all(
            progress,
            step_reconciliation(step_ids(progress.book.recipes[place].steps), given),
        ) == (Progress {
            book: BookView {
                next_step_id: next_after(
                    step_ids(progress.book.recipes[place].steps),
                    step_wanted(given),
                    progress.book.next_step_id,
                ),
                ..with_steps(
                    progress.book,
                    place,
                    reconciled_steps(
                        progress.book.recipes[place].steps,
                        given,
                        recipe_id,
                        progress.book.next_step_id,
                    ),
                )
            },
            place: Some(place),
        }),
{
    let book = progress.book;
    let start = book.recipes[place].steps;
    let stored = step_ids(start);
    let wanted = step_wanted(given);
    let next = book.next_step_id;
    let filler = step_filler(given, recipe_id);
    let ups = updates(stored, wanted);
    let ins = inserts(stored, wanted, next);
    let gone = dropped(stored, wanted);
    let all = outcome(stored, wanted, next);
    lemma_rising_is_distinct(stored);
    lemma_outcome_is_sound(stored, wanted, next);
    assert(ids_of(start, step_id()) =~= stored);
    // the stored steps that stay are overwritten
    assert forall|k: int| 0 <= k < ups.len() implies 1 <= (#[trigger] ups[k]).id <= MAX_ID by {
        assert(all[k] == ups[k]);
    }
    lemma_step_updates_carried(progress, place, recipe_id, ups, given, step_updates(stored, given));
    let first = carry_out_all(progress, step_updates(stored, given));
    let overwritten = apply_all(start, step_id(), puts(ups, filler));
    assert(first.book.recipes[place].steps == overwritten);
    // the new steps are added
    assert forall|k: int| 0 <= k < ins.len() implies (#[trigger] ins[k]).id == next + k by {}
    assert forall|k: int| 0 <= k < ins.len() implies #[trigger] step_inserts(stored, given)[k]
        == insert_step(given[ins[k].source]) by {
        assert(inserts(stored, wanted, 1)[k].source == ins[k].source);
    }
    lemma_step_inserts_carried(first, place, recipe_id, ins, given, step_inserts(stored, given));
    let second = carry_out_all(first, step_inserts(stored, given));
    let grown = apply_all(overwritten, step_id(), adds(ins, filler));
    assert(second.book.recipes[place].steps == grown);
    // the stored steps that are dropped are deleted
    lemma_step_deletes_carried(second, place, gone, step_deletes(stored, given));
    let third = carry_out_all(second, step_deletes(stored, given));
    let left = apply_all(grown, step_id(), removes(gone));
    // in a row, these are the statements of the reconciliation
    lemma_carry_out_in_a_row(progress, step_updates(stored, given), step_inserts(stored, given));
    lemma_carry_out_in_a_row(
        progress,
        step_updates(stored, given) + step_inserts(stored, given),
        step_deletes(stored, given),
    );
    assert(carry_out_all(progress, step_reconciliation(stored, given)) == third);
    // and the changes are those of the plan
    lemma_apply_all_in_a_row(start, step_id(), puts(ups, filler), adds(ins, filler));
    lemma_apply_all_in_a_row(
        start,
        step_id(),
        puts(ups, filler) + adds(ins, filler),
        removes(gone),
    );
    assert(left == apply_all(start, step_id(), plan_changes(stored, wanted, next, filler)));
    assert forall|k: int| 0 <= k < all.len() implies step_id()(filler(#[trigger] all[k]))
        == all[k].id by {
        assert(1 <= all[k].id < next_after(stored, wanted, next));
    }
    lemma_changes_leave_the_outcome(start, step_id(), wanted, next, filler);
    assert(all.map_values(filler) =~= reconciled_steps(start, given, recipe_id, next));
    assert(third.book.recipes =~= with_steps(
        book,
        place,
        reconciled_steps(start, given, recipe_id, next),
    ).recipes);
}

/// Carrying out the statements that reconcile the ingredient lines of a
/// recipe leaves the recipe with the lines that the book says it has after
/// the update, and the counter of lines past the ids of the new ones.
pub proof fn lemma_lines_are_reconciled(
    progress: Progress,
    place: int,
    recipe_id: i32,
    given: Seq<RecipeIngredientView>,
)
    requires
        progress.place == Some(place),
        0 <= place < progress.book.recipes.len(),
        progress.book.recipes[place].id == Some(recipe_id),
        rising(line_ids(progress.book.recipes[place].ingredients)),
        1 <= progress.book.next_line_id,
        forall|j: int|
            0 <= j < progress.book.recipes[place].ingredients.len() ==> 1 <= #[trigger] line_ids(
                progress.book.recipes[place].ingredients,
            )[j] < progress.book.next_line_id,
        next_after(
            line_ids(progress.book.recipes[place].ingredients),
            line_wanted(given),
            progress.book.next_line_id,
        ) <= MAX_ID + 1,
    ensures
        carry_out_all(
            progress,
            line_reconciliation(line_ids(progress.book.recipes[place].ingredients), given),
        ) == (Progress {
            book: BookView {
                next_line_id: next_after(
                    line_ids(progress.book.recipes[place].ingredients),
                    line_wanted(given),
                    progress.book.next_line_id,
                ),
                ..with_lines(
                    progress.book,
                    place,
                    reconciled_lines(
                        progress.book.recipes[place].ingredients,
                        given,
                        recipe_id,
                        progress.book.next_line_id,
                        progress.book.ingredients,
                        progress.book.units,
                    ),
                )
            },
            place: Some(place),
        }),
{
    let book = progress.book;
    let start = book.recipes[place].ingredients;
    let stored = line_ids(start);
    let wanted = line_wanted(given);
    let next = book.next_line_id;
    let filler = line_filler(given, recipe_id, book.ingredients, book.units);
    let ups = updates(stored, wanted);
    let ins = inserts(stored, wanted, next);
    let gone = dropped(stored, wanted);
    let all = outcome(stored, wanted, next);
    lemma_rising_is_distinct(stored);
    lemma_outcome_is_sound(stored, wanted, next);
    assert(ids_of(start, line_id()) =~= stored);
    // the stored lines that stay are overwritten
    assert forall|k: int| 0 <= k < ups.len() implies 1 <= (#[trigger] ups[k]).id <= MAX_ID by {
        assert(all[k] == ups[k]);
    }
    lemma_line_updates_carried(progress, place, recipe_id, ups, given, line_updates(stored, given));
    let first = carry_out_all(progress, line_updates(stored, given));
    let overwritten = apply_all(start, line_id(), puts(ups, filler));
    assert(first.book.recipes[place].ingredients == overwritten);
    // the new lines are added
    assert forall|k: int| 0 <= k < ins.len() implies (#[trigger] ins[k]).id == next + k by {}
    assert forall|k: int| 0 <= k < ins.len() implies #[trigger] line_inserts(stored, given)[k]
        == insert_line(given[ins[k].source]) by {
        assert(inserts(stored, wanted, 1)[k].source == ins[k].source);
    }
    lemma_line_inserts_carried(first, place, recipe_id, ins, given, line_inserts(stored, given));
    let second = carry_out_all(first, line_inserts(stored, given));
    let grown = apply_all(overwritten, line_id(), adds(ins, filler));
    assert(second.book.recipes[place].ingredients == grown);
    // the stored lines that are dropped are deleted
    lemma_line_deletes_carried(second, place, gone, line_deletes(stored, given));
    let third = carry_out_all(second, line_deletes(stored, given));
    let left = apply_all(grown, line_id(), removes(gone));
    // in a row, these are the statements of the reconciliation
    lemma_carry_out_in_a_row(progress, line_updates(stored, given), line_inserts(stored, given));
    lemma_carry_out_in_a_row(
        progress,
        line_updates(stored, given) + line_inserts(stored, given),
        line_deletes(stored, given),
    );
    assert(carry_out_all(progress, line_reconciliation(stored, given)) == third);
    // and the changes are those of the plan
    lemma_apply_all_in_a_row(start, line_id(), puts(ups, filler), adds(ins, filler));
    lemma_apply_all_in_a_row(
        start,
        line_id(),
        puts(ups, filler) + adds(ins, filler),
        removes(gone),
    );
    assert(left == apply_all(start, line_id(), plan_changes(stored, wanted, next, filler)));
    assert forall|k: int| 0 <= k < all.len() implies line_id()(filler(#[trigger] all[k]))
        == all[k].id by {
        assert(1 <= all[k].id < next_after(stored, wanted, next));
    }
    lemma_changes_leave_the_outcome(start, line_id(), wanted, next, filler);
    assert(all.map_values(filler) =~= reconciled_lines(
        start,
        given,
        recipe_id,
        next,
        book.ingredients,
        book.units,
    ));
    assert(third.book.recipes =~= with_lines(
        book,
        place,
        reconciled_lines(start, given, recipe_id, next, book.ingredients, book.units),
    ).recipes);
}

/// One more statement at the end is carried out after the others.
pub proof fn lemma_carry_out_one_more(
    progress: Progress,
    statements: Seq<StatementView>,
    last: StatementView,
)
    ensures
        carry_out_all(progress, statements.push(last)) == carry_out(
            carry_out_all(progress, statements),
            last,
        ),
{
    assert(statements.push(last).drop_last() =~= statements);
}

/// Carrying out the statements that resolve the names of a recipe gives
/// each name its row, and changes nothing else.
pub proof fn lemma_names_are_resolved(progress: Progress, given: RecipeView)
    ensures
        carry_out_all(progress, resolving(given)) == (Progress {
            book: after_resolve(
                after_resolve(progress.book, ReferenceKind::Ingredient, ingredient_names(given)),
                ReferenceKind::Unit,
                unit_names(given),
            ),
            ..progress
        }),
{
    let first = StatementView::ResolveNames {
        kind: ReferenceKind::Ingredient,
        names: ingredient_names(given),
    };
    let second = StatementView::ResolveNames {
        kind: ReferenceKind::Unit,
        names: unit_names(given),
    };
    let none = Seq::<StatementView>::empty();
    assert(resolving(given) =~= none.push(first).push(second));
    lemma_carry_out_one_more(progress, none, first);
    lemma_carry_out_one_more(progress, none.push(first), second);
}

/// An update that the book accepts has its statements, and carrying them
/// out makes of the book what the book says of the update: the recipe
/// stands where it stood with its new contents, its children reconciled,
/// and nothing else has changed but the rows that the names called for.
pub proof fn lemma_update_is_carried_out(book: BookView, given: RecipeView)
    requires
        book_wf(book),
        update_refusal(book, given) is None,
    ensures
        reconciliation_refusal(
            given,
            step_ids(book.recipes[place_of(book, given.id->0)].steps),
            line_ids(book.recipes[place_of(book, given.id->0)].ingredients),
        ) is None,
        carry_out_all(
            Progress { book, place: None },
            reconciliation(
                given,
                step_ids(book.recipes[place_of(book, given.id->0)].steps),
                line_ids(book.recipes[place_of(book, given.id->0)].ingredients),
            ),
        ) == (Progress {
            book: after_update(book, given),
            place: Some(place_of(book, given.id->0)),
        }),
{
    let id = given.id->0;
    let place = place_of(book, id);
    let stored = book.recipes[place];
    let start = Progress { book, place: None };
    lemma_update_keeps_wf(book, given);
    lemma_stored_ids(book, place);
    // the names are resolved
    let named = after_resolve(
        after_resolve(book, ReferenceKind::Ingredient, ingredient_names(given)),
        ReferenceKind::Unit,
        unit_names(given),
    );
    lemma_names_are_resolved(start, given);
    lemma_resolve_keeps_wf(book, ReferenceKind::Ingredient, ingredient_names(given));
    lemma_resolve_keeps_wf(
        after_resolve(book, ReferenceKind::Ingredient, ingredient_names(given)),
        ReferenceKind::Unit,
        unit_names(given),
    );
    assert(named.recipes == book.recipes);
    lemma_place_is_unique(named, place);
    // the recipe is overwritten
    let overwrite = StatementView::UpdateRecipe { id, row: row_for(given) };
    lemma_carry_out_one_more(start, resolving(given), overwrite);
    let head = resolving(given).push(overwrite);
    let written = carry_out_all(start, head);
    assert(written.place == Some(place));
    assert(written.book.recipes[place].steps == stored.steps);
    assert(written.book.recipes[place].ingredients == stored.ingredients);
    // its steps are reconciled, then its ingredient lines
    lemma_steps_are_reconciled(written, place, id, given.steps);
    let stepped = carry_out_all(written, step_reconciliation(step_ids(stored.steps), given.steps));
    assert(stepped.book.recipes[place].ingredients == stored.ingredients);
    lemma_lines_are_reconciled(stepped, place, id, given.ingredients);
    let done = carry_out_all(
        stepped,
        line_reconciliation(line_ids(stored.ingredients), given.ingredients),
    );
    lemma_carry_out_in_a_row(start, head, step_reconciliation(step_ids(stored.steps), given.steps));
    lemma_carry_out_in_a_row(
        start,
        head + step_reconciliation(step_ids(stored.steps), given.steps),
        line_reconciliation(line_ids(stored.ingredients), given.ingredients),
    );
    assert(done.book.recipes =~= after_update(book, given).recipes);
    assert(done.book == after_update(book, given));
}

/// A creation that the book accepts has its statements, and carrying them
/// out makes of the book what the book says of the creation: the recipe is
/// added at the end with all its children, each under the next id, and
/// nothing else has changed but the rows that the names called for.
pub proof fn lemma_creation_is_carried_out(book: BookView, given: RecipeView)
    requires
        book_wf(book),
        create_refusal(book, given) is None,
    ensures
        creation_refusal(given) is None,
        carry_out_all(Progress { book, place: None }, creation(given)) == (Progress {
            book: after_create(book, given),
            place: Some(book.recipes.len() as int),
        }),
{
    let start = Progress { book, place: None };
    let place = book.recipes.len() as int;
    let id = book.next_recipe_id as i32;
    // the names are resolved
    lemma_names_are_resolved(start, given);
    // the recipe is added
    let add = StatementView::InsertRecipe { row: row_for(given) };
    lemma_carry_out_one_more(start, resolving(given), add);
    let head = resolving(given).push(add);
    let written = carry_out_all(start, head);
    assert(written.place == Some(place));
    assert(written.book.recipes[place].id == Some(id));
    // its steps are added
    let step_statements = given.steps.map_values(|s: StepView| insert_step(s));
    let step_slots = Seq::new(
        given.steps.len(),
        |k: int| SlotView { id: book.next_step_id + k, source: k },
    );
    lemma_step_inserts_carried(written, place, id, step_slots, given.steps, step_statements);
    let stepped = carry_out_all(written, step_statements);
    lemma_adds(Seq::<StepView>::empty(), step_id(), step_slots, step_filler(given.steps, id));
    assert(written.book.recipes[place].steps =~= Seq::<StepView>::empty());
    assert(stepped.book.recipes[place].steps =~= created_recipe(book, given).steps);
    // its ingredient lines are added
    let line_statements = given.ingredients.map_values(|l: RecipeIngredientView| insert_line(l));
    let line_slots = Seq::new(
        given.ingredients.len(),
        |k: int| SlotView { id: book.next_line_id + k, source: k },
    );
    assert(stepped.book.recipes[place].id == Some(id));
    lemma_line_inserts_carried(stepped, place, id, line_slots, given.ingredients, line_statements);
    let done = carry_out_all(stepped, line_statements);
    lemma_adds(
        Seq::<RecipeIngredientView>::empty(),
        line_id(),
        line_slots,
        line_filler(given.ingredients, id, stepped.book.ingredients, stepped.book.units),
    );
    assert(stepped.book.recipes[place].ingredients =~= Seq::<RecipeIngredientView>::empty());
    assert(done.book.recipes[place].ingredients =~= created_recipe(book, given).ingredients);
    lemma_carry_out_in_a_row(start, head, step_statements);
    lemma_carry_out_in_a_row(start, head + step_statements, line_statements);
    assert(done.book.recipes[place] == created_recipe(book, given));
    assert(done.book.recipes =~= after_create(book, given).recipes);
    assert(done.book == after_create(book, given));
}

} // verus!
