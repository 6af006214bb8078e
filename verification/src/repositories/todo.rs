//! Todos, the rows they are read from, and their repository.

use vstd::prelude::*;

use crate::repositories::folding::{
    entity_of, folded, label_seq, lemma_fold_row_of_known_todo, lemma_fold_row_of_new_todo,
    lemma_fold_single_row, with_label,
};
use crate::repositories::label::{Label, LabelView};
use crate::repositories::{
    classified, classify, is_error_on, ErrorView, StorageFaultView, RepositoryError, StorageFault,
};

pub mod test_utils;

verus! {

/// One row of the join of todos with their labels: a todo paired with at most
/// one label. A todo with several labels comes as several rows that agree on
/// the todo's own fields; a todo without labels comes as one row whose label
/// fields are both absent.
#[derive(Debug, PartialEq, Eq)]
pub struct TodoWithLabelFromRow {
    pub id: i32,
    pub text: String,
    pub completed: bool,
    pub label_id: Option<i32>,
    pub label_name: Option<String>,
}

/// Mathematical model of a [`TodoWithLabelFromRow`]. The row carries a label
/// when both of its label fields are present.
pub struct RowView {
    pub id: i32,
    pub text: Seq<char>,
    pub completed: bool,
    pub label: Option<LabelView>,
}

impl View for TodoWithLabelFromRow {
    type V = RowView;

    open spec fn view(&self) -> RowView {
        RowView {
            id: self.id,
            text: self.text@,
            completed: self.completed,
            label: match (self.label_id, self.label_name) {
                (Some(id), Some(name)) => Some(LabelView { id, name: name@ }),
                _ => None,
            },
        }
    }
}

impl DeepView for TodoWithLabelFromRow {
    type V = RowView;

    open spec fn deep_view(&self) -> RowView {
        self@
    }
}

impl TodoWithLabelFromRow {
    /// The label that the row carries, if it carries one.
    pub fn label(&self) -> (label: Option<Label>)
        ensures
            label.deep_view() == self@.label,
    {
        match (&self.label_id, &self.label_name) {
            (Some(id), Some(name)) => Some(Label { id: *id, name: name.clone() }),
            _ => None,
        }
    }
}

/// A todo as callers see it: its own fields and the labels attached to it, in
/// the order in which the rows it was read from gave them.
#[derive(Debug, PartialEq, Eq)]
pub struct TodoEntity {
    pub id: i32,
    pub text: String,
    pub completed: bool,
    pub labels: Vec<Label>,
}

/// Mathematical model of a [`TodoEntity`].
pub struct TodoView {
    pub id: i32,
    pub text: Seq<char>,
    pub completed: bool,
    pub labels: Seq<LabelView>,
}

impl View for TodoEntity {
    type V = TodoView;

    open spec fn view(&self) -> TodoView {
        TodoView {
            id: self.id,
            text: self.text@,
            completed: self.completed,
            labels: self.labels.deep_view(),
        }
    }
}

impl DeepView for TodoEntity {
    type V = TodoView;

    open spec fn deep_view(&self) -> TodoView {
        self@
    }
}

impl Clone for TodoEntity {
    fn clone(&self) -> (copy: Self)
        ensures
            copy@ == self@,
    {
        let labels = self.labels.clone();
        assert(labels.deep_view() =~= self.labels.deep_view());
        TodoEntity { id: self.id, text: self.text.clone(), completed: self.completed, labels }
    }
}

/// A todo as it is when it has just been created: not completed, and without
/// labels.
pub open spec fn new_todo(id: i32, text: Seq<char>) -> TodoView {
    TodoView { id, text, completed: false, labels: Seq::empty() }
}

impl TodoEntity {
    /// A todo that is not completed and has no labels.
    pub fn new(id: i32, text: String) -> (entity: Self)
        ensures
            entity@ == new_todo(id, text@),
    {
        let entity = TodoEntity { id, text, completed: false, labels: Vec::new() };
        assert(entity.labels.deep_view() =~= Seq::<LabelView>::empty());
        entity
    }
}

/// Index of the entity with the given id, if there is one.
fn position_of(entities: &Vec<TodoEntity>, id: i32) -> (found: Option<usize>)
    ensures
        match found {
            Some(j) => j < entities.len() && entities[j as int].id == id,
            None => forall|k: int| 0 <= k < entities.len() ==> (#[trigger] entities[k]).id != id,
        },
{
    let mut j: usize = 0;
    while j < entities.len()
        invariant
            j <= entities.len(),
            forall|k: int| 0 <= k < j ==> (#[trigger] entities[k]).id != id,
        decreases entities.len() - j,
    {
        if entities[j].id == id {
            return Some(j);
        }
        j += 1;
    }
    None
}

/// Folds the rows of a todo/label join into entities: one entity per todo id,
/// in the order in which the ids first occur, each with the labels of its rows
/// in row order.
pub fn fold_entities(rows: Vec<TodoWithLabelFromRow>) -> (entities: Vec<TodoEntity>)
    ensures
        entities.deep_view() == folded(rows.deep_view()),
{
    let mut accum: Vec<TodoEntity> = Vec::new();
    let mut i: usize = 0;
    while i < rows.len()
        invariant
            i <= rows.len(),
            accum.deep_view() == folded(rows.deep_view().take(i as int)),
        decreases rows.len() - i,
    {
        let row = &rows[i];
        let ghost seen = rows.deep_view().take(i as int);
        proof {
            assert(rows.deep_view().take(i + 1) =~= seen.push(row@));
        }
        match position_of(&accum, row.id) {
            Some(j) => {
                proof {
                    lemma_fold_row_of_known_todo(seen, row@, j as int);
                }
                let ghost before = accum.deep_view();
                match row.label() {
                    Some(label) => {
                        accum[j].labels.push(label);
                    },
                    None => {},
                }
                proof {
                    assert(accum.deep_view() =~= before.update(
                        j as int,
                        with_label(before[j as int], row@.label),
                    )) by {
                        assert(accum.deep_view()[j as int].labels =~= before[j as int].labels
                            + label_seq(row@.label));
                    }
                }
            },
            None => {
                proof {
                    lemma_fold_row_of_new_todo(seen, row@);
                }
                let labels = match row.label() {
                    Some(label) => vec![label],
                    None => Vec::new(),
                };
                let ghost before = accum.deep_view();
                assert(labels.deep_view() =~= label_seq(row@.label));
                accum.push(
                    TodoEntity {
                        id: row.id,
                        text: row.text.clone(),
                        completed: row.completed,
                        labels,
                    },
                );
                assert(accum.deep_view() =~= before.push(entity_of(row@)));
            },
        }
        i += 1;
    }
    proof {
        assert(rows.deep_view().take(rows.len() as int) =~= rows.deep_view());
    }
    accum
}

/// Folds a single row into the one entity that it describes: the row's todo,
/// with the row's label if it carries one.
pub fn fold_entity(row: TodoWithLabelFromRow) -> (entity: TodoEntity)
    ensures
        entity@ == entity_of(row@),
        seq![entity@] == folded(seq![row@]),
{
    proof {
        lemma_fold_single_row(row@);
    }
    let mut rows: Vec<TodoWithLabelFromRow> = Vec::new();
    rows.push(row);
    assert(rows.deep_view() =~= seq![row@]);
    let mut entities = fold_entities(rows);
    let ghost only = entities.deep_view();
    assert(only.len() == 1);
    let entity = entities.remove(0);
    assert(entity@ == only[0]);
    entity
}

/// The least number of characters in the text of a todo.
pub const MIN_TEXT_LENGTH: u64 = 1;

/// The greatest number of characters in the text of a todo.
pub const MAX_TEXT_LENGTH: u64 = 100;

/// Why a text cannot be the text of a todo.
#[derive(Debug, Clone, Copy, PartialEq, Eq, Structural)]
pub enum TextFault {
    /// The text has no characters.
    Empty,
    /// The text has more characters than a todo's text may have.
    TooLong,
}

impl TextFault {
    /// The message that tells a user of the fault.
    pub fn message(&self) -> (message: String)
        ensures
            message@ == match self {
                TextFault::Empty => "Can not be empty"@,
                TextFault::TooLong => "Over text length"@,
            },
    {
        match self {
            TextFault::Empty => "Can not be empty".to_string(),
            TextFault::TooLong => "Over text length".to_string(),
        }
    }
}

/// The fault of `text` as the text of a todo, if it has one. Length counts
/// characters, not bytes.
pub open spec fn text_fault(text: Seq<char>) -> Option<TextFault> {
    if text.len() < MIN_TEXT_LENGTH {
        Some(TextFault::Empty)
    } else if text.len() > MAX_TEXT_LENGTH {
        Some(TextFault::TooLong)
    } else {
        None
    }
}

/// Whether the number of characters of `text` is within the given bounds,
/// where a bound that is absent does not bind.
///
/// Trusted: the body is `validator::validate_length`, which for a string
/// counts its characters and compares the count with each bound that is
/// given.
#[verifier::external_body]
fn length_within(text: &String, min: Option<u64>, max: Option<u64>) -> (within: bool)
    ensures
        within == ((min matches Some(least) ==> least <= text@.len()) && (max matches Some(most)
            ==> text@.len() <= most)),
{
    validator::validate_length(text, min, max, None)
}

/// Checks `text` as the text of a todo.
fn check_text(text: &String) -> (checked: Result<(), TextFault>)
    ensures
        checked == match text_fault(text@) {
            Some(fault) => Err::<(), TextFault>(fault),
            None => Ok(()),
        },
{
    if !length_within(text, Some(MIN_TEXT_LENGTH), None) {
        Err(TextFault::Empty)
    } else if !length_within(text, None, Some(MAX_TEXT_LENGTH)) {
        Err(TextFault::TooLong)
    } else {
        Ok(())
    }
}

/// What a caller submits to create a todo: its text.
#[derive(Debug, PartialEq, Eq)]
pub struct CreateTodo {
    pub text: String,
}

impl CreateTodo {
    pub fn new(text: String) -> (payload: Self)
        ensures
            payload.text == text,
    {
        CreateTodo { text }
    }

    /// Checks the payload: the text must have between [`MIN_TEXT_LENGTH`] and
    /// [`MAX_TEXT_LENGTH`] characters.
    pub fn validate(&self) -> (checked: Result<(), TextFault>)
        ensures
            checked == match text_fault(self.text@) {
                Some(fault) => Err::<(), TextFault>(fault),
                None => Ok(()),
            },
    {
        check_text(&self.text)
    }
}

/// What a caller submits to update a todo. A field that is absent leaves the
/// todo's value as it is.
#[derive(Debug, PartialEq, Eq)]
pub struct UpdateTodo {
    pub text: Option<String>,
    pub completed: Option<bool>,
}

/// Mathematical model of an [`UpdateTodo`].
pub struct UpdateView {
    pub text: Option<Seq<char>>,
    pub completed: Option<bool>,
}

impl View for UpdateTodo {
    type V = UpdateView;

    open spec fn view(&self) -> UpdateView {
        UpdateView {
            text: match self.text {
                Some(text) => Some(text@),
                None => None,
            },
            completed: self.completed,
        }
    }
}

/// The text of a todo after an update: the submitted one, or, if none was
/// submitted, the one it has.
pub open spec fn merged_text(change: UpdateView, current: TodoView) -> Seq<char> {
    match change.text {
        Some(text) => text,
        None => current.text,
    }
}

/// The completion flag of a todo after an update: the submitted one, or, if
/// none was submitted, the one it has.
pub open spec fn merged_completed(change: UpdateView, current: TodoView) -> bool {
    match change.completed {
        Some(completed) => completed,
        None => current.completed,
    }
}

impl UpdateTodo {
    pub fn new(text: Option<String>, completed: Option<bool>) -> (payload: Self)
        ensures
            payload.text == text,
            payload.completed == completed,
    {
        UpdateTodo { text, completed }
    }

    /// Checks the payload: a text, if one is submitted, must have between
    /// [`MIN_TEXT_LENGTH`] and [`MAX_TEXT_LENGTH`] characters.
    pub fn validate(&self) -> (checked: Result<(), TextFault>)
        ensures
            checked == match self@.text {
                Some(text) => match text_fault(text) {
                    Some(fault) => Err::<(), TextFault>(fault),
                    None => Ok(()),
                },
                None => Ok(()),
            },
    {
        match &self.text {
            Some(text) => check_text(text),
            None => Ok(()),
        }
    }

    /// The text and the completion flag that `current` has once the update is
    /// applied to it.
    pub fn resolve(self, current: &TodoEntity) -> (values: (String, bool))
        ensures
            values.0@ == merged_text(self@, current@),
            values.1 == merged_completed(self@, current@),
    {
        let text = match self.text {
            Some(text) => text,
            None => current.text.clone(),
        };
        let completed = match self.completed {
            Some(completed) => completed,
            None => current.completed,
        };
        (text, completed)
    }
}

/// Mathematical model of the result of an operation that returns a todo.
pub open spec fn todo_result_view(result: Result<TodoEntity, RepositoryError>) -> Result<
    TodoView,
    ErrorView,
> {
    match result {
        Ok(entity) => Ok(entity@),
        Err(error) => Err(error@),
    }
}

/// Whether `entities` are the todos of `store`: each of them is stored under
/// its id, none comes twice, and every stored todo is among them.
pub open spec fn lists(entities: Seq<TodoView>, store: Map<i32, TodoView>) -> bool {
    &&& entities.len() == store.len()
    &&& forall|i: int|
        0 <= i < entities.len() ==> store.contains_key((#[trigger] entities[i]).id)
            && store[entities[i].id] == entities[i]
    &&& forall|i: int, j: int|
        0 <= i < j < entities.len() ==> (#[trigger] entities[i]).id != (#[trigger] entities[j]).id
    &&& forall|id: i32| #[trigger]
        store.contains_key(id) ==> exists|i: int|
            0 <= i < entities.len() && #[trigger] entities[i] == store[id]
}

/// Whether every todo of `store` is stored under its own id, so that no two
/// todos of the store share an id.
pub open spec fn keyed_by_id(store: Map<i32, TodoView>) -> bool {
    forall|id: i32| #[trigger] store.contains_key(id) ==> store[id].id == id
}

/// A store of todos that are found by their ids. Every operation finds and
/// leaves each todo stored under its own id.
pub trait TodoRepository: Sized {
    /// The todos that the repository holds, by id.
    spec fn entries(&self) -> Map<i32, TodoView>;

    /// Stores a new todo with the submitted text, not completed and without
    /// labels, under an id that the repository picks, and returns it.
    fn create(&mut self, payload: CreateTodo) -> (result: Result<TodoEntity, RepositoryError>)
        requires
            old(self).entries().len() < i32::MAX,
        ensures
            keyed_by_id(final(self).entries()),
            match result {
                Ok(entity) => {
                    &&& entity@ == new_todo(entity.id, payload.text@)
                    &&& final(self).entries() == old(self).entries().insert(entity.id, entity@)
                },
                Err(error) => error@ is Unexpected && final(self).entries() == old(self).entries(),
            },
    ;

    /// Returns the todo with the given id.
    fn find(&self, id: i32) -> (result: Result<TodoEntity, RepositoryError>)
        ensures
            keyed_by_id(self.entries()),
            match result {
                Ok(entity) => self.entries().contains_key(id) && entity@ == self.entries()[id],
                Err(error) => is_error_on(error@, id, self.entries().contains_key(id)),
            },
    ;

    /// Returns every todo that the repository holds.
    fn all(&self) -> (result: Result<Vec<TodoEntity>, RepositoryError>)
        ensures
            keyed_by_id(self.entries()),
            match result {
                Ok(entities) => lists(entities.deep_view(), self.entries()),
                Err(error) => error@ is Unexpected,
            },
    ;

    /// Replaces the text and the completion flag of the todo with the given
    /// id by those submitted, keeps each that is not submitted, and returns
    /// the todo as it is stored then.
    fn update(&mut self, id: i32, payload: UpdateTodo) -> (result: Result<
        TodoEntity,
        RepositoryError,
    >)
        ensures
            keyed_by_id(final(self).entries()),
            match result {
                Ok(entity) => {
                    &&& old(self).entries().contains_key(id)
                    &&& entity.id == id
                    &&& entity.text@ == merged_text(payload@, old(self).entries()[id])
                    &&& entity.completed == merged_completed(payload@, old(self).entries()[id])
                    &&& final(self).entries() == old(self).entries().insert(id, entity@)
                },
                Err(error) => is_error_on(error@, id, old(self).entries().contains_key(id))
                    && final(self).entries() == old(self).entries(),
            },
    ;

    /// Removes the todo with the given id.
    fn delete(&mut self, id: i32) -> (result: Result<(), RepositoryError>)
        ensures
            keyed_by_id(final(self).entries()),
            match result {
                Ok(()) => {
                    &&& old(self).entries().contains_key(id)
                    &&& final(self).entries() == old(self).entries().remove(id)
                },
                Err(error) => is_error_on(error@, id, old(self).entries().contains_key(id))
                    && final(self).entries() == old(self).entries(),
            },
    ;
}

/// What finding todo `id` comes to, given what the storage layer answered to
/// the query for its row.
pub open spec fn find_outcome_of(id: i32, fetched: Result<RowView, StorageFaultView>) -> Result<
    TodoView,
    ErrorView,
> {
    match fetched {
        Ok(row) => Ok(entity_of(row)),
        Err(fault) => Err(classified(id, fault)),
    }
}

/// Decides the result of finding todo `id` from the storage layer's answer to
/// the query for its row: the row folded into an entity, or the fault
/// classified.
pub fn find_outcome(id: i32, fetched: Result<TodoWithLabelFromRow, StorageFault>) -> (outcome:
    Result<TodoEntity, RepositoryError>)
    ensures
        match fetched {
            Ok(row) => todo_result_view(outcome) == find_outcome_of(id, Ok(row@)),
            Err(fault) => todo_result_view(outcome) == find_outcome_of(id, Err(fault@)),
        },
{
    match fetched {
        Ok(row) => Ok(fold_entity(row)),
        Err(fault) => Err(classify(id, fault)),
    }
}

} // verus!
