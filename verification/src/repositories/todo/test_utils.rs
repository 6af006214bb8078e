//! A todo repository that keeps its todos in memory.

use std::collections::HashMap;
use vstd::prelude::*;
use vstd::std_specs::iter::IteratorSpec;

use crate::repositories::todo::{
    keyed_by_id, lists, merged_completed, merged_text, new_todo, todo_result_view, CreateTodo,
    TodoEntity, TodoRepository, TodoView, UpdateTodo, UpdateView,
};
use crate::repositories::{unit_result_view, ErrorView, RepositoryError};

verus! {

broadcast use vstd::std_specs::hash::group_hash_axioms;

/// The id that the next todo created in `store` gets: one more than the
/// number of todos stored.
pub open spec fn next_id(store: Map<i32, TodoView>) -> int {
    store.len() as int + 1
}

/// The todo that creating one with the given text in `store` makes.
pub open spec fn created_in(store: Map<i32, TodoView>, text: Seq<char>) -> TodoView {
    new_todo(next_id(store) as i32, text)
}

/// `store` after a todo with the given text was created in it. A todo that
/// was stored under the new todo's id is replaced.
pub open spec fn after_create(store: Map<i32, TodoView>, text: Seq<char>) -> Map<i32, TodoView> {
    store.insert(next_id(store) as i32, created_in(store, text))
}

/// What finding todo `id` in `store` returns.
pub open spec fn found_in(store: Map<i32, TodoView>, id: i32) -> Result<TodoView, ErrorView> {
    if store.contains_key(id) {
        Ok(store[id])
    } else {
        Err(ErrorView::NotFound(id))
    }
}

/// The todo that `current`, stored under `id`, becomes by an update: the
/// submitted fields replace its own, and it loses its labels.
pub open spec fn updated(id: i32, current: TodoView, change: UpdateView) -> TodoView {
    TodoView {
        id,
        text: merged_text(change, current),
        completed: merged_completed(change, current),
        labels: Seq::empty(),
    }
}

/// What updating todo `id` in `store` returns.
pub open spec fn updated_in(store: Map<i32, TodoView>, id: i32, change: UpdateView) -> Result<
    TodoView,
    ErrorView,
> {
    if store.contains_key(id) {
        Ok(updated(id, store[id], change))
    } else {
        Err(ErrorView::NotFound(id))
    }
}

/// `store` after todo `id` was updated in it.
pub open spec fn after_update(store: Map<i32, TodoView>, id: i32, change: UpdateView) -> Map<
    i32,
    TodoView,
> {
    if store.contains_key(id) {
        store.insert(id, updated(id, store[id], change))
    } else {
        store
    }
}

/// What deleting todo `id` from `store` returns.
pub open spec fn deleted_from(store: Map<i32, TodoView>, id: i32) -> Result<(), ErrorView> {
    if store.contains_key(id) {
        Ok(())
    } else {
        Err(ErrorView::NotFound(id))
    }
}

/// `store` after todo `id` was deleted from it.
pub open spec fn after_delete(store: Map<i32, TodoView>, id: i32) -> Map<i32, TodoView> {
    store.remove(id)
}

/// Whether the ids of `store` are the numbers from one up to the number of
/// todos stored, as they are in a store from which nothing was deleted.
pub open spec fn is_dense(store: Map<i32, TodoView>) -> bool {
    &&& store.dom().finite()
    &&& forall|id: i32| #[trigger] store.contains_key(id) <==> 1 <= id <= store.len()
}

/// A todo that was created is found under its id, as it was returned: with
/// the submitted text, and not completed.
pub proof fn lemma_create_then_find(store: Map<i32, TodoView>, text: Seq<char>)
    ensures
        found_in(after_create(store, text), created_in(store, text).id) == Ok::<
            TodoView,
            ErrorView,
        >(created_in(store, text)),
        created_in(store, text).text == text,
        !created_in(store, text).completed,
{
}

/// An update changes the fields that are submitted and keeps the others; the
/// todo is found afterwards as the update returned it. An update of a todo
/// that is not stored fails, and changes nothing.
pub proof fn lemma_update_keeps_unsubmitted(store: Map<i32, TodoView>, id: i32, change: UpdateView)
    ensures
        store.contains_key(id) ==> {
            &&& updated_in(store, id, change) matches Ok(todo)
            &&& todo.id == id
            &&& change.text matches Some(text) ==> todo.text == text
            &&& change.text is None ==> todo.text == store[id].text
            &&& change.completed matches Some(completed) ==> todo.completed == completed
            &&& change.completed is None ==> todo.completed == store[id].completed
            &&& found_in(after_update(store, id, change), id) == Ok::<TodoView, ErrorView>(todo)
        },
        !store.contains_key(id) ==> {
            &&& updated_in(store, id, change) == Err::<TodoView, ErrorView>(ErrorView::NotFound(id))
            &&& after_update(store, id, change) == store
        },
{
}

/// Deleting a todo that is not stored fails and changes nothing; deleting
/// one that is stored succeeds; either way the todo is not found afterwards,
/// and every other todo is found as before.
pub proof fn lemma_delete_then_find(store: Map<i32, TodoView>, id: i32, other: i32)
    requires
        other != id,
    ensures
        !store.contains_key(id) ==> {
            &&& deleted_from(store, id) == Err::<(), ErrorView>(ErrorView::NotFound(id))
            &&& after_delete(store, id) == store
        },
        store.contains_key(id) ==> deleted_from(store, id) == Ok::<(), ErrorView>(()),
        found_in(after_delete(store, id), id) == Err::<TodoView, ErrorView>(
            ErrorView::NotFound(id),
        ),
        found_in(after_delete(store, id), other) == found_in(store, other),
{
    if !store.contains_key(id) {
        assert(after_delete(store, id) =~= store);
    }
}

/// Two todos created one after the other get different ids, provided that
/// no todo was stored under the first one's id.
pub proof fn lemma_successive_creates_differ(
    store: Map<i32, TodoView>,
    first: Seq<char>,
    second: Seq<char>,
)
    requires
        store.dom().finite(),
        store.len() + 1 < i32::MAX,
        !store.contains_key(next_id(store) as i32),
    ensures
        created_in(store, first).id != created_in(after_create(store, first), second).id,
{
}

/// Two todos created one after the other get the same id where a todo was
/// stored under the first one's id: the second replaces the first.
pub proof fn lemma_successive_creates_collide(
    store: Map<i32, TodoView>,
    first: Seq<char>,
    second: Seq<char>,
)
    requires
        store.dom().finite(),
        store.len() < i32::MAX,
        store.contains_key(next_id(store) as i32),
    ensures
        created_in(store, first).id == created_in(after_create(store, first), second).id,
        after_create(after_create(store, first), second).len() == store.len(),
{
    assert(after_create(store, first).dom() =~= store.dom());
    assert(after_create(after_create(store, first), second).dom() =~= store.dom());
}

/// In a store whose ids are dense, a create picks an id that is free, and
/// leaves the ids dense: as long as nothing is deleted, no two creates pick
/// the same id.
pub proof fn lemma_create_in_dense_store(store: Map<i32, TodoView>, text: Seq<char>)
    requires
        is_dense(store),
        store.len() < i32::MAX,
    ensures
        !store.contains_key(created_in(store, text).id),
        is_dense(after_create(store, text)),
{
}

/// A todo repository that keeps its todos in a map in memory. It attaches no
/// labels.
#[derive(Debug)]
pub struct TodoRepositoryForMemory {
    store: HashMap<i32, TodoEntity>,
}

impl View for TodoRepositoryForMemory {
    type V = Map<i32, TodoView>;

    closed spec fn view(&self) -> Map<i32, TodoView> {
        self.store@.map_values(|entity: TodoEntity| entity@)
    }
}

impl TodoRepositoryForMemory {
    /// Every todo is stored under its own id.
    #[verifier::type_invariant]
    spec fn well_formed(self) -> bool {
        forall|id: i32| #[trigger] self.store@.contains_key(id) ==> self.store@[id].id == id
    }

    /// A repository that holds no todo.
    pub fn new() -> (repository: Self)
        ensures
            repository@ == Map::<i32, TodoView>::empty(),
    {
        let repository = TodoRepositoryForMemory { store: HashMap::new() };
        assert(repository@ =~= Map::<i32, TodoView>::empty());
        repository
    }

    /// Takes the map out of the repository and leaves an empty one, so that
    /// the map can be changed while the repository stays well-formed.
    fn take_store(&mut self) -> (store: HashMap<i32, TodoEntity>)
        ensures
            store@ == old(self).store@,
            final(self).store@ == Map::<i32, TodoEntity>::empty(),
    {
        let mut store: HashMap<i32, TodoEntity> = HashMap::new();
        core::mem::swap(&mut store, &mut self.store);
        store
    }

    /// The number of todos stored.
    pub fn len(&self) -> (count: usize)
        ensures
            count == self@.len(),
            self@.dom().finite(),
            keyed_by_id(self@),
    {
        proof {
            use_type_invariant(self);
            assert(self@.dom() =~= self.store@.dom());
        }
        self.store.len()
    }
}

impl TodoRepository for TodoRepositoryForMemory {
    open spec fn entries(&self) -> Map<i32, TodoView> {
        self@
    }

    fn create(&mut self, payload: CreateTodo) -> (result: Result<TodoEntity, RepositoryError>)
        ensures
            todo_result_view(result) == Ok::<TodoView, ErrorView>(
                created_in(old(self)@, payload.text@),
            ),
            final(self)@ == after_create(old(self)@, payload.text@),
    {
        proof {
            use_type_invariant(&*self);
            assert(self@.dom() =~= self.store@.dom());
        }
        let id: i32 = (self.store.len() + 1) as i32;
        let todo = TodoEntity::new(id, payload.text);
        let stored = todo.clone();
        let mut store = self.take_store();
        store.insert(id, stored);
        self.store = store;
        proof {
            assert(self@ =~= after_create(old(self)@, payload.text@));
        }
        Ok(todo)
    }

    fn find(&self, id: i32) -> (result: Result<TodoEntity, RepositoryError>)
        ensures
            todo_result_view(result) == found_in(self@, id),
    {
        proof {
            use_type_invariant(self);
        }
        match self.store.get(&id) {
            Some(todo) => Ok(todo.clone()),
            None => Err(RepositoryError::NotFound(id)),
        }
    }

    fn all(&self) -> (result: Result<Vec<TodoEntity>, RepositoryError>)
        ensures
            result is Ok,
    {
        proof {
            use_type_invariant(self);
            assert(self@.dom() =~= self.store@.dom());
        }
        let mut todos: Vec<TodoEntity> = Vec::new();
        let ghost pairs = self.store.iter().remaining();
        for pair in iter: self.store.iter()
            invariant
                iter.seq() == pairs,
                pairs.no_duplicates(),
                todos.len() == iter.index(),
                forall|i: int| 0 <= i < todos.len() ==> (#[trigger] todos[i])@ == (*pairs[i].1)@,
        {
            todos.push(pair.1.clone());
        }
        proof {
            let listed = todos.deep_view();
            assert forall|i: int| 0 <= i < listed.len() implies self@.contains_key(
                (#[trigger] listed[i]).id,
            ) && self@[listed[i].id] == listed[i] by {
                assert(self.store@.contains_key(*pairs[i].0));
            }
            assert forall|i: int, j: int| 0 <= i < j < listed.len() implies (
            #[trigger] listed[i]).id != (#[trigger] listed[j]).id by {
                assert(self.store@.contains_key(*pairs[i].0));
                assert(self.store@.contains_key(*pairs[j].0));
                if listed[i].id == listed[j].id {
                    assert(pairs[i] == pairs[j]);
                }
            }
            assert forall|id: i32| #[trigger] self@.contains_key(id) implies exists|i: int|
                0 <= i < listed.len() && #[trigger] listed[i] == self@[id] by {
                assert(self.store@.contains_key(id));
                let i = choose|i: int|
                    0 <= i < pairs.len() && pairs[i] == (&id, &self.store@[id]);
                assert(listed[i] == self@[id]);
            }
            assert(lists(listed, self@));
        }
        Ok(todos)
    }

    fn update(&mut self, id: i32, payload: UpdateTodo) -> (result: Result<
        TodoEntity,
        RepositoryError,
    >)
        ensures
            todo_result_view(result) == updated_in(old(self)@, id, payload@),
            final(self)@ == after_update(old(self)@, id, payload@),
    {
        proof {
            use_type_invariant(&*self);
        }
        let (text, completed) = match self.store.get(&id) {
            Some(todo) => payload.resolve(todo),
            None => {
                return Err(RepositoryError::NotFound(id));
            },
        };
        let todo = TodoEntity { id, text, completed, labels: Vec::new() };
        let stored = todo.clone();
        let mut store = self.take_store();
        store.insert(id, stored);
        self.store = store;
        proof {
            assert(todo.labels.deep_view() =~= Seq::empty());
            assert(self@ =~= after_update(old(self)@, id, payload@));
        }
        Ok(todo)
    }

    fn delete(&mut self, id: i32) -> (result: Result<(), RepositoryError>)
        ensures
            unit_result_view(result) == deleted_from(old(self)@, id),
            final(self)@ == after_delete(old(self)@, id),
    {
        proof {
            use_type_invariant(&*self);
        }
        let mut store = self.take_store();
        let removed = store.remove(&id);
        self.store = store;
        proof {
            assert(self@ =~= after_delete(old(self)@, id));
        }
        match removed {
            Some(_) => Ok(()),
            None => Err(RepositoryError::NotFound(id)),
        }
    }
}

} // verus!
