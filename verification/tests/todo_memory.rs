use todo_repository::repositories::todo::test_utils::TodoRepositoryForMemory;
use todo_repository::repositories::todo::{CreateTodo, TodoEntity, TodoRepository, UpdateTodo};
use todo_repository::repositories::RepositoryError;

fn create(repository: &mut TodoRepositoryForMemory, text: &str) -> TodoEntity {
    repository
        .create(CreateTodo::new(text.to_string()))
        .expect("[create] returned Err")
}

#[test]
fn todo_crud_scenario_in_memory() {
    let mut repository = TodoRepositoryForMemory::new();
    let todo_text = "[crud_scenario] text";

    // create
    let created = create(&mut repository, todo_text);
    assert_eq!(created.text, todo_text);
    assert!(!created.completed);
    assert_eq!(created.id, 1);
    assert_eq!(created.labels, vec![]);

    // find
    let todo = repository.find(created.id).expect("[find] returned Err");
    assert_eq!(created, todo);

    // all
    let todos = repository.all().expect("[all] returned Err");
    assert_eq!(todos, vec![created.clone()]);

    // update
    let updated_text = "[crud_scenario] updated text";
    let todo = repository
        .update(
            todo.id,
            UpdateTodo { text: Some(updated_text.to_string()), completed: Some(true) },
        )
        .expect("[update] returned Err");
    assert_eq!(created.id, todo.id);
    assert_eq!(todo.text, updated_text);
    assert!(todo.completed);
    assert_eq!(repository.find(created.id), Ok(todo.clone()));

    // delete
    repository.delete(todo.id).expect("[delete] returned Err");
    let res = repository.find(created.id);
    assert_eq!(res, Err(RepositoryError::NotFound(created.id)));
    assert_eq!(repository.all(), Ok(vec![]));
    assert_eq!(repository.len(), 0);
}

#[test]
fn new_todo_repository_is_empty() {
    let repository = TodoRepositoryForMemory::new();
    assert_eq!(repository.len(), 0);
    assert_eq!(repository.all(), Ok(vec![]));
    assert_eq!(repository.find(1), Err(RepositoryError::NotFound(1)));
}

#[test]
fn create_then_find_round_trips() {
    let mut repository = TodoRepositoryForMemory::new();
    let first = create(&mut repository, "first");
    let second = create(&mut repository, "second");
    assert_eq!(
        first,
        TodoEntity { id: 1, text: "first".to_string(), completed: false, labels: vec![] }
    );
    assert_eq!(
        second,
        TodoEntity { id: 2, text: "second".to_string(), completed: false, labels: vec![] }
    );
    assert_eq!(repository.find(1), Ok(first));
    assert_eq!(repository.find(2), Ok(second));
    assert_eq!(repository.len(), 2);
}

#[test]
fn successive_creates_pick_different_ids() {
    let mut repository = TodoRepositoryForMemory::new();
    let mut ids = vec![];
    for n in 0..20 {
        ids.push(create(&mut repository, &format!("todo {}", n)).id);
    }
    let expected: Vec<i32> = (1..=20).collect();
    assert_eq!(ids, expected);
}

#[test]
fn update_with_only_text_keeps_completed() {
    let mut repository = TodoRepositoryForMemory::new();
    let created = create(&mut repository, "before");
    repository
        .update(created.id, UpdateTodo { text: None, completed: Some(true) })
        .expect("[update] returned Err");
    let updated = repository
        .update(created.id, UpdateTodo { text: Some("after".to_string()), completed: None })
        .expect("[update] returned Err");
    assert_eq!(
        updated,
        TodoEntity { id: 1, text: "after".to_string(), completed: true, labels: vec![] }
    );
    assert_eq!(repository.find(1), Ok(updated));
}

#[test]
fn update_with_only_completed_keeps_text() {
    let mut repository = TodoRepositoryForMemory::new();
    let created = create(&mut repository, "kept");
    let updated = repository
        .update(created.id, UpdateTodo { text: None, completed: Some(true) })
        .expect("[update] returned Err");
    assert_eq!(
        updated,
        TodoEntity { id: 1, text: "kept".to_string(), completed: true, labels: vec![] }
    );
}

#[test]
fn update_with_nothing_changes_nothing() {
    let mut repository = TodoRepositoryForMemory::new();
    let created = create(&mut repository, "same");
    let updated = repository
        .update(created.id, UpdateTodo::new(None, None))
        .expect("[update] returned Err");
    assert_eq!(updated, created);
}

#[test]
fn update_of_absent_todo_is_not_found() {
    let mut repository = TodoRepositoryForMemory::new();
    create(&mut repository, "one");
    let res = repository.update(5, UpdateTodo { text: Some("x".to_string()), completed: None });
    assert_eq!(res, Err(RepositoryError::NotFound(5)));
    assert_eq!(repository.len(), 1);
    assert_eq!(repository.find(5), Err(RepositoryError::NotFound(5)));
}

#[test]
fn delete_of_absent_todo_is_not_found() {
    let mut repository = TodoRepositoryForMemory::new();
    assert_eq!(repository.delete(1), Err(RepositoryError::NotFound(1)));
    create(&mut repository, "one");
    assert_eq!(repository.delete(2), Err(RepositoryError::NotFound(2)));
    assert_eq!(repository.len(), 1);
}

#[test]
fn delete_then_find_is_not_found() {
    let mut repository = TodoRepositoryForMemory::new();
    let first = create(&mut repository, "first");
    let second = create(&mut repository, "second");
    assert_eq!(repository.delete(first.id), Ok(()));
    assert_eq!(repository.find(first.id), Err(RepositoryError::NotFound(first.id)));
    assert_eq!(repository.find(second.id), Ok(second));
    assert_eq!(repository.delete(first.id), Err(RepositoryError::NotFound(first.id)));
}

#[test]
fn all_lists_every_todo_once() {
    let mut repository = TodoRepositoryForMemory::new();
    let mut created = vec![];
    for n in 0..10 {
        created.push(create(&mut repository, &format!("todo {}", n)));
    }
    let mut todos = repository.all().expect("[all] returned Err");
    todos.sort_by_key(|todo| todo.id);
    assert_eq!(todos, created);
}

#[test]
fn id_is_count_plus_one_even_after_a_delete() {
    let mut repository = TodoRepositoryForMemory::new();
    create(&mut repository, "one");
    create(&mut repository, "two");
    assert_eq!(repository.delete(1), Ok(()));
    // one todo is left, so the next id is 2: the new todo replaces the old one
    let third = create(&mut repository, "three");
    assert_eq!(third.id, 2);
    assert_eq!(repository.len(), 1);
    assert_eq!(repository.find(2), Ok(third));
    // the count did not grow, so the id is picked again
    let fourth = create(&mut repository, "four");
    assert_eq!(fourth.id, 2);
    assert_eq!(repository.all(), Ok(vec![fourth]));
}

#[test]
fn update_resolves_against_the_current_todo() {
    let current = TodoEntity { id: 3, text: "old".to_string(), completed: true, labels: vec![] };
    assert_eq!(
        UpdateTodo::new(Some("new".to_string()), None).resolve(&current),
        ("new".to_string(), true)
    );
    assert_eq!(UpdateTodo::new(None, Some(false)).resolve(&current), ("old".to_string(), false));
    assert_eq!(UpdateTodo::new(None, None).resolve(&current), ("old".to_string(), true));
    assert_eq!(
        UpdateTodo::new(Some("new".to_string()), Some(false)).resolve(&current),
        ("new".to_string(), false)
    );
}
