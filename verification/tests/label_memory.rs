use todo_repository::repositories::label::test_utils::LabelRepositoryForMemory;
use todo_repository::repositories::label::{Label, LabelRepository, UpdateLabel};
use todo_repository::repositories::RepositoryError;

#[test]
fn label_crud_scenario_in_memory() {
    let mut repository = LabelRepositoryForMemory::new();
    let label_text = "test_label";

    // create
    let label = repository
        .create(label_text.to_string())
        .expect("[create] returned Err");
    assert_eq!(label.name, label_text);
    assert_eq!(label.id, 1);

    // all
    let labels = repository.all().expect("[all] returned Err");
    let label = labels.last().unwrap();
    assert_eq!(label.name, label_text);
    assert_eq!(labels.len(), 1);

    // delete
    repository
        .delete(label.id)
        .expect("[delete] returned Err");
    assert_eq!(repository.all(), Ok(vec![]));
}

#[test]
fn new_label_repository_is_empty() {
    let repository = LabelRepositoryForMemory::new();
    assert_eq!(repository.len(), 0);
    assert_eq!(repository.all(), Ok(vec![]));
}

#[test]
fn labels_get_count_plus_one_as_id() {
    let mut repository = LabelRepositoryForMemory::new();
    let first = repository.create("a".to_string()).expect("[create] returned Err");
    let second = repository.create("b".to_string()).expect("[create] returned Err");
    let third = repository.create("c".to_string()).expect("[create] returned Err");
    assert_eq!(first, Label { id: 1, name: "a".to_string() });
    assert_eq!(second, Label { id: 2, name: "b".to_string() });
    assert_eq!(third, Label { id: 3, name: "c".to_string() });
    assert_eq!(repository.len(), 3);
}

#[test]
fn memory_labels_may_share_a_name() {
    let mut repository = LabelRepositoryForMemory::new();
    let first = repository.create("same".to_string()).expect("[create] returned Err");
    let second = repository.create("same".to_string()).expect("[create] returned Err");
    assert_eq!(first, Label { id: 1, name: "same".to_string() });
    assert_eq!(second, Label { id: 2, name: "same".to_string() });
    assert_eq!(repository.len(), 2);
}

#[test]
fn all_lists_every_label_once() {
    let mut repository = LabelRepositoryForMemory::new();
    let mut created = vec![];
    for n in 0..10 {
        created.push(repository.create(format!("label {}", n)).expect("[create] returned Err"));
    }
    let mut labels = repository.all().expect("[all] returned Err");
    labels.sort_by_key(|label| label.id);
    assert_eq!(labels, created);
}

#[test]
fn delete_of_absent_label_is_not_found() {
    let mut repository = LabelRepositoryForMemory::new();
    assert_eq!(repository.delete(3), Err(RepositoryError::NotFound(3)));
    let label = repository.create("a".to_string()).expect("[create] returned Err");
    assert_eq!(repository.delete(label.id), Ok(()));
    assert_eq!(repository.delete(label.id), Err(RepositoryError::NotFound(label.id)));
    assert_eq!(repository.len(), 0);
}

#[test]
fn label_new_and_clone() {
    let label = Label::new(5, "five".to_string());
    assert_eq!(label, Label { id: 5, name: "five".to_string() });
    assert_eq!(label.clone(), label);
    let change = UpdateLabel { id: 5, name: "renamed".to_string() };
    assert_eq!(change.clone(), change);
}
