use todo_repository::repositories::label::{name_to_insert, Label};
use todo_repository::repositories::todo::{find_outcome, TodoEntity, TodoWithLabelFromRow};
use todo_repository::repositories::{classify, delete_outcome, RepositoryError, StorageFault};

fn missing_row() -> StorageFault {
    StorageFault {
        row_not_found: true,
        message: "no rows returned by a query that expected to return at least one row"
            .to_string(),
    }
}

fn closed_pool() -> StorageFault {
    StorageFault {
        row_not_found: false,
        message: "attempted to acquire a connection on a closed pool".to_string(),
    }
}

#[test]
fn missing_row_is_classified_as_not_found() {
    assert_eq!(classify(12, missing_row()), RepositoryError::NotFound(12));
}

#[test]
fn other_fault_is_classified_as_unexpected() {
    assert_eq!(
        classify(12, closed_pool()),
        RepositoryError::Unexpected(
            "attempted to acquire a connection on a closed pool".to_string()
        )
    );
}

#[test]
fn find_outcome_folds_the_row() {
    let fetched = TodoWithLabelFromRow {
        id: 4,
        text: "four".to_string(),
        completed: true,
        label_id: Some(9),
        label_name: Some("nine".to_string()),
    };
    assert_eq!(
        find_outcome(4, Ok(fetched)),
        Ok(TodoEntity {
            id: 4,
            text: "four".to_string(),
            completed: true,
            labels: vec![Label { id: 9, name: "nine".to_string() }],
        })
    );
}

#[test]
fn find_outcome_classifies_the_fault() {
    assert_eq!(find_outcome(4, Err(missing_row())), Err(RepositoryError::NotFound(4)));
    assert_eq!(
        find_outcome(4, Err(closed_pool())),
        Err(RepositoryError::Unexpected(
            "attempted to acquire a connection on a closed pool".to_string()
        ))
    );
}

#[test]
fn delete_that_removed_nothing_is_not_found() {
    assert_eq!(delete_outcome(6, Ok(0)), Err(RepositoryError::NotFound(6)));
}

#[test]
fn delete_that_removed_a_row_succeeds() {
    assert_eq!(delete_outcome(6, Ok(1)), Ok(()));
    assert_eq!(delete_outcome(6, Ok(3)), Ok(()));
}

#[test]
fn delete_that_failed_is_classified() {
    assert_eq!(delete_outcome(6, Err(missing_row())), Err(RepositoryError::NotFound(6)));
    assert_eq!(
        delete_outcome(6, Err(closed_pool())),
        Err(RepositoryError::Unexpected(
            "attempted to acquire a connection on a closed pool".to_string()
        ))
    );
}

#[test]
fn name_that_is_taken_is_a_duplicate() {
    let existing = Label { id: 42, name: "urgent".to_string() };
    assert_eq!(
        name_to_insert("urgent".to_string(), Some(existing)),
        Err(RepositoryError::Duplicate(42))
    );
}

#[test]
fn name_that_is_free_is_inserted() {
    assert_eq!(name_to_insert("urgent".to_string(), None), Ok("urgent".to_string()));
}

#[test]
fn repository_error_clone_keeps_the_variant() {
    let errors = vec![
        RepositoryError::Unexpected("boom".to_string()),
        RepositoryError::NotFound(1),
        RepositoryError::Duplicate(2),
    ];
    for error in errors {
        assert_eq!(error.clone(), error);
    }
}
