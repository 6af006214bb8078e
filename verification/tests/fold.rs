use todo_repository::repositories::label::Label;
use todo_repository::repositories::todo::{
    fold_entities, fold_entity, TodoEntity, TodoWithLabelFromRow,
};

fn row(id: i32, text: &str, label: Option<(i32, &str)>) -> TodoWithLabelFromRow {
    TodoWithLabelFromRow {
        id,
        text: String::from(text),
        completed: false,
        label_id: label.map(|(id, _)| id),
        label_name: label.map(|(_, name)| String::from(name)),
    }
}

fn label(id: i32, name: &str) -> Label {
    Label { id, name: String::from(name) }
}

fn todo(id: i32, text: &str, labels: Vec<Label>) -> TodoEntity {
    TodoEntity { id, text: String::from(text), completed: false, labels }
}

#[test]
fn fold_entities_test() {
    let label_1 = Label {
        id: 1,
        name: String::from("label 1"),
    };
    let label_2 = Label {
        id: 2,
        name: String::from("label 2"),
    };
    let rows = vec![
        TodoWithLabelFromRow {
            id: 1,
            text: String::from("todo 1"),
            completed: false,
            label_id: Some(label_1.id),
            label_name: Some(label_1.name.clone()),
        },
        TodoWithLabelFromRow {
            id: 1,
            text: String::from("todo 1"),
            completed: false,
            label_id: Some(label_2.id),
            label_name: Some(label_2.name.clone()),
        },
        TodoWithLabelFromRow {
            id: 2,
            text: String::from("todo 2"),
            completed: false,
            label_id: Some(label_1.id),
            label_name: Some(label_1.name.clone()),
        },
    ];
    let res = fold_entities(rows);
    assert_eq!(
        res,
        vec![
            TodoEntity {
                id: 1,
                text: String::from("todo 1"),
                completed: false,
                labels: vec![label_1.clone(), label_2.clone()],
            },
            TodoEntity {
                id: 2,
                text: String::from("todo 2"),
                completed: false,
                labels: vec![label_1.clone()],
            },
        ]
    );
}

#[test]
fn fold_of_no_rows_is_empty() {
    assert_eq!(fold_entities(vec![]), vec![]);
}

#[test]
fn fold_row_without_label_gives_no_labels() {
    let res = fold_entities(vec![row(7, "alone", None)]);
    assert_eq!(res, vec![todo(7, "alone", vec![])]);
}

#[test]
fn fold_keeps_first_seen_order_of_interleaved_todos() {
    let rows = vec![
        row(5, "five", Some((1, "a"))),
        row(3, "three", Some((2, "b"))),
        row(5, "five", Some((3, "c"))),
        row(9, "nine", None),
        row(3, "three", Some((1, "a"))),
    ];
    let res = fold_entities(rows);
    assert_eq!(
        res,
        vec![
            todo(5, "five", vec![label(1, "a"), label(3, "c")]),
            todo(3, "three", vec![label(2, "b"), label(1, "a")]),
            todo(9, "nine", vec![]),
        ]
    );
}

#[test]
fn fold_does_not_collapse_repeated_labels() {
    let rows = vec![
        row(1, "t", Some((4, "x"))),
        row(1, "t", Some((4, "x"))),
    ];
    let res = fold_entities(rows);
    assert_eq!(res, vec![todo(1, "t", vec![label(4, "x"), label(4, "x")])]);
}

#[test]
fn fold_later_row_without_label_adds_nothing() {
    let rows = vec![
        row(1, "t", Some((4, "x"))),
        row(1, "t", None),
        row(1, "t", Some((5, "y"))),
    ];
    let res = fold_entities(rows);
    assert_eq!(res, vec![todo(1, "t", vec![label(4, "x"), label(5, "y")])]);
}

#[test]
fn fold_takes_todo_fields_from_the_first_row() {
    let first = TodoWithLabelFromRow {
        id: 1,
        text: String::from("first"),
        completed: true,
        label_id: None,
        label_name: None,
    };
    let second = TodoWithLabelFromRow {
        id: 1,
        text: String::from("second"),
        completed: false,
        label_id: Some(2),
        label_name: Some(String::from("l")),
    };
    let res = fold_entities(vec![first, second]);
    assert_eq!(
        res,
        vec![TodoEntity {
            id: 1,
            text: String::from("first"),
            completed: true,
            labels: vec![label(2, "l")],
        }]
    );
}

#[test]
fn fold_treats_half_a_label_as_none() {
    let only_id = TodoWithLabelFromRow {
        id: 1,
        text: String::from("t"),
        completed: false,
        label_id: Some(3),
        label_name: None,
    };
    let only_name = TodoWithLabelFromRow {
        id: 2,
        text: String::from("u"),
        completed: false,
        label_id: None,
        label_name: Some(String::from("n")),
    };
    assert_eq!(only_id.label(), None);
    assert_eq!(only_name.label(), None);
    let res = fold_entities(vec![only_id, only_name]);
    assert_eq!(res, vec![todo(1, "t", vec![]), todo(2, "u", vec![])]);
}

#[test]
fn row_label_is_built_from_both_fields() {
    assert_eq!(row(1, "t", Some((8, "eight"))).label(), Some(label(8, "eight")));
    assert_eq!(row(1, "t", None).label(), None);
}

#[test]
fn fold_entity_of_row_with_label() {
    let res = fold_entity(row(3, "three", Some((2, "b"))));
    assert_eq!(res, todo(3, "three", vec![label(2, "b")]));
}

#[test]
fn fold_entity_of_row_without_label() {
    let source = TodoWithLabelFromRow {
        id: 11,
        text: String::from("done"),
        completed: true,
        label_id: None,
        label_name: None,
    };
    let res = fold_entity(source);
    assert_eq!(
        res,
        TodoEntity { id: 11, text: String::from("done"), completed: true, labels: vec![] }
    );
}

#[test]
fn todo_entity_new_is_open_and_unlabelled() {
    let made = TodoEntity::new(4, String::from("text"));
    assert_eq!(
        made,
        TodoEntity { id: 4, text: String::from("text"), completed: false, labels: vec![] }
    );
    assert_eq!(made.clone(), made);
}
