//! What folding the rows of a todo/label join means, and the laws it obeys.

use vstd::prelude::*;

use crate::repositories::label::LabelView;
use crate::repositories::todo::{RowView, TodoView};

verus! {

/// The todo ids of `rows`, each once, in the order in which they first occur.
pub open spec fn first_seen_ids(rows: Seq<RowView>) -> Seq<i32>
    decreases rows.len(),
{
    if rows.len() == 0 {
        Seq::empty()
    } else {
        let earlier = first_seen_ids(rows.drop_last());
        if earlier.contains(rows.last().id) {
            earlier
        } else {
            earlier.push(rows.last().id)
        }
    }
}

/// The rows of todo `id`, in row order.
pub open spec fn rows_of(rows: Seq<RowView>, id: i32) -> Seq<RowView> {
    rows.filter(|row: RowView| row.id == id)
}

/// The labels that the rows of todo `id` carry, in row order. A label that
/// several rows carry occurs as often as they carry it.
pub open spec fn labels_of(rows: Seq<RowView>, id: i32) -> Seq<LabelView> {
    rows.filter_map(
        |row: RowView|
            if row.id == id {
                row.label
            } else {
                None
            },
    )
}

/// The labels that a single row contributes: its label, or nothing.
pub open spec fn label_seq(label: Option<LabelView>) -> Seq<LabelView> {
    match label {
        Some(label) => seq![label],
        None => Seq::empty(),
    }
}

/// The entity that the rows of todo `id` fold into: the todo's own fields as
/// its first row gives them, and the labels of all its rows.
pub open spec fn grouped(rows: Seq<RowView>, id: i32) -> TodoView {
    let head = rows_of(rows, id).first();
    TodoView { id, text: head.text, completed: head.completed, labels: labels_of(rows, id) }
}

/// The entities that `rows` fold into.
pub open spec fn folded(rows: Seq<RowView>) -> Seq<TodoView> {
    first_seen_ids(rows).map_values(|id: i32| grouped(rows, id))
}

/// The entity that a row of a todo not seen before folds into.
pub open spec fn entity_of(row: RowView) -> TodoView {
    TodoView {
        id: row.id,
        text: row.text,
        completed: row.completed,
        labels: label_seq(row.label),
    }
}

/// `entity` with the label of one more of its rows.
pub open spec fn with_label(entity: TodoView, label: Option<LabelView>) -> TodoView {
    TodoView { labels: entity.labels + label_seq(label), ..entity }
}

/// Whether some row is of todo `id`.
pub open spec fn rows_hold(rows: Seq<RowView>, id: i32) -> bool {
    exists|k: int| 0 <= k < rows.len() && (#[trigger] rows[k]).id == id
}

/// Whether some entity is todo `id`.
pub open spec fn entities_hold(entities: Seq<TodoView>, id: i32) -> bool {
    exists|j: int| 0 <= j < entities.len() && (#[trigger] entities[j]).id == id
}

/// Whether `rows[k]` is the first row of todo `id`.
pub open spec fn is_first_row(rows: Seq<RowView>, id: i32, k: int) -> bool {
    &&& 0 <= k < rows.len()
    &&& rows[k].id == id
    &&& forall|m: int| 0 <= m < k ==> (#[trigger] rows[m]).id != id
}

/// A todo id is among the first-seen ids exactly when some row has it.
pub proof fn lemma_first_seen_ids_cover(rows: Seq<RowView>, id: i32)
    ensures
        first_seen_ids(rows).contains(id) <==> rows_hold(rows, id),
    decreases rows.len(),
{
    if rows.len() > 0 {
        let front = rows.drop_last();
        lemma_first_seen_ids_cover(front, id);
        let earlier = first_seen_ids(front);
        if first_seen_ids(rows).contains(id) {
            if earlier.contains(id) {
                let k = choose|k: int| 0 <= k < front.len() && (#[trigger] front[k]).id == id;
                assert(rows[k].id == id);
            } else {
                assert(rows.last().id == id);
                assert(rows[rows.len() - 1].id == id);
            }
        }
        if rows_hold(rows, id) {
            let k = choose|k: int| 0 <= k < rows.len() && (#[trigger] rows[k]).id == id;
            if k < rows.len() - 1 {
                assert(front[k].id == id);
                assert(earlier.contains(id));
                if !earlier.contains(rows.last().id) {
                    let m = choose|m: int| 0 <= m < earlier.len() && earlier[m] == id;
                    assert(earlier.push(rows.last().id)[m] == id);
                }
            } else {
                if !earlier.contains(rows.last().id) {
                    assert(earlier.push(rows.last().id)[earlier.len() as int] == id);
                }
            }
        }
    }
}

/// No todo id occurs twice among the first-seen ids.
pub proof fn lemma_first_seen_ids_distinct(rows: Seq<RowView>)
    ensures
        first_seen_ids(rows).no_duplicates(),
    decreases rows.len(),
{
    if rows.len() > 0 {
        lemma_first_seen_ids_distinct(rows.drop_last());
    }
}

/// Folding yields one entity for each todo id that the rows hold, and no
/// other: no two entities share an id, and an id is that of an entity exactly
/// when it is that of a row.
pub proof fn lemma_fold_ids_exact(rows: Seq<RowView>)
    ensures
        folded(rows).map_values(|entity: TodoView| entity.id) == first_seen_ids(rows),
        forall|a: int, b: int|
            0 <= a < b < folded(rows).len() ==> (#[trigger] folded(rows)[a]).id != (
            #[trigger] folded(rows)[b]).id,
        forall|id: i32| #[trigger] entities_hold(folded(rows), id) <==> rows_hold(rows, id),
{
    let ids = first_seen_ids(rows);
    assert(folded(rows).map_values(|entity: TodoView| entity.id) =~= ids);
    lemma_first_seen_ids_distinct(rows);
    assert forall|id: i32| #[trigger] entities_hold(folded(rows), id) <==> rows_hold(rows, id) by {
        lemma_first_seen_ids_cover(rows, id);
        if ids.contains(id) {
            let j = choose|j: int| 0 <= j < ids.len() && ids[j] == id;
            assert(folded(rows)[j].id == id);
        }
        if entities_hold(folded(rows), id) {
            let j = choose|j: int|
                0 <= j < folded(rows).len() && (#[trigger] folded(rows)[j]).id == id;
            assert(ids[j] == id);
        }
    }
}

/// A todo that some row is of has a first row.
pub proof fn lemma_first_row_exists(rows: Seq<RowView>, id: i32) -> (k: int)
    requires
        rows_hold(rows, id),
    ensures
        is_first_row(rows, id, k),
    decreases rows.len(),
{
    let front = rows.drop_last();
    if rows_hold(front, id) {
        let k = lemma_first_row_exists(front, id);
        assert forall|m: int| 0 <= m < k implies (#[trigger] rows[m]).id != id by {
            assert(front[m].id != id);
        }
        k
    } else {
        // no row before the last is of the todo, so the last one is
        let k = choose|k: int| 0 <= k < rows.len() && (#[trigger] rows[k]).id == id;
        if k < rows.len() - 1 {
            assert(front[k].id == id);
        }
        assert forall|m: int| 0 <= m < k implies (#[trigger] rows[m]).id != id by {
            assert(front[m].id == rows[m].id);
        }
        k
    }
}

/// Folding keeps the order in which the todos first occur: of two entities,
/// the earlier is the one whose first row comes earlier.
pub proof fn lemma_fold_keeps_first_seen_order(
    rows: Seq<RowView>,
    a: int,
    b: int,
    ka: int,
    kb: int,
)
    requires
        0 <= a < b < folded(rows).len(),
        is_first_row(rows, folded(rows)[a].id, ka),
        is_first_row(rows, folded(rows)[b].id, kb),
    ensures
        ka < kb,
    decreases rows.len(),
{
    let ids = first_seen_ids(rows);
    let front = rows.drop_last();
    let earlier = first_seen_ids(front);
    let last = rows.len() - 1;
    assert(ids[a] == folded(rows)[a].id && ids[b] == folded(rows)[b].id);
    lemma_first_seen_ids_cover(front, ids[a]);
    lemma_first_seen_ids_cover(front, ids[b]);
    // the todo of the earlier entity has a row before the last one
    assert(earlier[a] == ids[a]);
    let fa = choose|k: int| 0 <= k < front.len() && (#[trigger] front[k]).id == ids[a];
    assert(rows[fa].id == ids[a]);
    assert(ka <= fa);
    if b < earlier.len() {
        assert(earlier[b] == ids[b]);
        let fb = choose|k: int| 0 <= k < front.len() && (#[trigger] front[k]).id == ids[b];
        assert(rows[fb].id == ids[b]);
        assert(kb <= fb);
        assert(is_first_row(front, folded(front)[a].id, ka)) by {
            assert forall|m: int| 0 <= m < ka implies (#[trigger] front[m]).id != ids[a] by {
                assert(rows[m].id != ids[a]);
            }
        }
        assert(is_first_row(front, folded(front)[b].id, kb)) by {
            assert forall|m: int| 0 <= m < kb implies (#[trigger] front[m]).id != ids[b] by {
                assert(rows[m].id != ids[b]);
            }
        }
        lemma_fold_keeps_first_seen_order(front, a, b, ka, kb);
    } else {
        // the later entity is that of the last row, whose todo no earlier row has
        assert(ids[b] == rows[last].id);
        assert(!earlier.contains(ids[b]));
        if kb < last {
            assert(front[kb].id == ids[b]);
        }
    }
}

/// An entity has the text and the completion flag of the first row of its
/// todo.
pub proof fn lemma_fold_takes_first_row(rows: Seq<RowView>, j: int, k: int)
    requires
        0 <= j < folded(rows).len(),
        is_first_row(rows, folded(rows)[j].id, k),
    ensures
        folded(rows)[j].text == rows[k].text,
        folded(rows)[j].completed == rows[k].completed,
{
    lemma_first_of_rows_of(rows, folded(rows)[j].id, k);
}

/// An entity has the labels that the rows of its todo carry, one for each
/// such row and in row order.
pub proof fn lemma_fold_keeps_label_order(rows: Seq<RowView>, j: int)
    requires
        0 <= j < folded(rows).len(),
    ensures
        folded(rows)[j].labels == rows.filter(
            |row: RowView| row.id == folded(rows)[j].id && row.label is Some,
        ).map_values(|row: RowView| row.label->0),
{
    lemma_labels_of_as_filter(rows, folded(rows)[j].id);
}

/// A todo none of whose rows carries a label folds into an entity without
/// labels.
pub proof fn lemma_fold_unlabelled_todo(rows: Seq<RowView>, j: int)
    requires
        0 <= j < folded(rows).len(),
        forall|k: int|
            0 <= k < rows.len() && (#[trigger] rows[k]).id == folded(rows)[j].id
                ==> rows[k].label is None,
    ensures
        folded(rows)[j].labels == Seq::<LabelView>::empty(),
{
    lemma_labels_of_unlabelled(rows, folded(rows)[j].id);
}

/// A single row folds into the one entity that it describes; if it carries
/// no label, that entity has none.
pub proof fn lemma_fold_single_row(row: RowView)
    ensures
        folded(seq![row]) == seq![entity_of(row)],
        row.label is None ==> entity_of(row).labels == Seq::<LabelView>::empty(),
{
    let none = Seq::<RowView>::empty();
    assert(folded(none) =~= Seq::<TodoView>::empty());
    lemma_fold_row_of_new_todo(none, row);
    assert(none.push(row) =~= seq![row]);
    assert(folded(none).push(entity_of(row)) =~= seq![entity_of(row)]);
}

/// Folding one more row of a todo that the rows so far hold already leaves
/// every entity as it was, but for that todo's: it gains the row's label, if
/// the row carries one.
pub proof fn lemma_fold_row_of_known_todo(rows: Seq<RowView>, row: RowView, j: int)
    requires
        0 <= j < folded(rows).len(),
        folded(rows)[j].id == row.id,
    ensures
        folded(rows.push(row)) == folded(rows).update(j, with_label(folded(rows)[j], row.label)),
{
    let more = rows.push(row);
    let ids = first_seen_ids(rows);
    assert(more.drop_last() =~= rows);
    assert(ids[j] == row.id);
    assert(first_seen_ids(more) == ids);
    lemma_first_seen_ids_distinct(rows);
    assert forall|k: int| 0 <= k < ids.len() implies #[trigger] folded(more)[k] == folded(
        rows,
    ).update(j, with_label(folded(rows)[j], row.label))[k] by {
        lemma_grouped_push(rows, row, ids[k]);
        lemma_first_seen_ids_cover(rows, ids[k]);
    }
    assert(folded(more) =~= folded(rows).update(j, with_label(folded(rows)[j], row.label)));
}

/// Folding one more row of a todo that the rows so far do not hold appends
/// that todo's entity, with the row's label if the row carries one, and
/// leaves every other entity as it was.
pub proof fn lemma_fold_row_of_new_todo(rows: Seq<RowView>, row: RowView)
    requires
        forall|j: int| 0 <= j < folded(rows).len() ==> (#[trigger] folded(rows)[j]).id != row.id,
    ensures
        folded(rows.push(row)) == folded(rows).push(entity_of(row)),
{
    let more = rows.push(row);
    let ids = first_seen_ids(rows);
    assert(more.drop_last() =~= rows);
    assert(!ids.contains(row.id)) by {
        if ids.contains(row.id) {
            let j = choose|j: int| 0 <= j < ids.len() && ids[j] == row.id;
            assert(folded(rows)[j].id == row.id);
        }
    }
    assert(first_seen_ids(more) == ids.push(row.id));
    assert forall|k: int| 0 <= k < ids.len() + 1 implies #[trigger] folded(more)[k] == folded(
        rows,
    ).push(entity_of(row))[k] by {
        if k < ids.len() {
            lemma_grouped_push(rows, row, ids[k]);
            lemma_first_seen_ids_cover(rows, ids[k]);
        } else {
            lemma_grouped_push(rows, row, row.id);
            lemma_first_seen_ids_cover(rows, row.id);
        }
    }
    assert(folded(more) =~= folded(rows).push(entity_of(row)));
}

/// How the entity of todo `id` changes when one more row is folded.
proof fn lemma_grouped_push(rows: Seq<RowView>, row: RowView, id: i32)
    ensures
        row.id != id ==> grouped(rows.push(row), id) == grouped(rows, id),
        row.id == id && rows_of(rows, id).len() > 0 ==> grouped(rows.push(row), id) == with_label(
            grouped(rows, id),
            row.label,
        ),
        row.id == id && rows_of(rows, id).len() == 0 ==> grouped(rows.push(row), id) == entity_of(
            row,
        ),
        rows_of(rows, id).len() > 0 <==> rows_hold(rows, id),
{
    let more = rows.push(row);
    let of_id = |r: RowView| r.id == id;
    let label_if = |r: RowView|
        if r.id == id {
            r.label
        } else {
            None
        };
    rows.lemma_filter_push(row, of_id);
    assert(more.drop_last() =~= rows);
    assert(more.last() == row);
    assert(more.filter_map(label_if) =~= rows.filter_map(label_if) + label_seq(label_if(row)));
    lemma_rows_of_nonempty(rows, id);
    if row.id == id && rows_of(rows, id).len() == 0 {
        lemma_labels_of_unlabelled(rows, id);
        assert(labels_of(more, id) =~= label_seq(row.label));
    }
}

/// Todo `id` has rows exactly when some row has that id.
proof fn lemma_rows_of_nonempty(rows: Seq<RowView>, id: i32)
    ensures
        rows_of(rows, id).len() > 0 <==> rows_hold(rows, id),
    decreases rows.len(),
{
    let of_id = |r: RowView| r.id == id;
    if rows.len() == 0 {
        reveal(Seq::filter);
    } else {
        let front = rows.drop_last();
        lemma_rows_of_nonempty(front, id);
        assert(front.push(rows.last()) =~= rows);
        front.lemma_filter_push(rows.last(), of_id);
        if rows_of(rows, id).len() > 0 {
            if rows.last().id == id {
                assert(rows[rows.len() - 1].id == id);
            } else {
                let k = choose|k: int| 0 <= k < front.len() && (#[trigger] front[k]).id == id;
                assert(rows[k].id == id);
            }
        }
        if rows_hold(rows, id) {
            let k = choose|k: int| 0 <= k < rows.len() && (#[trigger] rows[k]).id == id;
            if k < rows.len() - 1 {
                assert(front[k].id == id);
            }
        }
    }
}

/// The first of the rows of todo `id` is the first row that has that id.
proof fn lemma_first_of_rows_of(rows: Seq<RowView>, id: i32, k: int)
    requires
        is_first_row(rows, id, k),
    ensures
        rows_of(rows, id).len() > 0,
        rows_of(rows, id).first() == rows[k],
    decreases rows.len(),
{
    let of_id = |r: RowView| r.id == id;
    let front = rows.drop_last();
    assert(front.push(rows.last()) =~= rows);
    front.lemma_filter_push(rows.last(), of_id);
    if k < rows.len() - 1 {
        assert(is_first_row(front, id, k)) by {
            assert forall|m: int| 0 <= m < k implies (#[trigger] front[m]).id != id by {
                assert(rows[m].id != id);
            }
        }
        lemma_first_of_rows_of(front, id, k);
    } else {
        lemma_rows_of_nonempty(front, id);
        if rows_of(front, id).len() > 0 {
            let m = choose|m: int| 0 <= m < front.len() && (#[trigger] front[m]).id == id;
            assert(rows[m].id == id);
        }
    }
}

/// The labels of a todo are those of its label-carrying rows, in row order.
proof fn lemma_labels_of_as_filter(rows: Seq<RowView>, id: i32)
    ensures
        labels_of(rows, id) == rows.filter(
            |row: RowView| row.id == id && row.label is Some,
        ).map_values(|row: RowView| row.label->0),
    decreases rows.len(),
{
    let carries = |row: RowView| row.id == id && row.label is Some;
    let label = |row: RowView| row.label->0;
    if rows.len() == 0 {
        reveal(Seq::filter);
        assert(labels_of(rows, id) =~= rows.filter(carries).map_values(label));
    } else {
        let front = rows.drop_last();
        lemma_labels_of_as_filter(front, id);
        assert(front.push(rows.last()) =~= rows);
        front.lemma_filter_push(rows.last(), carries);
        assert(labels_of(rows, id) =~= rows.filter(carries).map_values(label));
    }
}

/// A todo none of whose rows carries a label has no labels.
proof fn lemma_labels_of_unlabelled(rows: Seq<RowView>, id: i32)
    requires
        forall|k: int|
            0 <= k < rows.len() && (#[trigger] rows[k]).id == id ==> rows[k].label is None,
    ensures
        labels_of(rows, id) == Seq::<LabelView>::empty(),
    decreases rows.len(),
{
    if rows.len() > 0 {
        let front = rows.drop_last();
        assert forall|k: int|
            0 <= k < front.len() && (#[trigger] front[k]).id == id implies front[k].label
            is None by {
            assert(rows[k].id == id);
        }
        lemma_labels_of_unlabelled(front, id);
        let last = rows[rows.len() - 1];
        assert(last.id == id ==> last.label is None);
    }
}

} // verus!
