//! Labels and their repository.

use vstd::prelude::*;

use crate::repositories::{is_error_on, ErrorView, RepositoryError};

pub mod test_utils;

verus! {

/// A tag that can be attached to todos. Its identity is its id; its name is
/// free text.
#[derive(Debug, PartialEq, Eq)]
pub struct Label {
    pub id: i32,
    pub name: String,
}

/// Mathematical model of a [`Label`].
pub struct LabelView {
    pub id: i32,
    pub name: Seq<char>,
}

impl View for Label {
    type V = LabelView;

    open spec fn view(&self) -> LabelView {
        LabelView { id: self.id, name: self.name@ }
    }
}

impl DeepView for Label {
    type V = LabelView;

    open spec fn deep_view(&self) -> LabelView {
        self@
    }
}

impl Clone for Label {
    fn clone(&self) -> (copy: Self)
        ensures
            copy == *self,
    {
        Label { id: self.id, name: self.name.clone() }
    }
}

impl Label {
    pub fn new(id: i32, name: String) -> (label: Self)
        ensures
            label == (Label { id, name }),
    {
        Label { id, name }
    }
}

/// What a caller submits to rename a label.
#[derive(Debug, PartialEq, Eq)]
pub struct UpdateLabel {
    pub id: i32,
    pub name: String,
}

impl View for UpdateLabel {
    type V = LabelView;

    open spec fn view(&self) -> LabelView {
        LabelView { id: self.id, name: self.name@ }
    }
}

impl Clone for UpdateLabel {
    fn clone(&self) -> (copy: Self)
        ensures
            copy == *self,
    {
        UpdateLabel { id: self.id, name: self.name.clone() }
    }
}

/// Mathematical model of the result of an operation that returns a label.
pub open spec fn label_result_view(result: Result<Label, RepositoryError>) -> Result<
    LabelView,
    ErrorView,
> {
    match result {
        Ok(label) => Ok(label@),
        Err(error) => Err(error@),
    }
}

/// Whether `labels` are the labels of `store`: each of them is stored under
/// its id, none comes twice, and every stored label is among them.
pub open spec fn lists(labels: Seq<LabelView>, store: Map<i32, LabelView>) -> bool {
    &&& labels.len() == store.len()
    &&& forall|i: int|
        0 <= i < labels.len() ==> store.contains_key((#[trigger] labels[i]).id)
            && store[labels[i].id] == labels[i]
    &&& forall|i: int, j: int|
        0 <= i < j < labels.len() ==> (#[trigger] labels[i]).id != (#[trigger] labels[j]).id
    &&& forall|id: i32| #[trigger]
        store.contains_key(id) ==> exists|i: int|
            0 <= i < labels.len() && #[trigger] labels[i] == store[id]
}

/// Whether every label of `store` is stored under its own id, so that no two
/// labels of the store share an id.
pub open spec fn keyed_by_id(store: Map<i32, LabelView>) -> bool {
    forall|id: i32| #[trigger] store.contains_key(id) ==> store[id].id == id
}

/// A store of labels that are found by their ids. Every operation finds and
/// leaves each label stored under its own id.
pub trait LabelRepository: Sized {
    /// The labels that the repository holds, by id.
    spec fn entries(&self) -> Map<i32, LabelView>;

    /// Stores a new label with the given name under an id that the
    /// repository picks, and returns it. A repository that keeps names
    /// unique fails instead where a label has the name already, with the id
    /// of that label.
    fn create(&mut self, name: String) -> (result: Result<Label, RepositoryError>)
        requires
            old(self).entries().len() < i32::MAX,
        ensures
            keyed_by_id(final(self).entries()),
            match result {
                Ok(label) => {
                    &&& label.name@ == name@
                    &&& final(self).entries() == old(self).entries().insert(label.id, label@)
                },
                Err(error) => {
                    &&& final(self).entries() == old(self).entries()
                    &&& match error@ {
                        ErrorView::Duplicate(existing) => old(self).entries().contains_key(existing)
                            && old(self).entries()[existing].name == name@,
                        ErrorView::Unexpected(_) => true,
                        ErrorView::NotFound(_) => false,
                    }
                },
            },
    ;

    /// Returns every label that the repository holds.
    fn all(&self) -> (result: Result<Vec<Label>, RepositoryError>)
        ensures
            keyed_by_id(self.entries()),
            match result {
                Ok(labels) => lists(labels.deep_view(), self.entries()),
                Err(error) => error@ is Unexpected,
            },
    ;

    /// Removes the label with the given id.
    fn delete(&mut self, id: i32) -> (result: Result<(), RepositoryError>)
        ensures
            keyed_by_id(final(self).entries()),
            match result {
                Ok(()) => {
                    &&& old(self).entries().contains_key(id)
                    &&& final(self).entries() == old(self).entries().remove(id)
                },
                Err(error) => is_error_on(error@, id, old(self).entries().contains_key(id))
                    && final(self).entries() == old(self).entries(),
            },
    ;
}

/// What looking a name up before a label is created with it comes to: where
/// the lookup found a label, creating fails as a duplicate of it; where it
/// found none, the name is the name of the row to insert.
pub open spec fn name_to_insert_of(name: Seq<char>, existing: Option<LabelView>) -> Result<
    Seq<char>,
    ErrorView,
> {
    match existing {
        Some(label) => Err(ErrorView::Duplicate(label.id)),
        None => Ok(name),
    }
}

/// Decides, from the label that a lookup by `name` found, whether a label of
/// that name may be created: returns the name of the row to insert, or fails
/// with the id of the label that has the name already, in which case nothing
/// is to be inserted.
pub fn name_to_insert(name: String, existing: Option<Label>) -> (decision: Result<
    String,
    RepositoryError,
>)
    ensures
        match decision {
            Ok(insert) => name_to_insert_of(name@, existing.deep_view()) == Ok::<
                Seq<char>,
                ErrorView,
            >(insert@),
            Err(error) => name_to_insert_of(name@, existing.deep_view()) == Err::<
                Seq<char>,
                ErrorView,
            >(error@),
        },
{
    match existing {
        Some(label) => Err(RepositoryError::Duplicate(label.id)),
        None => Ok(name),
    }
}

} // verus!
