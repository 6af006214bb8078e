//! A label repository that keeps its labels in memory.

use std::collections::HashMap;
use vstd::prelude::*;
use vstd::std_specs::iter::IteratorSpec;

use crate::repositories::label::{
    keyed_by_id, label_result_view, lists, Label, LabelRepository, LabelView,
};
use crate::repositories::{unit_result_view, ErrorView, RepositoryError};

verus! {

broadcast use vstd::std_specs::hash::group_hash_axioms;

/// The id that the next label created in `store` gets: one more than the
/// number of labels stored.
pub open spec fn next_id(store: Map<i32, LabelView>) -> int {
    store.len() as int + 1
}

/// The label that creating one with the given name in `store` makes.
pub open spec fn created_in(store: Map<i32, LabelView>, name: Seq<char>) -> LabelView {
    LabelView { id: next_id(store) as i32, name }
}

/// `store` after a label with the given name was created in it. A label
/// that was stored under the new label's id is replaced.
pub open spec fn after_create(store: Map<i32, LabelView>, name: Seq<char>) -> Map<i32, LabelView> {
    store.insert(next_id(store) as i32, created_in(store, name))
}

/// What deleting label `id` from `store` returns.
pub open spec fn deleted_from(store: Map<i32, LabelView>, id: i32) -> Result<(), ErrorView> {
    if store.contains_key(id) {
        Ok(())
    } else {
        Err(ErrorView::NotFound(id))
    }
}

/// `store` after label `id` was deleted from it.
pub open spec fn after_delete(store: Map<i32, LabelView>, id: i32) -> Map<i32, LabelView> {
    store.remove(id)
}

/// A label repository that keeps its labels in a map in memory. It does not
/// keep names unique.
#[derive(Debug)]
pub struct LabelRepositoryForMemory {
    store: HashMap<i32, Label>,
}

impl View for LabelRepositoryForMemory {
    type V = Map<i32, LabelView>;

    closed spec fn view(&self) -> Map<i32, LabelView> {
        self.store@.map_values(|label: Label| label@)
    }
}

impl LabelRepositoryForMemory {
    /// Every label is stored under its own id.
    #[verifier::type_invariant]
    spec fn well_formed(self) -> bool {
        forall|id: i32| #[trigger] self.store@.contains_key(id) ==> self.store@[id].id == id
    }

    /// A repository that holds no label.
    pub fn new() -> (repository: Self)
        ensures
            repository@ == Map::<i32, LabelView>::empty(),
    {
        let repository = LabelRepositoryForMemory { store: HashMap::new() };
        assert(repository@ =~= Map::<i32, LabelView>::empty());
        repository
    }

    /// Takes the map out of the repository and leaves an empty one, so that
    /// the map can be changed while the repository stays well-formed.
    fn take_store(&mut self) -> (store: HashMap<i32, Label>)
        ensures
            store@ == old(self).store@,
            final(self).store@ == Map::<i32, Label>::empty(),
    {
        let mut store: HashMap<i32, Label> = HashMap::new();
        core::mem::swap(&mut store, &mut self.store);
        store
    }

    /// The number of labels stored.
    pub fn len(&self) -> (count: usize)
        ensures
            count == self@.len(),
            self@.dom().finite(),
            keyed_by_id(self@),
    {
        proof {
            use_type_invariant(self);
            assert(self@.dom() =~= self.store@.dom());
        }
        self.store.len()
    }
}

impl LabelRepository for LabelRepositoryForMemory {
    open spec fn entries(&self) -> Map<i32, LabelView> {
        self@
    }

    fn create(&mut self, name: String) -> (result: Result<Label, RepositoryError>)
        ensures
            label_result_view(result) == Ok::<LabelView, ErrorView>(created_in(old(self)@, name@)),
            final(self)@ == after_create(old(self)@, name@),
    {
        proof {
            use_type_invariant(&*self);
            assert(self@.dom() =~= self.store@.dom());
        }
        let id: i32 = (self.store.len() + 1) as i32;
        let label = Label::new(id, name);
        let stored = label.clone();
        let mut store = self.take_store();
        store.insert(id, stored);
        self.store = store;
        proof {
            assert(self@ =~= after_create(old(self)@, name@));
        }
        Ok(label)
    }

    fn all(&self) -> (result: Result<Vec<Label>, RepositoryError>)
        ensures
            result is Ok,
    {
        proof {
            use_type_invariant(self);
            assert(self@.dom() =~= self.store@.dom());
        }
        let mut labels: Vec<Label> = Vec::new();
        let ghost pairs = self.store.iter().remaining();
        for pair in iter: self.store.iter()
            invariant
                iter.seq() == pairs,
                pairs.no_duplicates(),
                labels.len() == iter.index(),
                forall|i: int| 0 <= i < labels.len() ==> #[trigger] labels[i] == *pairs[i].1,
        {
            labels.push(pair.1.clone());
        }
        proof {
            let listed = labels.deep_view();
            assert forall|i: int| 0 <= i < listed.len() implies self@.contains_key(
                (#[trigger] listed[i]).id,
            ) && self@[listed[i].id] == listed[i] by {
                assert(self.store@.contains_key(*pairs[i].0));
            }
            assert forall|i: int, j: int| 0 <= i < j < listed.len() implies (
            #[trigger] listed[i]).id != (#[trigger] listed[j]).id by {
                assert(self.store@.contains_key(*pairs[i].0));
                assert(self.store@.contains_key(*pairs[j].0));
                if listed[i].id == listed[j].id {
                    assert(pairs[i] == pairs[j]);
                }
            }
            assert forall|id: i32| #[trigger] self@.contains_key(id) implies exists|i: int|
                0 <= i < listed.len() && #[trigger] listed[i] == self@[id] by {
                assert(self.store@.contains_key(id));
                let i = choose|i: int|
                    0 <= i < pairs.len() && pairs[i] == (&id, &self.store@[id]);
                assert(listed[i] == self@[id]);
            }
            assert(lists(listed, self@));
        }
        Ok(labels)
    }

    fn delete(&mut self, id: i32) -> (result: Result<(), RepositoryError>)
        ensures
            unit_result_view(result) == deleted_from(old(self)@, id),
            final(self)@ == after_delete(old(self)@, id),
    {
        proof {
            use_type_invariant(&*self);
        }
        let mut store = self.take_store();
        let removed = store.remove(&id);
        self.store = store;
        proof {
            assert(self@ =~= after_delete(old(self)@, id));
        }
        match removed {
            Some(_) => Ok(()),
            None => Err(RepositoryError::NotFound(id)),
        }
    }
}

} // verus!
