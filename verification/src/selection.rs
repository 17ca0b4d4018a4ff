use std::collections::HashSet;
use vstd::prelude::*;

verus! {

broadcast use vstd::std_specs::hash::group_hash_axioms;

/// An entity of the scene, by its bits.
pub type EntityId = u64;

/// The entities selected in the editor's hierarchy panel.
pub struct SelectedEntities {
    pub list: HashSet<EntityId>,
}

impl SelectedEntities {
    pub fn new() -> (r: Self)
        ensures
            r.list@ == Set::<EntityId>::empty(),
    {
        SelectedEntities { list: HashSet::new() }
    }

    pub fn is_selected(&self, entity: EntityId) -> (r: bool)
        ensures
            r == self.list@.contains(entity),
    {
        self.list.contains(&entity)
    }

    /// A click on an entity's label: selects it when it was not selected,
    /// deselects it otherwise.
    pub fn toggle(&mut self, entity: EntityId)
        ensures
            final(self).list@ == (if old(self).list@.contains(entity) {
                old(self).list@.remove(entity)
            } else {
                old(self).list@.insert(entity)
            }),
    {
        if !self.list.contains(&entity) {
            self.list.insert(entity);
        } else {
            self.list.remove(&entity);
        }
    }
}

/// Clicking an entity twice leaves the selection as it was.
pub proof fn law_toggle_twice(s0: Set<EntityId>, s1: Set<EntityId>, s2: Set<EntityId>, entity: EntityId)
    requires
        s1 == (if s0.contains(entity) { s0.remove(entity) } else { s0.insert(entity) }),
        s2 == (if s1.contains(entity) { s1.remove(entity) } else { s1.insert(entity) }),
    ensures
        s2 == s0,
{
    assert(s2 =~= s0);
}

} // verus!
