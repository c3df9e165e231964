//! The ordered store of entities.
use vstd::prelude::*;
use crate::entity::Entity;

verus! {

/// Owns every entity. An entity is addressed by its index, which is the
/// order in which it was added.
pub struct World {
    entities: Vec<Entity>,
}

impl View for World {
    type V = Seq<Entity>;

    closed spec fn view(&self) -> Seq<Entity> {
        self.entities@
    }
}

impl World {
    pub fn new() -> (w: World)
        ensures
            w@ == Seq::<Entity>::empty(),
    {
        World { entities: Vec::new() }
    }

    /// Appends `entity`; the entities already there keep their indices.
    pub fn add_entity(&mut self, entity: Entity)
        ensures
            final(self)@ == old(self)@.push(entity),
    {
        self.entities.push(entity);
    }

    pub fn entities(&self) -> (s: &[Entity])
        ensures
            s@ == self@,
    {
        self.entities.as_slice()
    }

    pub fn entities_mut(&mut self) -> (s: &mut [Entity])
        ensures
            s@ == old(self)@,
            final(self)@ == final(s)@,
    {
        self.entities.as_mut_slice()
    }

    pub fn clear(&mut self)
        ensures
            final(self)@ == Seq::<Entity>::empty(),
    {
        self.entities.clear();
    }
}

} // verus!
