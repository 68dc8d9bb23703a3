//! The world: the ordered collection of entities, each identified by the
//! index it was spawned at.

use vstd::prelude::*;

use crate::ecs::entity::Entity;

verus! {

/// The errors of the world.
#[derive(Clone, Copy, Debug, PartialEq, Eq, Structural)]
pub enum WorldError {
    /// A resource with this identity already exists.
    ResourceAlreadyExists,
}

/// The ordered collection of spawned entities.
pub struct World {
    entities: Vec<Entity>,
}

impl World {
    /// The spawned entities, in spawn order.
    pub closed spec fn entities_seq(self) -> Seq<Entity> {
        self.entities@
    }

    /// Create a new entity identified by its spawn position, add it to the
    /// world, and hand it back for use. Never fails: every spawn position is
    /// fresh.
    pub fn spawn(&mut self) -> (r: Result<&mut Entity, WorldError>)
        ensures
            match r {
                Ok(e) => {
                    &&& (*e).id_spec() == old(self).entities_seq().len()
                    &&& (*e).component_map() == Map::<u64, Seq<u8>>::empty()
                    &&& (*e).wf()
                    &&& final(self).entities_seq() == old(self).entities_seq().push(*final(e))
                },
                Err(_) => false,
            },
    {
        let id: usize = self.entities.len();
        self.entities.push(Entity::new(id));
        let i: usize = self.entities.len() - 1;
        Ok(&mut self.entities[i])
    }
}

impl Default for World {
    /// A world with no entities.
    fn default() -> (w: World)
        ensures
            w.entities_seq() == Seq::<Entity>::empty(),
    {
        World { entities: Vec::new() }
    }
}

} // verus!
