//! Queries: reusable lookups of one component type against an entity.

use vstd::prelude::*;

use crate::ecs::entity::Component;
use crate::ecs::entity::Entity;
use crate::ecs::entity::EntityError;

verus! {

/// A read-only query: an entity paired with the tag of the component type
/// asked for.
pub struct Query<'q> {
    entity: &'q Entity,
    tag: u64,
}

impl<'q> Query<'q> {
    /// The entity queried.
    pub closed spec fn entity_spec(self) -> Entity {
        *self.entity
    }

    /// The tag of the component type asked for.
    pub closed spec fn tag_spec(self) -> u64 {
        self.tag
    }

    /// Build a query for the component type `tag` against `entity`.
    pub fn new(entity: &'q Entity, tag: u64) -> (q: Query<'q>)
        ensures
            q.entity_spec() == *entity,
            q.tag_spec() == tag,
    {
        Query { entity, tag }
    }

    /// Run the query: the component stored under the tag, or
    /// `ComponentNotFound` exactly when none is.
    pub fn query(&self) -> (r: Result<&Component, EntityError>)
        requires
            self.entity_spec().wf(),
        ensures
            match r {
                Ok(c) => {
                    &&& self.entity_spec().component_map().contains_key(self.tag_spec())
                    &&& c.tag == self.tag_spec()
                    &&& c.data@ == self.entity_spec().component_map()[self.tag_spec()]
                },
                Err(e) => e == EntityError::ComponentNotFound && !self.entity_spec()
                    .component_map().contains_key(self.tag_spec()),
            },
    {
        self.entity.get(self.tag)
    }
}

/// A mutating query: the tag of the component type asked for, to be run
/// against an exclusively borrowed entity.
pub struct QueryMut {
    tag: u64,
}

impl QueryMut {
    /// The tag of the component type asked for.
    pub closed spec fn tag_spec(self) -> u64 {
        self.tag
    }

    /// Build a mutating query for the component type `tag`.
    pub fn new(tag: u64) -> (q: QueryMut)
        ensures
            q.tag_spec() == tag,
    {
        QueryMut { tag }
    }

    /// Run the query: exclusive access to the data of the component stored
    /// under the tag, or `ComponentNotFound` exactly when none is.
    pub fn query_mut<'e>(&self, entity: &'e mut Entity) -> (r: Result<&'e mut Vec<u8>, EntityError>)
        requires
            old(entity).wf(),
        ensures
            match r {
                Ok(d) => {
                    &&& old(entity).component_map().contains_key(self.tag_spec())
                    &&& (*d)@ == old(entity).component_map()[self.tag_spec()]
                    &&& final(entity).component_map() == old(entity).component_map().insert(
                        self.tag_spec(),
                        final(d)@,
                    )
                    &&& final(entity).wf()
                    &&& final(entity).id_spec() == old(entity).id_spec()
                },
                Err(e) => {
                    &&& e == EntityError::ComponentNotFound
                    &&& !old(entity).component_map().contains_key(self.tag_spec())
                    &&& *final(entity) == *old(entity)
                },
            },
    {
        entity.get_mut(self.tag)
    }
}

} // verus!
