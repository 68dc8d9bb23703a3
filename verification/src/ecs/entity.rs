//! An entity: a bag of components, at most one per component type.
//!
//! A component travels as a runtime type tag plus the component's data,
//! opaque under that tag — the same modelling of type-erased values as the
//! mailbox uses. Retrieval is checked against the tag and reports a missing
//! component as an error, never as a fault.

use vstd::prelude::*;

verus! {

/// The errors of the component store.
#[derive(Clone, Copy, Debug, PartialEq, Eq, Structural)]
pub enum EntityError {
    /// No component of the requested type is stored.
    ComponentNotFound,
    /// A stored value could not be read back under its recorded type.
    CouldNotDowncast,
    /// A stored value is shared and cannot be handed out for mutation.
    CouldNotMakeMutable,
    /// A component of this type is already stored.
    ComponentAlreadyExists,
}

/// One component: the runtime tag of its type, and its data, opaque under
/// that tag.
#[derive(Debug, PartialEq, Eq)]
pub struct Component {
    /// The runtime identity of the component's type.
    pub tag: u64,
    /// The component's data.
    pub data: Vec<u8>,
}

impl Component {
    /// Bundle component data under a type tag.
    pub fn new(tag: u64, data: Vec<u8>) -> (c: Component)
        ensures
            c.tag == tag,
            c.data == data,
    {
        Component { tag, data }
    }
}

/// No two stored components share a tag.
pub open spec fn distinct_tags(s: Seq<Component>) -> bool {
    forall|i: int, j: int| 0 <= i < j < s.len() ==> s[i].tag != s[j].tag
}

/// The map a component store denotes: each stored tag to its data.
pub open spec fn components_map(s: Seq<Component>) -> Map<u64, Seq<u8>>
    decreases s.len(),
{
    if s.len() == 0 {
        Map::empty()
    } else {
        components_map(s.drop_last()).insert(s.last().tag, s.last().data@)
    }
}

proof fn lemma_components_map_contains(s: Seq<Component>, tag: u64)
    ensures
        components_map(s).contains_key(tag) <==> exists|j: int|
            0 <= j < s.len() && (#[trigger] s[j]).tag == tag,
    decreases s.len(),
{
    if s.len() == 0 {
    } else {
        lemma_components_map_contains(s.drop_last(), tag);
        if components_map(s).contains_key(tag) {
            if s.last().tag == tag {
                assert(s[s.len() - 1].tag == tag);
            } else {
                let j = choose|j: int|
                    0 <= j < s.drop_last().len() && (#[trigger] s.drop_last()[j]).tag == tag;
                assert(s[j].tag == tag);
            }
        }
        if exists|j: int| 0 <= j < s.len() && (#[trigger] s[j]).tag == tag {
            let j = choose|j: int| 0 <= j < s.len() && (#[trigger] s[j]).tag == tag;
            if j < s.len() - 1 {
                assert(s.drop_last()[j].tag == tag);
            }
        }
    }
}

proof fn lemma_components_map_get(s: Seq<Component>, i: int)
    requires
        distinct_tags(s),
        0 <= i < s.len(),
    ensures
        components_map(s).contains_key(s[i].tag),
        components_map(s)[s[i].tag] == s[i].data@,
    decreases s.len(),
{
    if i == s.len() - 1 {
    } else {
        assert(s.drop_last()[i] == s[i]);
        lemma_components_map_get(s.drop_last(), i);
        assert(s.last().tag != s[i].tag);
    }
}

proof fn lemma_components_map_replace_data(s: Seq<Component>, s2: Seq<Component>, i: int)
    requires
        distinct_tags(s),
        0 <= i < s.len(),
        s2.len() == s.len(),
        s2[i].tag == s[i].tag,
        forall|j: int| 0 <= j < s.len() && j != i ==> s2[j] == s[j],
    ensures
        components_map(s2) == components_map(s).insert(s[i].tag, s2[i].data@),
        distinct_tags(s2),
    decreases s.len(),
{
    assert forall|a: int, b: int| 0 <= a < b < s2.len() implies s2[a].tag != s2[b].tag by {
        assert(s2[a].tag == s[a].tag);
        assert(s2[b].tag == s[b].tag);
    }
    if i == s.len() - 1 {
        assert(s2.drop_last() =~= s.drop_last());
        assert(components_map(s2) =~= components_map(s).insert(s[i].tag, s2[i].data@));
    } else {
        assert(s.drop_last()[i] == s[i]);
        assert(s2.drop_last()[i] == s2[i]);
        lemma_components_map_replace_data(s.drop_last(), s2.drop_last(), i);
        assert(s2.last() == s.last());
        assert(s.last().tag != s[i].tag);
        assert(components_map(s2) =~= components_map(s).insert(s[i].tag, s2[i].data@));
    }
}

/// A bag of components keyed by their type tags, with an identity inside
/// its world.
pub struct Entity {
    id: usize,
    components: Vec<Component>,
}

impl Entity {
    /// The entity's identity.
    pub closed spec fn id_spec(self) -> usize {
        self.id
    }

    /// The components stored, as a map from tag to data.
    pub closed spec fn component_map(self) -> Map<u64, Seq<u8>> {
        components_map(self.components@)
    }

    /// Well-formedness: at most one component per tag. Constructors
    /// establish it and every method preserves it.
    pub closed spec fn wf(self) -> bool {
        distinct_tags(self.components@)
    }

    /// Create a new entity with the given identity and no components.
    pub fn new(id: usize) -> (e: Entity)
        ensures
            e.id_spec() == id,
            e.component_map() == Map::<u64, Seq<u8>>::empty(),
            e.wf(),
    {
        Entity { id, components: Vec::new() }
    }

    /// Get this entity's identity.
    pub fn id(&self) -> (i: usize)
        ensures
            i == self.id_spec(),
    {
        self.id
    }

    /// The index of the component stored under `tag`, if any.
    fn find_index(&self, tag: u64) -> (r: Option<usize>)
        ensures
            match r {
                Some(i) => i < self.components@.len() && self.components@[i as int].tag == tag,
                None => forall|j: int|
                    0 <= j < self.components@.len() ==> (#[trigger] self.components@[j]).tag
                        != tag,
            },
    {
        let mut i: usize = 0;
        while i < self.components.len()
            invariant
                i <= self.components@.len(),
                forall|j: int| 0 <= j < i ==> (#[trigger] self.components@[j]).tag != tag,
            decreases self.components@.len() - i,
        {
            if self.components[i].tag == tag {
                return Some(i);
            }
            i = i + 1;
        }
        None
    }

    /// Insert a component. Fails, leaving the entity unchanged, exactly when
    /// a component of the same type is already stored.
    pub fn insert(&mut self, c: Component) -> (r: Result<(), EntityError>)
        requires
            old(self).wf(),
        ensures
            final(self).wf(),
            final(self).id_spec() == old(self).id_spec(),
            match r {
                Ok(()) => !old(self).component_map().contains_key(c.tag)
                    && final(self).component_map() == old(self).component_map().insert(
                    c.tag,
                    c.data@,
                ),
                Err(e) => {
                    &&& e == EntityError::ComponentAlreadyExists
                    &&& old(self).component_map().contains_key(c.tag)
                    &&& *final(self) == *old(self)
                },
            },
    {
        proof {
            lemma_components_map_contains(self.components@, c.tag);
        }
        match self.find_index(c.tag) {
            Some(_) => Err(EntityError::ComponentAlreadyExists),
            None => {
                let ghost s0 = self.components@;
                self.components.push(c);
                proof {
                    assert(self.components@.drop_last() =~= s0);
                }
                Ok(())
            },
        }
    }

    /// Get the component stored under `tag`. Fails exactly when none is.
    pub fn get(&self, tag: u64) -> (r: Result<&Component, EntityError>)
        requires
            self.wf(),
        ensures
            match r {
                Ok(c) => {
                    &&& self.component_map().contains_key(tag)
                    &&& c.tag == tag
                    &&& c.data@ == self.component_map()[tag]
                },
                Err(e) => e == EntityError::ComponentNotFound && !self.component_map().contains_key(
                    tag,
                ),
            },
    {
        proof {
            lemma_components_map_contains(self.components@, tag);
        }
        match self.find_index(tag) {
            Some(i) => {
                proof {
                    lemma_components_map_get(self.components@, i as int);
                }
                Ok(&self.components[i])
            },
            None => Err(EntityError::ComponentNotFound),
        }
    }

    /// Get exclusive access to the data of the component stored under
    /// `tag`; its tag — the identity it is stored under — stays as it is.
    /// Fails, leaving the entity unchanged, exactly when no component of
    /// that type is stored.
    pub fn get_mut(&mut self, tag: u64) -> (r: Result<&mut Vec<u8>, EntityError>)
        requires
            old(self).wf(),
        ensures
            match r {
                Ok(d) => {
                    &&& old(self).component_map().contains_key(tag)
                    &&& (*d)@ == old(self).component_map()[tag]
                    &&& final(self).component_map() == old(self).component_map().insert(
                        tag,
                        final(d)@,
                    )
                    &&& final(self).wf()
                    &&& final(self).id_spec() == old(self).id_spec()
                },
                Err(e) => {
                    &&& e == EntityError::ComponentNotFound
                    &&& !old(self).component_map().contains_key(tag)
                    &&& *final(self) == *old(self)
                },
            },
    {
        proof {
            lemma_components_map_contains(self.components@, tag);
        }
        match self.find_index(tag) {
            Some(i) => {
                proof {
                    lemma_components_map_get(self.components@, i as int);
                    let s = self.components@;
                    assert forall|s2: Seq<Component>|
                        (s2.len() == s.len() && (#[trigger] s2[i as int]).tag == s[i as int].tag
                            && (forall|j: int|
                            0 <= j < s.len() && j != i as int ==> s2[j] == s[j])) implies (
                    components_map(s2) == components_map(s).insert(tag, s2[i as int].data@)
                        && distinct_tags(s2)) by {
                        lemma_components_map_replace_data(s, s2, i as int);
                    }
                }
                Ok(&mut self.components[i].data)
            },
            None => Err(EntityError::ComponentNotFound),
        }
    }
}

} // verus!
