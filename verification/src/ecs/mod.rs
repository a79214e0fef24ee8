//! Entities and their component storage.
pub mod component;

pub use component::{Component, ComponentStorage, ComponentWrapper};

use vstd::prelude::*;

verus! {

/// An entity handle as the world stores it: just its id.
#[derive(Clone, Copy, Debug)]
pub struct IEntity {
    pub(crate) id: u32,
}

impl IEntity {
    /// The id of the entity.
    pub closed spec fn entity_id(self) -> u32 {
        self.id
    }

    /// The handle of the entity with the given id.
    pub fn from_id(id: u32) -> (r: IEntity)
        ensures
            r.entity_id() == id,
    {
        IEntity { id }
    }

    /// The id this handle stands for.
    pub fn id(&self) -> (r: u32)
        ensures
            r == self.entity_id(),
    {
        self.id
    }
}

/// Draws a fresh entity id from `rand::random` (the thread-local generator).
/// Nothing is known of the value.
#[verifier::external_body]
fn random_id() -> (r: u32) {
    rand::random::<u32>()
}

/// The ids of the entities of a world, in creation order, with their count.
pub struct EntityRegistry {
    pub entity_count: u32,
    pub entities: Vec<IEntity>,
}

impl EntityRegistry {
    /// The ids of the entities, in creation order.
    pub closed spec fn ids(&self) -> Seq<u32> {
        self.entities@.map_values(|e: IEntity| e.id)
    }

    /// No entity.
    pub fn new() -> (r: EntityRegistry)
        ensures
            r.entity_count == 0,
            r.ids() == Seq::<u32>::empty(),
    {
        let r = EntityRegistry { entity_count: 0, entities: Vec::new() };
        assert(r.ids() =~= Seq::<u32>::empty());
        r
    }

    /// Records a new entity of id `id`.
    pub fn add_entity_with_id(&mut self, id: u32) -> (r: IEntity)
        requires
            old(self).entity_count < u32::MAX,
        ensures
            r.entity_id() == id,
            final(self).entity_count == old(self).entity_count + 1,
            final(self).ids() == old(self).ids().push(id),
    {
        self.entity_count = self.entity_count + 1;
        let ghost before = self.entities@;
        self.entities.push(IEntity { id });
        assert(self.ids() =~= before.map_values(|e: IEntity| e.id).push(id));
        IEntity { id }
    }

    /// Creates an entity with a random id.
    pub fn add_entity(&mut self) -> (r: IEntity)
        requires
            old(self).entity_count < u32::MAX,
        ensures
            final(self).entity_count == old(self).entity_count + 1,
            final(self).ids() == old(self).ids().push(r.entity_id()),
    {
        let id = random_id();
        self.add_entity_with_id(id)
    }

    /// Forgets every entity of id `id`; the others keep their order.
    pub fn remove_entity(&mut self, id: u32)
        requires
            old(self).entity_count > 0,
        ensures
            final(self).entity_count == old(self).entity_count - 1,
            final(self).ids() == old(self).ids().filter(|x: u32| x != id),
    {
        self.entity_count = self.entity_count - 1;
        let ghost all = self.ids();
        let mut kept: Vec<IEntity> = Vec::new();
        let mut i: usize = 0;
        while i < self.entities.len()
            invariant
                i <= self.entities@.len(),
                all == self.entities@.map_values(|e: IEntity| e.id),
                kept@.map_values(|e: IEntity| e.id) == all.take(i as int).filter(|x: u32| x != id),
            decreases self.entities@.len() - i,
        {
            proof {
                reveal(Seq::filter);
                assert(all.take(i + 1).drop_last() =~= all.take(i as int));
            }
            let e = self.entities[i];
            let ghost before = kept@;
            if e.id != id {
                kept.push(e);
                assert(kept@.map_values(|e: IEntity| e.id) =~= before.map_values(|e: IEntity| e.id).push(e.id));
            }
            i = i + 1;
        }
        assert(all.take(i as int) =~= all);
        self.entities = kept;
    }

    /// Whether an entity of id `id` is recorded.
    pub fn contains(&self, id: u32) -> (r: bool)
        ensures
            r == self.ids().contains(id),
    {
        let mut i: usize = 0;
        while i < self.entities.len()
            invariant
                i <= self.entities@.len(),
                forall|j: int| 0 <= j < i ==> self.ids()[j] != id,
            decreases self.entities@.len() - i,
        {
            if self.entities[i].id == id {
                assert(self.ids()[i as int] == id);
                return true;
            }
            i = i + 1;
        }
        false
    }
}

/// After removing an id, no entity of that id is left, and every other
/// recorded id still is.
pub proof fn lemma_remove_entity(ids: Seq<u32>, id: u32, other: u32)
    requires
        other != id,
    ensures
        !ids.filter(|x: u32| x != id).contains(id),
        ids.filter(|x: u32| x != id).contains(other) == ids.contains(other),
{
    let f = |x: u32| x != id;
    ids.filter_lemma(f);
    if ids.contains(other) {
        let k = choose|k: int| 0 <= k < ids.len() && ids[k] == other;
        ids.lemma_filter_contains(f, k);
    }
    if ids.filter(f).contains(other) {
        ids.lemma_filter_contains_rev(f, other);
    }
}

} // verus!
