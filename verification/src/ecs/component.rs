//! Contiguous storage of one component type, indexed by entity id.
use std::any::TypeId;
use std::collections::HashMap;
use vstd::prelude::*;

verus! {

broadcast use vstd::std_specs::hash::group_hash_axioms;

#[verifier::external_type_specification]
#[verifier::external_body]
pub struct ExTypeId(TypeId);

/// Marker for the data that can be attached to an entity.
pub trait Component {
    /// How many components of this type a storage reserves room for.
    /// Frequent components (positions, velocities) use a larger number.
    const CAPACITY: usize = 16;
}

/// A component together with the id of the entity that owns it.
#[derive(Debug)]
pub struct ComponentWrapper<T: Component> {
    pub entity_id: u32,
    pub component: T,
}

/// All components of one type, stored contiguously, with a map from entity
/// id to the index of that entity's component.
pub struct ComponentStorage<T: Component> {
    pub data: Vec<ComponentWrapper<T>>,
    pub entity_map: HashMap<u32, usize>,
    pub type_id: TypeId,
}

impl<T: Component> View for ComponentStorage<T> {
    /// The component each mapped entity has.
    type V = Map<u32, T>;

    open spec fn view(&self) -> Map<u32, T> {
        Map::new(
            |id: u32| self.entity_map@.contains_key(id),
            |id: u32| self.data@[self.entity_map@[id] as int].component,
        )
    }
}

impl<T: Component> ComponentStorage<T> {
    /// Every mapped entity points at a stored component that it owns.
    pub open spec fn wf(&self) -> bool {
        forall|id: u32| #[trigger]
            self.entity_map@.contains_key(id) ==> self.entity_map@[id] < self.data@.len()
                && self.data@[self.entity_map@[id] as int].entity_id == id
    }

    /// `wf`, and in addition every stored component is the one its owner is
    /// mapped to (no component is left behind by adding an entity twice).
    pub open spec fn indexed(&self) -> bool {
        &&& self.wf()
        &&& forall|i: int|
            0 <= i < self.data@.len() ==> self.entity_map@.contains_key(
                #[trigger] self.data@[i].entity_id,
            ) && self.entity_map@[self.data@[i].entity_id] == i
    }

    /// Creates an empty storage for the component type `type_id`.
    pub fn new(type_id: TypeId, capacity: usize) -> (r: Self)
        ensures
            r@ == Map::<u32, T>::empty(),
            r.data@.len() == 0,
            r.entity_map@ == Map::<u32, usize>::empty(),
            r.type_id == type_id,
            r.indexed(),
    {
        let r = ComponentStorage {
            data: Vec::with_capacity(capacity),
            entity_map: HashMap::with_capacity(capacity),
            type_id,
        };
        assert(r@ =~= Map::<u32, T>::empty());
        r
    }

    /// Stores `component` for `entity_id`: it is appended, and the entity
    /// is mapped to it (replacing an earlier mapping of the same entity).
    pub fn add_component(&mut self, entity_id: u32, component: T)
        ensures
            final(self).data@ == old(self).data@.push(ComponentWrapper { entity_id, component }),
            final(self).entity_map@ == old(self).entity_map@.insert(
                entity_id,
                old(self).data@.len() as usize,
            ),
            final(self).type_id == old(self).type_id,
            old(self).wf() ==> final(self).wf() && final(self)@ == old(self)@.insert(
                entity_id,
                component,
            ),
            old(self).indexed() && !old(self)@.contains_key(entity_id) ==> final(self).indexed()
                && final(self).entity_map@.len() == final(self).data@.len(),
            old(self).wf() && old(self).entity_map@.len() == old(self).data@.len() && !old(self)@.contains_key(entity_id) ==> final(self).wf() && final(self).entity_map@.len()
                == final(self).data@.len(),
    {
        proof {
            if self.wf() && self.entity_map@.len() == self.data@.len() {
                lemma_size_gives_indexed(&*self);
            }
        }
        let ghost old_self = *self;
        self.entity_map.insert(entity_id, self.data.len());
        self.data.push(ComponentWrapper { entity_id, component });
        proof {
            if old_self.wf() {
                assert(self.wf());
                assert(self@ =~= old_self@.insert(entity_id, component));
            }
            if old_self.indexed() && !old_self@.contains_key(entity_id) {
                assert forall|i: int| 0 <= i < self.data@.len() implies self.entity_map@.contains_key(
                    self.data@[i].entity_id,
                ) && self.entity_map@[self.data@[i].entity_id] == i by {
                    if i < old_self.data@.len() {
                        assert(old_self.entity_map@.contains_key(old_self.data@[i].entity_id));
                    }
                }
                assert(self.indexed());
                lemma_indexed_size(&*self);
            }
        }
    }

    /// Removes the component of `entity_id` and returns it.  The last stored
    /// component takes the freed slot, and its owner is re-mapped there.
    pub fn remove_component(&mut self, entity_id: u32) -> (r: Option<T>)
        requires
            old(self).entity_map@.contains_key(entity_id) ==> old(self).entity_map@[entity_id]
                < old(self).data@.len(),
        ensures
            final(self).type_id == old(self).type_id,
            !old(self).entity_map@.contains_key(entity_id) ==> r is None && final(self).data@
                == old(self).data@ && final(self).entity_map@ == old(self).entity_map@,
            old(self).entity_map@.contains_key(entity_id) ==> {
                let index = old(self).entity_map@[entity_id];
                let last = old(self).data@.last().entity_id;
                &&& r == Some(old(self).data@[index as int].component)
                &&& final(self).data@ == old(self).data@.update(
                    index as int,
                    old(self).data@.last(),
                ).drop_last()
                &&& final(self).entity_map@ == if entity_id != last {
                    old(self).entity_map@.remove(entity_id).insert(last, index)
                } else {
                    old(self).entity_map@.remove(entity_id)
                }
            },
            old(self).wf() ==> final(self).wf() && r == (if old(self)@.contains_key(entity_id) {
                Some(old(self)@[entity_id])
            } else {
                None
            }),
            old(self).indexed() ==> final(self).indexed() && final(self)@ == old(self)@.remove(
                entity_id,
            ) && final(self).entity_map@.len() == final(self).data@.len(),
            old(self).wf() && old(self).entity_map@.len() == old(self).data@.len() ==> final(self).wf() && final(self).entity_map@.len() == final(self).data@.len(),
    {
        proof {
            if self.wf() && self.entity_map@.len() == self.data@.len() {
                lemma_size_gives_indexed(&*self);
            }
        }
        let ghost old_self = *self;
        if let Some(index) = self.entity_map.remove(&entity_id) {
            let last_entity_id = self.data[self.data.len() - 1].entity_id;
            let value = self.data.swap_remove(index);
            if entity_id != last_entity_id {
                self.entity_map.insert(last_entity_id, index);
            }
            proof {
                let n = old_self.data@.len();
                if old_self.wf() {
                    assert forall|id: u32| #[trigger] self.entity_map@.contains_key(id) implies self.entity_map@[id]
                        < self.data@.len() && self.data@[self.entity_map@[id] as int].entity_id
                        == id by {
                        if id != last_entity_id {
                            let j = old_self.entity_map@[id];
                            assert(old_self.entity_map@.contains_key(id));
                            assert(j != index);
                            assert(j != n - 1);
                        }
                    }
                }
                if old_self.indexed() {
                    let last = n - 1;
                    assert(old_self.entity_map@.contains_key(old_self.data@[last].entity_id));
                    assert forall|i: int| 0 <= i < self.data@.len() implies self.entity_map@.contains_key(
                        self.data@[i].entity_id,
                    ) && self.entity_map@[self.data@[i].entity_id] == i by {
                        assert(old_self.entity_map@.contains_key(old_self.data@[i].entity_id));
                        assert(old_self.entity_map@[old_self.data@[last].entity_id] == last);
                        if i != index {
                            assert(old_self.data@[i].entity_id != entity_id);
                            assert(old_self.data@[i].entity_id != last_entity_id);
                        } else {
                            assert(last_entity_id != entity_id);
                        }
                    }
                    assert forall|id: u32| #[trigger] self@.contains_key(id) == old_self@.remove(
                        entity_id,
                    ).contains_key(id) by {
                        if old_self.entity_map@.contains_key(id) && id != entity_id {
                            assert(old_self.entity_map@[id] != index);
                        }
                    }
                    assert forall|id: u32| #[trigger] self@.contains_key(id) implies self@[id]
                        == old_self@.remove(entity_id)[id] by {
                        let j = old_self.entity_map@[id];
                        assert(old_self.entity_map@.contains_key(id));
                        assert(j != index);
                    }
                    assert(self@ =~= old_self@.remove(entity_id));
                    assert(self.wf());
                    assert(self.indexed());
                    lemma_indexed_size(&*self);
                }
            }
            return Some(value.component);
        }
        proof {
            if self.indexed() {
                lemma_indexed_size(&*self);
            }
        }
        None
    }

    /// The component of `entity_id`, if the entity is mapped to a stored one.
    pub fn find_component(&self, entity_id: u32) -> (r: Option<&T>)
        ensures
            r == (if self.entity_map@.contains_key(entity_id) && self.entity_map@[entity_id]
                < self.data@.len() {
                Some(&self.data@[self.entity_map@[entity_id] as int].component)
            } else {
                None
            }),
            self.wf() ==> r == (if self@.contains_key(entity_id) {
                Some(&self@[entity_id])
            } else {
                None
            }),
    {
        if let Some(index) = self.entity_map.get(&entity_id) {
            if *index < self.data.len() {
                return Some(&self.data[*index].component);
            }
        }
        None
    }
}

/// In an indexed storage every stored component has exactly one mapped
/// owner and every mapped entity one stored component: as many entities are
/// mapped (and have a component) as components are stored.
pub proof fn lemma_indexed_size<T: Component>(s: &ComponentStorage<T>)
    requires
        s.indexed(),
    ensures
        s.entity_map@.len() == s.data@.len(),
        s@.len() == s.data@.len(),
{
    let ids = s.data@.map_values(|w: ComponentWrapper<T>| w.entity_id);
    assert forall|i: int, j: int| 0 <= i < ids.len() && 0 <= j < ids.len() && i != j implies ids[i] != ids[j] by {
        assert(s.entity_map@.contains_key(s.data@[i].entity_id));
        assert(s.entity_map@.contains_key(s.data@[j].entity_id));
    }
    assert(ids.no_duplicates());
    assert forall|x: u32| #[trigger] ids.to_set().contains(x) == s.entity_map@.dom().contains(x) by {
        if s.entity_map@.contains_key(x) {
            let i = s.entity_map@[x] as int;
            assert(ids[i] == x);
        }
        if ids.to_set().contains(x) {
            let i = choose|i: int| 0 <= i < ids.len() && ids[i] == x;
            assert(s.entity_map@.contains_key(s.data@[i].entity_id));
        }
    }
    assert(ids.to_set() =~= s.entity_map@.dom());
    ids.unique_seq_to_set();
    assert(s@.dom() =~= s.entity_map@.dom());
}

/// The other way round: a storage whose mapped entities point at stored
/// components they own, and that maps as many entities as it stores
/// components, is indexed (every stored component is its owner's).
pub proof fn lemma_size_gives_indexed<T: Component>(s: &ComponentStorage<T>)
    requires
        s.wf(),
        s.entity_map@.len() == s.data@.len(),
    ensures
        s.indexed(),
{
    let dom = s.entity_map@.dom();
    let n = s.data@.len() as int;
    let f = |id: u32| s.entity_map@[id] as int;
    assert(vstd::relations::injective_on(f, dom)) by {
        assert forall|a: u32, b: u32| dom.contains(a) && dom.contains(b) && #[trigger] f(a) == #[trigger] f(b) implies a == b by {
            assert(s.entity_map@.contains_key(a));
            assert(s.entity_map@.contains_key(b));
        }
    }
    let y = dom.map(f);
    vstd::set_lib::lemma_map_size(dom, y, f);
    let range = vstd::set_lib::set_int_range(0, n);
    vstd::set_lib::lemma_int_range(0, n);
    assert(y.subset_of(range)) by {
        assert forall|i: int| #[trigger] y.contains(i) implies range.contains(i) by {
            let id = choose|id: u32| dom.contains(id) && f(id) == i;
            assert(s.entity_map@.contains_key(id));
        }
    }
    vstd::set_lib::lemma_subset_equality(y, range);
    assert forall|i: int|
        0 <= i < s.data@.len() implies s.entity_map@.contains_key(#[trigger] s.data@[i].entity_id)
            && s.entity_map@[s.data@[i].entity_id] == i by {
        assert(range.contains(i));
        assert(y.contains(i));
        let id = choose|id: u32| dom.contains(id) && f(id) == i;
        assert(s.entity_map@.contains_key(id));
    }
}

/// What a storage gives back of what was written to it: after adding `c`
/// for `id`, `id` has `c` and every other entity keeps what it had; after
/// removing `id`, `id` has nothing and every other entity keeps what it had.
pub proof fn lemma_read_after_write<T>(m: Map<u32, T>, id: u32, c: T, other: u32)
    requires
        other != id,
    ensures
        m.insert(id, c).contains_key(id),
        m.insert(id, c)[id] == c,
        m.insert(id, c).contains_key(other) == m.contains_key(other),
        m.contains_key(other) ==> m.insert(id, c)[other] == m[other],
        !m.remove(id).contains_key(id),
        m.remove(id).contains_key(other) == m.contains_key(other),
        m.contains_key(other) ==> m.remove(id)[other] == m[other],
{
}

} // verus!
