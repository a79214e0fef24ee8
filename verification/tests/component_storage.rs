use engine::ecs::component::{Component, ComponentStorage};
use engine::ecs::{EntityRegistry, IEntity};
use std::any::TypeId;

#[derive(Debug, PartialEq, Clone, Copy)]
struct Health(u32);
impl Component for Health {}

fn storage() -> ComponentStorage<Health> {
    ComponentStorage::new(TypeId::of::<Health>(), Health::CAPACITY)
}

#[test]
fn add_then_find() {
    let mut s = storage();
    s.add_component(3, Health(10));
    s.add_component(5, Health(20));
    assert_eq!(s.find_component(3), Some(&Health(10)));
    assert_eq!(s.find_component(5), Some(&Health(20)));
    assert_eq!(s.find_component(4), None);
    assert_eq!(s.type_id, TypeId::of::<Health>());
}

#[test]
fn remove_swaps_the_last_in() {
    let mut s = storage();
    s.add_component(1, Health(1));
    s.add_component(2, Health(2));
    s.add_component(3, Health(3));
    assert_eq!(s.remove_component(1), Some(Health(1)));
    assert_eq!(s.find_component(1), None);
    assert_eq!(s.find_component(2), Some(&Health(2)));
    assert_eq!(s.find_component(3), Some(&Health(3)));
    assert_eq!(s.data.len(), 2);
    assert_eq!(s.remove_component(1), None);
    assert_eq!(s.remove_component(3), Some(Health(3)));
    assert_eq!(s.remove_component(2), Some(Health(2)));
    assert!(s.data.is_empty());
}

#[test]
fn entity_ids() {
    assert_eq!(IEntity::from_id(42).id(), 42);
    assert_eq!(Health::CAPACITY, 16);
}

#[test]
fn registry_add_and_remove() {
    let mut r = EntityRegistry::new();
    let a = r.add_entity_with_id(7);
    assert_eq!(a.id(), 7);
    r.add_entity_with_id(9);
    r.add_entity_with_id(7);
    assert_eq!(r.entity_count, 3);
    assert!(r.contains(9));
    r.remove_entity(7);
    assert_eq!(r.entity_count, 2);
    assert!(!r.contains(7));
    assert!(r.contains(9));
    assert_eq!(r.entities.len(), 1);
    let b = r.add_entity();
    assert_eq!(r.entity_count, 3);
    assert!(r.contains(b.id()));
    assert_eq!(r.entities.last().unwrap().id(), b.id());
}

#[test]
fn storage_maps_as_many_entities_as_it_stores() {
    let mut s = storage();
    for id in [7u32, 3, 9, 1] {
        s.add_component(id, Health(id));
        assert_eq!(s.entity_map.len(), s.data.len());
    }
    for id in [3u32, 8, 1, 7, 9] {
        s.remove_component(id);
        assert_eq!(s.entity_map.len(), s.data.len());
    }
    assert!(s.data.is_empty());
}
