use mekena::ecs::entity::Component;
use mekena::ecs::entity::Entity;
use mekena::ecs::entity::EntityError;
use mekena::ecs::query::Query;
use mekena::ecs::query::QueryMut;
use mekena::ecs::world::World;

const I32_TAG: u64 = 1;
const U64_TAG: u64 = 2;
const USIZE_TAG: u64 = 3;
const MY_COMPONENT_TAG: u64 = 4;

/// The component a test value of type `MyComponent(i32)` erases to.
fn my_component(value: i32) -> Component {
    Component::new(MY_COMPONENT_TAG, value.to_le_bytes().to_vec())
}

fn i32_component(value: i32) -> Component {
    Component::new(I32_TAG, value.to_le_bytes().to_vec())
}

#[test]
fn id() {
    let mut world = World::default();
    let entity = world.spawn().unwrap();
    assert_eq!(entity.id(), 0);
}

#[test]
fn insert_components() {
    let mut world = World::default();

    let entity = world.spawn().unwrap();

    entity.insert(i32_component(0)).unwrap();
    entity
        .insert(Component::new(U64_TAG, 0_u64.to_le_bytes().to_vec()))
        .unwrap();
    entity
        .insert(Component::new(USIZE_TAG, 0_usize.to_le_bytes().to_vec()))
        .unwrap();
}

#[test]
fn insert_nonstd_components() {
    let mut world = World::default();

    let entity = world.spawn().unwrap();
    entity.insert(my_component(0)).unwrap();
}

#[test]
#[should_panic]
fn insert_same_components() {
    let mut world = World::default();

    let entity = world.spawn().unwrap();
    entity.insert(i32_component(0)).unwrap();
    entity.insert(i32_component(0)).unwrap();
}

#[test]
fn get() {
    let component = my_component(0);
    let mut world = World::default();
    let entity = world.spawn().unwrap();
    entity.insert(component).unwrap();
}

#[test]
fn simple_query() {
    let mut w: World = World::default();
    let e: &mut Entity = w.spawn().unwrap();
    e.insert(i32_component(0)).unwrap();

    Query::new(e, I32_TAG).query().unwrap();
}

#[test]
fn simple_query_mut() {
    let mut w: World = World::default();
    let e: &mut Entity = w.spawn().unwrap();
    e.insert(i32_component(0)).unwrap();

    let mut _c = QueryMut::new(I32_TAG).query_mut(e).unwrap();
}

#[test]
fn construction() {
    World::default();
}

#[test]
fn spawn_entity() {
    let mut world = World::default();
    world.spawn().unwrap();
}

#[test]
fn spawn_entities() {
    let mut world = World::default();

    let _entity_a = world.spawn().unwrap();
    let _entity_b = world.spawn().unwrap();
    let _entity_c = world.spawn().unwrap();
}

#[test]
fn spawned_entities_get_consecutive_ids() {
    let mut world = World::default();
    assert_eq!(world.spawn().unwrap().id(), 0);
    assert_eq!(world.spawn().unwrap().id(), 1);
    assert_eq!(world.spawn().unwrap().id(), 2);
}

#[test]
fn get_returns_the_stored_component() {
    let mut world = World::default();
    let entity = world.spawn().unwrap();
    entity.insert(Component::new(9, vec![5, 6, 7])).unwrap();
    let c = entity.get(9).unwrap();
    assert_eq!(c.tag, 9);
    assert_eq!(c.data, vec![5, 6, 7]);
}

#[test]
fn get_missing_component_is_an_error() {
    let mut world = World::default();
    let entity = world.spawn().unwrap();
    assert_eq!(entity.get(9).unwrap_err(), EntityError::ComponentNotFound);
}

#[test]
fn insert_duplicate_component_is_an_error() {
    let mut world = World::default();
    let entity = world.spawn().unwrap();
    entity.insert(i32_component(0)).unwrap();
    assert_eq!(
        entity.insert(i32_component(1)).unwrap_err(),
        EntityError::ComponentAlreadyExists
    );
}

#[test]
fn get_mut_updates_the_component() {
    let mut world = World::default();
    let entity = world.spawn().unwrap();
    entity.insert(Component::new(9, vec![1])).unwrap();

    let data = entity.get_mut(9).unwrap();
    assert_eq!(*data, vec![1]);
    data.push(2);

    assert_eq!(entity.get(9).unwrap().data, vec![1, 2]);
    assert_eq!(
        entity.get_mut(5).unwrap_err(),
        EntityError::ComponentNotFound
    );
}

#[test]
fn query_mut_updates_the_component() {
    let mut world = World::default();
    let entity = world.spawn().unwrap();
    entity.insert(Component::new(9, vec![1])).unwrap();

    let q = QueryMut::new(9);
    *q.query_mut(entity).unwrap() = vec![3, 4];
    assert_eq!(entity.get(9).unwrap().data, vec![3, 4]);
}
