use sim_core::components::{Asset, Friction, Position, TimedLife, Velocity};
use sim_core::world::{Component, ComponentKind, Components, World, WorldError};

fn at(x: i32, y: i32) -> Components {
    let mut components = Components::new();
    components.position = Some(Position { x, y });
    components
}

fn moving(x: i32, y: i32, dx: i32, dy: i32) -> Components {
    let mut components = at(x, y);
    components.velocity = Some(Velocity { dx, dy });
    components
}

fn position_of(world: &World, entity: sim_core::world::Entity) -> Position {
    match world.get(entity, ComponentKind::Position) {
        Ok(Component::Position(position)) => position,
        other => panic!("no position: {:?}", other),
    }
}

#[test]
fn a_new_world_is_empty() {
    let world = World::new();
    assert_eq!(world.len(), 0);
    assert!(world.has_room());
    assert!(world.query(&[]).is_empty());
}

#[test]
fn spawned_entities_are_found_again() {
    let mut world = World::new();
    let first = world.spawn(at(1, 2));
    let second = world.spawn(moving(3, 4, 5, 6));
    assert_ne!(first, second);
    assert_eq!(world.len(), 2);
    assert!(world.contains(first));
    assert!(world.contains(second));
    assert_eq!(world.place_of(first), Some(0));
    assert_eq!(world.place_of(second), Some(1));
    assert_eq!(world.entity_at(1), second);
    assert_eq!(position_of(&world, first), Position { x: 1, y: 2 });
    assert_eq!(position_of(&world, second), Position { x: 3, y: 4 });
    assert_eq!(world.components_at(1).velocity, Some(Velocity { dx: 5, dy: 6 }));
}

#[test]
fn a_missing_component_is_not_found() {
    let mut world = World::new();
    let entity = world.spawn(at(1, 2));
    assert!(matches!(world.get(entity, ComponentKind::Velocity), Err(WorldError::NotFound)));
    assert!(matches!(world.get(entity, ComponentKind::Asset), Err(WorldError::NotFound)));
    assert!(matches!(
        world.set(entity, Component::Velocity(Velocity { dx: 1, dy: 1 })),
        Err(WorldError::NotFound)
    ));
    assert_eq!(world.components_at(0).velocity, None);
}

#[test]
fn a_removed_entity_is_not_found() {
    let mut world = World::new();
    let first = world.spawn(at(1, 2));
    let second = world.spawn(at(3, 4));
    assert!(world.remove(first));
    assert!(!world.remove(first));
    assert!(!world.contains(first));
    assert_eq!(world.len(), 1);
    assert!(matches!(world.get(first, ComponentKind::Position), Err(WorldError::NotFound)));
    assert!(matches!(
        world.set(first, Component::Position(Position { x: 0, y: 0 })),
        Err(WorldError::NotFound)
    ));
    assert_eq!(position_of(&world, second), Position { x: 3, y: 4 });
}

#[test]
fn a_stale_handle_never_names_a_later_entity() {
    let mut world = World::new();
    let first = world.spawn(at(1, 2));
    assert!(world.remove(first));
    let later = world.spawn(at(7, 8));
    assert_ne!(first, later);
    assert!(!world.contains(first));
    assert!(matches!(world.get(first, ComponentKind::Position), Err(WorldError::NotFound)));
    assert_eq!(position_of(&world, later), Position { x: 7, y: 8 });
}

#[test]
fn set_replaces_one_component_of_one_entity() {
    let mut world = World::new();
    let first = world.spawn(moving(1, 2, 3, 4));
    let second = world.spawn(moving(5, 6, 7, 8));
    assert_eq!(world.set(second, Component::Velocity(Velocity { dx: -1, dy: -2 })), Ok(()));
    assert_eq!(world.components_at(0).velocity, Some(Velocity { dx: 3, dy: 4 }));
    assert_eq!(world.components_at(1).velocity, Some(Velocity { dx: -1, dy: -2 }));
    assert_eq!(world.components_at(1).position, Some(Position { x: 5, y: 6 }));
    assert_eq!(position_of(&world, first), Position { x: 1, y: 2 });
}

#[test]
fn set_at_leaves_an_entity_without_the_component_alone() {
    let mut world = World::new();
    world.spawn(at(1, 2));
    assert!(!world.set_at(0, Component::TimedLife(TimedLife { millis_left: 5 })));
    assert_eq!(world.components_at(0).timed_life, None);
    assert!(world.set_at(0, Component::Position(Position { x: 9, y: 9 })));
    assert_eq!(world.components_at(0).position, Some(Position { x: 9, y: 9 }));
}

#[test]
fn get_copies_an_asset() {
    let mut world = World::new();
    let mut components = at(0, 0);
    components.asset =
        Some(Asset { name: "bush".to_string(), animation: 2, animation_start_time: 40 });
    let entity = world.spawn(components);
    match world.get(entity, ComponentKind::Asset) {
        Ok(Component::Asset(asset)) => {
            assert_eq!(asset.name, "bush");
            assert_eq!(asset.animation, 2);
            assert_eq!(asset.animation_start_time, 40);
        }
        other => panic!("no asset: {:?}", other),
    }
}

#[test]
fn queries_answer_in_the_order_of_spawning() {
    let mut world = World::new();
    let a = world.spawn(moving(0, 0, 1, 1));
    let b = world.spawn(at(1, 1));
    let c = world.spawn(moving(2, 2, 1, 1));
    let d = world.spawn(moving(3, 3, 1, 1));
    let signature = [ComponentKind::Position, ComponentKind::Velocity];
    assert_eq!(world.query(&signature), vec![a, c, d]);
    assert_eq!(world.query(&[ComponentKind::Position]), vec![a, b, c, d]);
    assert_eq!(world.query(&[ComponentKind::Friction]), vec![]);
    assert!(world.remove(a));
    let e = world.spawn(moving(4, 4, 1, 1));
    assert_eq!(world.query(&signature), vec![c, d, e]);
    assert_eq!(world.query(&[]), vec![b, c, d, e]);
}

#[test]
fn a_sweep_removes_the_batch_and_keeps_the_order() {
    let mut world = World::new();
    let a = world.spawn(at(0, 0));
    let b = world.spawn(at(1, 1));
    let c = world.spawn(at(2, 2));
    let d = world.spawn(at(3, 3));
    world.remove_all(&vec![c, a, c]);
    assert_eq!(world.query(&[]), vec![b, d]);
    world.remove_all(&Vec::new());
    assert_eq!(world.query(&[]), vec![b, d]);
    world.remove_all(&vec![a, b, d]);
    assert_eq!(world.len(), 0);
}

#[test]
fn components_answer_for_their_kinds() {
    let mut components = moving(1, 2, 3, 4);
    components.friction = Some(Friction {});
    assert!(components.contains(ComponentKind::Position));
    assert!(components.contains(ComponentKind::Friction));
    assert!(!components.contains(ComponentKind::Collider));
    assert!(components.is_matching(&[ComponentKind::Velocity, ComponentKind::Friction]));
    assert!(!components.is_matching(&[ComponentKind::Velocity, ComponentKind::Status]));
    assert!(components.is_matching(&[]));
    assert!(matches!(
        components.get(ComponentKind::Velocity),
        Some(Component::Velocity(Velocity { dx: 3, dy: 4 }))
    ));
    assert!(components.get(ComponentKind::Collider).is_none());
    assert!(components.replace(Component::Position(Position { x: 8, y: 9 })));
    assert_eq!(components.position, Some(Position { x: 8, y: 9 }));
    assert!(!components.replace(Component::TimedLife(TimedLife { millis_left: 1 })));
    assert_eq!(components.timed_life, None);
    assert_eq!(Component::Friction(Friction {}).kind(), ComponentKind::Friction);
}
