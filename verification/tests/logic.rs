use rand::rngs::StdRng;
use rand::SeedableRng;
use sim_core::collision::aabb::Aabb;
use sim_core::collision::collision_mesh::{CollisionMesh, CollisionMeshIdentifier};
use sim_core::collision::triangle::Triangle;
use sim_core::collision::world_collision_mesh::WorldCollisionMesh;
use sim_core::components::{
    Asset, Collider, Friction, Position, Status, Team, TimedLife, Velocity,
};
use sim_core::controls::KeyCode;
use sim_core::direction::Direction;
use sim_core::external_event::ExternalEvent;
use sim_core::logic::collisions::{
    detect_collisions, may_collide, resolve_collisions, slide, Collision,
};
use sim_core::logic::player_input::{apply_event, ExtraInfo};
use sim_core::logic::setup::{setup_collision_meshes, setup_world, setup_world_mesh};
use sim_core::logic::simulation::{apply_player_input, sleep_budget, Simulation};
use sim_core::logic::snapshot::{create_draw_state, snapshot};
use sim_core::logic::timed_life::{find_expired, handle_timed_life};
use sim_core::state_input_event::StateInputEvent;
use sim_core::systems::{setup_schedule, Time};
use sim_core::vec2::Vec2;
use sim_core::world::{Component, ComponentKind, Components, Entity, World};

fn body(x: i32, y: i32, basic: CollisionMeshIdentifier, status: Option<Status>) -> Components {
    let mut components = Components::new();
    components.position = Some(Position { x, y });
    components.velocity = Some(Velocity { dx: 1_000, dy: 2_000 });
    components.collider = Some(Collider { collision_mesh: basic, size: 10_000 });
    components.status = status;
    components
}

fn enemy() -> Option<Status> {
    Some(Status::default())
}

fn ally(collides_with_own_team: bool) -> Option<Status> {
    Some(Status { collides_with_own_team, team: Team::PLAYER })
}

fn no_world() -> WorldCollisionMesh {
    WorldCollisionMesh::new(Vec::new())
}

fn velocity_of(world: &World, entity: Entity) -> Velocity {
    match world.get(entity, ComponentKind::Velocity) {
        Ok(Component::Velocity(velocity)) => velocity,
        other => panic!("no velocity: {:?}", other),
    }
}

fn position_of(world: &World, entity: Entity) -> Position {
    match world.get(entity, ComponentKind::Position) {
        Ok(Component::Position(position)) => position,
        other => panic!("no position: {:?}", other),
    }
}

#[test]
fn the_state_around_the_player_starts_at_walking_speed() {
    assert_eq!(ExtraInfo::new(), ExtraInfo { shake: 0, speed: 16_000, charge: 0 });
}

#[test]
fn moving_adds_the_speed_along_the_delta() {
    let mut velocity = Velocity { dx: 100, dy: -100 };
    let mut extra = ExtraInfo::new();
    let shot = apply_event(
        StateInputEvent::MovePlayerRelative { delta: Vec2 { x: 1, y: -1 } },
        &mut velocity,
        &mut extra,
    );
    assert_eq!(shot, None);
    assert_eq!(velocity, Velocity { dx: 16_100, dy: -16_100 });
    assert_eq!(extra, ExtraInfo::new());
}

#[test]
fn a_jump_shakes_the_camera() {
    let mut velocity = Velocity { dx: 1, dy: 2 };
    let mut extra = ExtraInfo::new();
    assert_eq!(apply_event(StateInputEvent::Jump, &mut velocity, &mut extra), None);
    assert_eq!(apply_event(StateInputEvent::Jump, &mut velocity, &mut extra), None);
    assert_eq!(extra, ExtraInfo { shake: 10_000, speed: 16_000, charge: 0 });
    assert_eq!(velocity, Velocity { dx: 1, dy: 2 });
    extra.update();
    assert_eq!(extra.shake, 9_800);
    extra.shake = 5;
    extra.update();
    assert_eq!(extra.shake, 4);
}

#[test]
fn events_that_do_not_concern_the_player_change_nothing() {
    let mut velocity = Velocity { dx: 1, dy: 2 };
    let mut extra = ExtraInfo { shake: 3, speed: 4, charge: 5 };
    for event in [
        StateInputEvent::PlayerInteract1,
        StateInputEvent::PlayerInteract2,
        StateInputEvent::RotateView { delta: Vec2 { x: 9, y: 9 } },
    ] {
        assert_eq!(apply_event(event, &mut velocity, &mut extra), None);
    }
    assert_eq!(velocity, Velocity { dx: 1, dy: 2 });
    assert_eq!(extra, ExtraInfo { shake: 3, speed: 4, charge: 5 });
}

#[test]
fn charge_counts_up_to_its_cap() {
    let mut velocity = Velocity { dx: 0, dy: 0 };
    let mut extra = ExtraInfo::new();
    for expected in 1..=30 {
        assert_eq!(
            apply_event(StateInputEvent::Charge(Direction::Up), &mut velocity, &mut extra),
            None
        );
        assert_eq!(extra.charge, expected);
        assert_eq!(extra.speed, 2_000);
    }
    for _ in 0..5 {
        apply_event(StateInputEvent::Charge(Direction::Left), &mut velocity, &mut extra);
        assert_eq!(extra.charge, 30);
    }
}

#[test]
fn a_charged_shot_flies_at_the_speed_of_its_charge() {
    for (direction, unit) in [
        (Direction::Up, (0, 1)),
        (Direction::Right, (1, 0)),
        (Direction::Down, (0, -1)),
        (Direction::Left, (-1, 0)),
    ] {
        for charge in [11, 12, 30] {
            let mut velocity = Velocity { dx: 5, dy: 6 };
            let mut extra = ExtraInfo { shake: 1, speed: 2_000, charge };
            let shot = apply_event(StateInputEvent::Shoot(direction), &mut velocity, &mut extra);
            let speed = 32_000 * charge as i32;
            assert_eq!(shot, Some(Velocity { dx: unit.0 * speed, dy: unit.1 * speed }));
            assert_eq!(extra, ExtraInfo { shake: 1, speed: 16_000, charge: 0 });
            assert_eq!(velocity, Velocity { dx: 5, dy: 6 });
        }
    }
}

#[test]
fn a_weak_shot_only_empties_the_charge() {
    for charge in [0, 1, 10] {
        let mut velocity = Velocity { dx: 5, dy: 6 };
        let mut extra = ExtraInfo { shake: 1, speed: 2_000, charge };
        let shot = apply_event(StateInputEvent::Shoot(Direction::Up), &mut velocity, &mut extra);
        assert_eq!(shot, None);
        assert_eq!(extra, ExtraInfo { shake: 1, speed: 16_000, charge: 0 });
    }
}

#[test]
fn a_shot_spawns_exactly_one_projectile() {
    let (_, basic) = setup_collision_meshes();
    let (mut world, player) = setup_world(basic);
    world.set(player, Component::Position(Position { x: 7_000, y: -3_000 })).unwrap();
    let mut extra = ExtraInfo { shake: 0, speed: 2_000, charge: 12 };
    let before = world.len();
    let position = apply_player_input(
        &mut world,
        player,
        &mut extra,
        &vec![StateInputEvent::Shoot(Direction::Left)],
        basic,
        4_321,
    );
    assert_eq!(position, Position { x: 7_000, y: -3_000 });
    assert_eq!(extra, ExtraInfo { shake: 0, speed: 16_000, charge: 0 });
    assert_eq!(world.len(), before + 1);
    let arrow = world.components_at(before);
    assert_eq!(arrow.position, Some(Position { x: 7_000, y: -3_000 }));
    assert_eq!(arrow.velocity, Some(Velocity { dx: -384_000, dy: 0 }));
    assert_eq!(arrow.timed_life, Some(TimedLife { millis_left: 1_000 }));
    assert_eq!(arrow.collider, Some(Collider { collision_mesh: basic, size: 48_000 }));
    assert_eq!(arrow.status, Some(Status { collides_with_own_team: false, team: Team::PLAYER }));
    assert_eq!(arrow.friction, None);
    assert_eq!(arrow.ai_random_walk, None);
    let asset = arrow.asset.as_ref().unwrap();
    assert_eq!(asset.name, "arrow");
    assert_eq!(asset.animation, 0);
    assert_eq!(asset.animation_start_time, 4_321);
    assert_eq!(velocity_of(&world, player), Velocity { dx: 0, dy: 0 });
}

#[test]
fn a_weak_shot_spawns_nothing() {
    let (_, basic) = setup_collision_meshes();
    let (mut world, player) = setup_world(basic);
    let mut extra = ExtraInfo { shake: 0, speed: 2_000, charge: 10 };
    let before = world.len();
    apply_player_input(
        &mut world,
        player,
        &mut extra,
        &vec![StateInputEvent::Shoot(Direction::Left)],
        basic,
        0,
    );
    assert_eq!(world.len(), before);
    assert_eq!(extra.charge, 0);
}

#[test]
fn input_is_folded_in_order() {
    let (_, basic) = setup_collision_meshes();
    let (mut world, player) = setup_world(basic);
    let mut extra = ExtraInfo { shake: 0, speed: 16_000, charge: 10 };
    let before = world.len();
    let events = vec![
        StateInputEvent::MovePlayerRelative { delta: Vec2 { x: 1, y: 0 } },
        StateInputEvent::Charge(Direction::Up),
        StateInputEvent::MovePlayerRelative { delta: Vec2 { x: 0, y: 1 } },
        StateInputEvent::Shoot(Direction::Up),
        StateInputEvent::Shoot(Direction::Down),
        StateInputEvent::MovePlayerRelative { delta: Vec2 { x: -1, y: 0 } },
        StateInputEvent::Jump,
    ];
    apply_player_input(&mut world, player, &mut extra, &events, basic, 0);
    assert_eq!(velocity_of(&world, player), Velocity { dx: 0, dy: 2_000 });
    assert_eq!(extra, ExtraInfo { shake: 5_000, speed: 16_000, charge: 0 });
    assert_eq!(world.len(), before + 1);
    assert_eq!(world.components_at(before).velocity, Some(Velocity { dx: 0, dy: 352_000 }));
}

#[test]
fn teams_decide_who_may_collide() {
    assert!(!may_collide(&enemy(), &enemy()));
    assert!(!may_collide(&ally(false), &ally(false)));
    assert!(may_collide(&ally(true), &ally(true)));
    assert!(may_collide(&ally(true), &ally(false)));
    assert!(may_collide(&ally(false), &ally(true)));
    assert!(may_collide(&ally(false), &enemy()));
    assert!(may_collide(&None, &enemy()));
    assert!(may_collide(&enemy(), &None));
    assert!(may_collide(&None, &None));
}

#[test]
fn enemies_that_spare_their_own_team_record_no_collision() {
    let (manager, basic) = setup_collision_meshes();
    let mut world = World::new();
    world.spawn(body(0, 0, basic, enemy()));
    world.spawn(body(3_000, 0, basic, enemy()));
    assert_eq!(detect_collisions(&world, &manager, &no_world()), vec![]);
}

#[test]
fn allies_that_collide_with_their_own_team_record_collisions() {
    let (manager, basic) = setup_collision_meshes();
    let mut world = World::new();
    let first = world.spawn(body(0, 0, basic, ally(true)));
    let second = world.spawn(body(3_000, 0, basic, ally(true)));
    assert_eq!(
        detect_collisions(&world, &manager, &no_world()),
        vec![
            Collision { entity: first, other: Some(second), vector: Vec2 { x: -7_000, y: 0 } },
            Collision { entity: second, other: Some(first), vector: Vec2 { x: 7_000, y: 0 } },
        ]
    );
}

#[test]
fn one_of_two_allies_colliding_with_its_own_team_is_enough() {
    let (manager, basic) = setup_collision_meshes();
    let mut world = World::new();
    let first = world.spawn(body(0, 0, basic, ally(true)));
    let second = world.spawn(body(0, 4_000, basic, ally(false)));
    let pairs: Vec<(Entity, Option<Entity>)> = detect_collisions(&world, &manager, &no_world())
        .iter()
        .map(|hit| (hit.entity, hit.other))
        .collect();
    assert_eq!(pairs, vec![(first, Some(second)), (second, Some(first))]);
}

#[test]
fn a_projectile_collides_with_the_player_that_shot_it() {
    let mut simulation = Simulation::new(StdRng::seed_from_u64(4));
    simulation.extra_info.charge = 12;
    simulation.handler.handle_event(ExternalEvent::KeyboardInput {
        key_code: KeyCode::Right,
        pressed: true,
    });
    simulation.handler.tick_events();
    simulation.tick(
        &vec![ExternalEvent::KeyboardInput { key_code: KeyCode::Right, pressed: false }],
        33,
        0,
    );
    let player = simulation.player;
    let arrow = simulation.world.components_at(8);
    assert_eq!(arrow.position, Some(Position { x: 72_000, y: 0 }));
    assert_eq!(arrow.velocity, Some(Velocity { dx: 0, dy: 0 }));
    assert_eq!(position_of(&simulation.world, player), Position { x: -59_328, y: 0 });
}

#[test]
fn hits_are_listed_entity_by_entity_with_the_world_last() {
    let (manager, basic) = setup_collision_meshes();
    let mut world = World::new();
    let a = world.spawn(body(1_000, 6_000, basic, None));
    let mut ghost = Components::new();
    ghost.position = Some(Position { x: 1_000, y: 6_000 });
    world.spawn(ghost);
    let b = world.spawn(body(2_000, 15_000, basic, enemy()));
    let c = world.spawn(body(100_000, 100_000, basic, enemy()));
    let d = world.spawn(body(9_000, 8_000, basic, ally(false)));
    let triangle = Triangle::new(
        Vec2 { x: 0, y: 0 },
        Vec2 { x: 10_000, y: 0 },
        Vec2 { x: 0, y: 10_000 },
    );
    let hits = detect_collisions(&world, &manager, &WorldCollisionMesh::new(vec![triangle]));
    let pairs: Vec<(Entity, Option<Entity>)> =
        hits.iter().map(|hit| (hit.entity, hit.other)).collect();
    assert_eq!(
        pairs,
        vec![
            (a, Some(b)),
            (a, Some(d)),
            (a, None),
            (b, Some(a)),
            (b, Some(d)),
            (d, Some(a)),
            (d, Some(b)),
            (d, None)
        ]
    );
    assert!(!pairs.iter().any(|pair| pair.0 == c || pair.1 == Some(c)));
    assert_eq!(hits[0].vector, Vec2 { x: 0, y: -1_000 });
    assert_eq!(hits[1].vector, Vec2 { x: -2_000, y: 0 });
}

#[test]
fn only_what_can_move_is_pushed_and_slides_on() {
    let (manager, basic) = setup_collision_meshes();
    let mut world = World::new();
    let runner = world.spawn(body(0, 0, basic, None));
    let mut post = body(3_000, 1_000, basic, None);
    post.velocity = None;
    let post = world.spawn(post);
    let hits = detect_collisions(&world, &manager, &no_world());
    assert_eq!(
        hits,
        vec![
            Collision { entity: runner, other: Some(post), vector: Vec2 { x: -7_000, y: 0 } },
            Collision { entity: post, other: Some(runner), vector: Vec2 { x: 7_000, y: 0 } },
        ]
    );
    resolve_collisions(&mut world, &hits);
    assert_eq!(position_of(&world, runner), Position { x: -7_000, y: 0 });
    assert_eq!(velocity_of(&world, runner), Velocity { dx: 0, dy: 2_000 });
    assert_eq!(position_of(&world, post), Position { x: 3_000, y: 1_000 });
    assert_eq!(detect_collisions(&world, &manager, &no_world()), vec![]);
}

#[test]
fn a_hit_on_an_entity_that_is_gone_changes_nothing() {
    let (_, basic) = setup_collision_meshes();
    let mut world = World::new();
    let gone = world.spawn(body(0, 0, basic, None));
    let stays = world.spawn(body(50_000, 0, basic, None));
    world.remove(gone);
    resolve_collisions(
        &mut world,
        &vec![Collision { entity: gone, other: Some(stays), vector: Vec2 { x: 9, y: 9 } }],
    );
    assert_eq!(position_of(&world, stays), Position { x: 50_000, y: 0 });
    assert_eq!(world.len(), 1);
}

#[test]
fn sliding_takes_out_the_part_along_the_push() {
    let velocity = Velocity { dx: 3_000, dy: -4_000 };
    assert_eq!(slide(velocity, Vec2 { x: 0, y: 0 }), velocity);
    assert_eq!(slide(velocity, Vec2 { x: 5, y: 0 }), Velocity { dx: 0, dy: -4_000 });
    assert_eq!(slide(velocity, Vec2 { x: 0, y: -700 }), Velocity { dx: 3_000, dy: 0 });
    assert_eq!(slide(velocity, Vec2 { x: 1, y: 1 }), Velocity { dx: 3_500, dy: -3_500 });
    assert_eq!(slide(velocity, Vec2 { x: 3, y: -4 }), Velocity { dx: 0, dy: 0 });
    assert_eq!(slide(velocity, Vec2 { x: 4, y: 3 }), velocity);
}

#[test]
fn a_life_of_a_tenth_of_a_second_ends_in_the_fourth_tick() {
    let mut world = World::new();
    let mut player = Components::new();
    player.position = Some(Position { x: 0, y: 0 });
    let player = world.spawn(player);
    let mut spark = Components::new();
    spark.timed_life = Some(TimedLife { millis_left: 100 });
    let spark = world.spawn(spark);
    let schedule = setup_schedule();
    for tick in 1..=4 {
        schedule.execute_with(&mut world, &Time { elapsed_millis: 33 }, &Vec::new());
        handle_timed_life(&mut world, player);
        assert_eq!(world.contains(spark), tick < 4);
        assert!(world.contains(player));
    }
    assert_eq!(world.len(), 1);
}

#[test]
fn the_sweep_takes_what_is_spent_and_spares_the_player() {
    let mut world = World::new();
    let mut doomed = Components::new();
    doomed.timed_life = Some(TimedLife { millis_left: 0 });
    let mut player = Components::new();
    player.timed_life = Some(TimedLife { millis_left: -5 });
    let mut lasting = Components::new();
    lasting.timed_life = Some(TimedLife { millis_left: 1 });
    let a = world.spawn(doomed);
    let player = world.spawn(player);
    let b = world.spawn(lasting);
    let c = world.spawn(Components::new());
    let mut late = Components::new();
    late.timed_life = Some(TimedLife { millis_left: i32::MIN });
    let d = world.spawn(late);
    assert_eq!(find_expired(&world, player), vec![a, d]);
    handle_timed_life(&mut world, player);
    assert_eq!(world.query(&[]), vec![player, b, c]);
    handle_timed_life(&mut world, player);
    assert_eq!(world.query(&[]), vec![player, b, c]);
}

#[test]
fn the_snapshot_shows_what_has_an_asset_and_a_place() {
    let mut world = World::new();
    let mut low = Components::new();
    low.position = Some(Position { x: 1_528, y: -1 });
    low.asset = Some(Asset { name: "low".to_string(), animation: 1, animation_start_time: 2 });
    world.spawn(low);
    let mut unseen = Components::new();
    unseen.position = Some(Position { x: 0, y: 99_000 });
    world.spawn(unseen);
    let mut high = Components::new();
    high.position = Some(Position { x: -1_001, y: 2_999 });
    high.asset = Some(Asset { name: "high".to_string(), animation: 0, animation_start_time: 0 });
    world.spawn(high);
    let mut nowhere = Components::new();
    nowhere.asset = Some(Asset { name: "nowhere".to_string(), animation: 0, animation_start_time: 0 });
    world.spawn(nowhere);
    let extra = ExtraInfo { shake: 5_000, speed: 16_000, charge: 0 };
    let state = snapshot(
        &world,
        &extra,
        &Position { x: 10_000, y: -20_000 },
        Vec2 { x: 500, y: -999 },
        777,
    );
    let shown: Vec<(String, usize, u64, Position)> = state
        .entities()
        .iter()
        .map(|entry| {
            (entry.0.name.clone(), entry.0.animation, entry.0.animation_start_time, entry.1)
        })
        .collect();
    assert_eq!(
        shown,
        vec![
            ("high".to_string(), 0, 0, Position { x: -2, y: 2 }),
            ("low".to_string(), 1, 2, Position { x: 1, y: -1 }),
        ]
    );
    assert_eq!(state.camera_offset(), Vec2 { x: 2_500 - 10_000, y: -4_995 + 20_000 });
    assert_eq!(state.time(), 777);
}

#[test]
fn a_random_camera_shake_stays_within_the_shake() {
    let world = World::new();
    let extra = ExtraInfo { shake: 5_000, speed: 16_000, charge: 0 };
    let mut rng = StdRng::seed_from_u64(21);
    let mut offsets = Vec::new();
    for _ in 0..50 {
        let state =
            create_draw_state(&world, &extra, &Position { x: 100, y: 200 }, &mut rng, 5);
        let offset = state.camera_offset();
        assert!((offset.x + 100).abs() <= 5_000);
        assert!((offset.y + 200).abs() <= 5_000);
        assert_eq!(state.time(), 5);
        offsets.push(offset);
    }
    assert!(offsets.iter().any(|offset| *offset != offsets[0]));
}

#[test]
fn the_world_starts_with_the_player_first() {
    let (manager, basic) = setup_collision_meshes();
    assert_eq!(
        manager.get_collision_mesh(basic, Vec2 { x: 0, y: 0 }, 1_000),
        CollisionMesh::new(Aabb { min_x: -500, min_y: -500, max_x: 500, max_y: 500 })
    );
    let (world, player) = setup_world(basic);
    assert_eq!(world.len(), 8);
    assert_eq!(world.entity_at(0), player);
    let names: Vec<String> = (0..8)
        .map(|index| world.components_at(index).asset.as_ref().unwrap().name.clone())
        .collect();
    assert_eq!(
        names,
        vec![
            "player",
            "background",
            "bush",
            "lamp post",
            "firefly",
            "firefly",
            "firefly",
            "firefly"
        ]
    );
    let first = world.components_at(0);
    assert_eq!(first.collider, Some(Collider { collision_mesh: basic, size: 96_000 }));
    assert_eq!(first.status, Some(Status { collides_with_own_team: true, team: Team::PLAYER }));
    assert_eq!(first.friction, Some(Friction {}));
    assert_eq!(first.timed_life, None);
    assert_eq!(world.components_at(2).position, Some(Position { x: 100_000, y: 100_000 }));
    assert_eq!(world.components_at(3).position, Some(Position { x: 480_000, y: -540_000 }));
    assert_eq!(
        world.components_at(3).collider,
        Some(Collider { collision_mesh: basic, size: 32_000 })
    );
    assert!(world.components_at(4).ai_random_walk.is_some());
    assert_eq!(world.query(&[ComponentKind::AiRandomWalk]).len(), 4);
    assert_eq!(world.query(&[ComponentKind::Collider]).len(), 3);
    let mesh = setup_world_mesh();
    let inside = Aabb { min_x: 150_000, min_y: -190_000, max_x: 160_000, max_y: -180_000 };
    assert_eq!(mesh.find_collision(&inside), Some(Vec2 { x: 0, y: -10_000 }));
}

#[test]
fn one_tick_of_walking_forward() {
    let mut simulation = Simulation::new(StdRng::seed_from_u64(1));
    let player = simulation.player;
    let state = simulation.tick(
        &vec![ExternalEvent::KeyboardInput { key_code: KeyCode::W, pressed: true }],
        33,
        33,
    );
    assert_eq!(velocity_of(&simulation.world, player), Velocity { dx: 0, dy: 14_829 });
    assert_eq!(position_of(&simulation.world, player), Position { x: 0, y: 528 });
    assert_eq!(state.time(), 33);
    assert_eq!(state.camera_offset(), Vec2 { x: 0, y: 0 });
    assert_eq!(state.entities().len(), 8);
    let state = simulation.tick(
        &vec![ExternalEvent::KeyboardInput { key_code: KeyCode::W, pressed: false }],
        33,
        66,
    );
    assert_eq!(velocity_of(&simulation.world, player), Velocity { dx: 0, dy: 13_744 });
    assert_eq!(position_of(&simulation.world, player), Position { x: 0, y: 528 + 489 });
    assert_eq!(state.camera_offset(), Vec2 { x: 0, y: -528 });
    assert_eq!(state.time(), 66);
}

#[test]
fn a_held_shot_charges_and_flies_on_release() {
    let mut simulation = Simulation::new(StdRng::seed_from_u64(2));
    let press = vec![ExternalEvent::KeyboardInput { key_code: KeyCode::Right, pressed: true }];
    let release = vec![ExternalEvent::KeyboardInput { key_code: KeyCode::Right, pressed: false }];
    simulation.tick(&press, 33, 0);
    assert_eq!(simulation.extra_info.charge, 1);
    assert_eq!(simulation.extra_info.speed, 2_000);
    for _ in 0..11 {
        simulation.tick(&Vec::new(), 33, 0);
    }
    assert_eq!(simulation.extra_info.charge, 12);
    assert_eq!(simulation.world.len(), 8);
    simulation.tick(&release, 33, 400);
    assert_eq!(simulation.extra_info.charge, 0);
    assert_eq!(simulation.extra_info.speed, 16_000);
    assert_eq!(simulation.world.len(), 9);
    let arrow = simulation.world.components_at(8);
    assert_eq!(arrow.timed_life, Some(TimedLife { millis_left: 967 }));
    assert_eq!(arrow.status, Some(Status { collides_with_own_team: false, team: Team::PLAYER }));
    assert_eq!(arrow.asset.as_ref().unwrap().animation_start_time, 400);
    for _ in 0..29 {
        simulation.tick(&Vec::new(), 33, 0);
    }
    assert_eq!(simulation.world.len(), 9);
    simulation.tick(&Vec::new(), 33, 0);
    assert_eq!(simulation.world.len(), 8);
    assert!(simulation.world.contains(simulation.player));
}

#[test]
fn a_jump_shakes_the_camera_and_the_shake_dies_down() {
    let mut simulation = Simulation::new(StdRng::seed_from_u64(3));
    simulation.tick(
        &vec![ExternalEvent::KeyboardInput { key_code: KeyCode::Space, pressed: true }],
        33,
        0,
    );
    assert_eq!(simulation.extra_info.shake, 4_900);
    simulation.tick(&Vec::new(), 33, 0);
    assert_eq!(simulation.extra_info.shake, 4_802);
}

#[test]
fn the_rest_of_the_budget_is_slept() {
    assert_eq!(sleep_budget(0), Some(33));
    assert_eq!(sleep_budget(20), Some(13));
    assert_eq!(sleep_budget(32), Some(1));
    assert_eq!(sleep_budget(33), None);
    assert_eq!(sleep_budget(5_000), None);
}
