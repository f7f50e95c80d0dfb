//! The world as it is before the first tick.
use vstd::prelude::*;
use crate::collision::aabb::Aabb;
use crate::collision::collision_mesh::{
    CollisionMesh, CollisionMeshIdentifier, CollisionMeshManager,
};
use crate::collision::triangle::{doubled_area, Triangle, TriangleCorner};
use crate::collision::world_collision_mesh::WorldCollisionMesh;
use crate::components::{
    AiRandomWalk, Asset, Collider, Friction, Position, Status, Team, Velocity,
};
use crate::vec2::Vec2;
use crate::world::{Components, Entity, Record, World};

verus! {

/// How fast a firefly's random walk pushes it.
pub const FIREFLY_SPEED: i32 = 192_000;

/// The fixed-point fraction of its distance from the centre by which a
/// firefly is pulled back each tick.
pub const FIREFLY_CENTERING: i32 = 10;

/// The number of fireflies in the world.
pub const FIREFLIES: usize = 4;

/// The unit square centred on the origin, which every entity's collider
/// scales to its own size.
pub open spec fn basic_mesh() -> CollisionMesh {
    CollisionMesh { aabb: Aabb { min_x: -500i32, min_y: -500i32, max_x: 500, max_y: 500 } }
}

/// The asset is the first animation of the model `name`, running since the
/// start.
pub open spec fn is_asset(asset: Option<Asset>, name: Seq<char>) -> bool {
    &&& asset is Some
    &&& asset->0.name@ == name
    &&& asset->0.animation == 0
    &&& asset->0.animation_start_time == 0
}

/// The player at the start: at rest at the origin, subject to friction, on
/// its own team and colliding with it.
pub open spec fn is_player(components: Components, basic: CollisionMeshIdentifier) -> bool {
    &&& components.position == Some(Position { x: 0, y: 0 })
    &&& components.velocity == Some(Velocity { dx: 0, dy: 0 })
    &&& is_asset(components.asset, "player"@)
    &&& components.friction is Some
    &&& components.timed_life is None
    &&& components.collider == Some(Collider { collision_mesh: basic, size: 96_000 })
    &&& components.status == Some(Status { collides_with_own_team: true, team: Team::PLAYER })
    &&& components.ai_random_walk is None
}

/// A thing that is only drawn.
pub open spec fn is_backdrop(components: Components, name: Seq<char>) -> bool {
    &&& components.position == Some(Position { x: 0, y: 0 })
    &&& components.velocity is None
    &&& is_asset(components.asset, name)
    &&& components.friction is None
    &&& components.timed_life is None
    &&& components.collider is None
    &&& components.status is None
    &&& components.ai_random_walk is None
}

/// A thing that stands in the way and never moves.
pub open spec fn is_obstacle(
    components: Components,
    name: Seq<char>,
    position: Position,
    collider: Collider,
) -> bool {
    &&& components.position == Some(position)
    &&& components.velocity is None
    &&& is_asset(components.asset, name)
    &&& components.friction is None
    &&& components.timed_life is None
    &&& components.collider == Some(collider)
    &&& components.status is None
    &&& components.ai_random_walk is None
}

/// A firefly at the start: at rest at the origin, which it wanders around.
pub open spec fn is_firefly(components: Components) -> bool {
    &&& components.position == Some(Position { x: 0, y: 0 })
    &&& components.velocity == Some(Velocity { dx: 0, dy: 0 })
    &&& is_asset(components.asset, "firefly"@)
    &&& components.friction is Some
    &&& components.timed_life is None
    &&& components.collider is None
    &&& components.status is None
    &&& components.ai_random_walk == Some(
        AiRandomWalk {
            speed: FIREFLY_SPEED,
            centering_speed: FIREFLY_CENTERING,
            center: Vec2 { x: 0, y: 0 },
        },
    )
}

/// The world at the start: the player, the background, a bush, a lamp post
/// and the fireflies, in this order.
pub open spec fn is_start(records: Seq<Record>, player: Entity, basic: CollisionMeshIdentifier)
    -> bool {
    &&& records.len() == 4 + FIREFLIES
    &&& records[0].entity == player
    &&& is_player(records[0].components, basic)
    &&& is_backdrop(records[1].components, "background"@)
    &&& is_obstacle(
        records[2].components,
        "bush"@,
        Position { x: 100_000, y: 100_000 },
        Collider { collision_mesh: basic, size: 16_000 },
    )
    &&& is_obstacle(
        records[3].components,
        "lamp post"@,
        Position { x: 480_000, y: -540_000i32 },
        Collider { collision_mesh: basic, size: 32_000 },
    )
    &&& forall|i: int| 4 <= i < 4 + FIREFLIES ==> is_firefly(#[trigger] records[i].components)
}

/// The static geometry is the one triangle to the south-east of the origin.
pub open spec fn is_start_mesh(mesh: WorldCollisionMesh) -> bool {
    &&& mesh@.len() == 1
    &&& mesh@[0].corner_spec(TriangleCorner::A) == (Vec2 { x: 0, y: -200_000i32 })
    &&& mesh@[0].corner_spec(TriangleCorner::B) == (Vec2 { x: 200_000, y: -200_000i32 })
    &&& mesh@[0].corner_spec(TriangleCorner::C) == (Vec2 { x: 200_000, y: 0 })
}

/// The first animation of the model `name`, running since the start.
pub fn asset_named(name: &str) -> (asset: Asset)
    ensures
        is_asset(Some(asset), name@),
{
    Asset { name: name.to_owned(), animation: 0, animation_start_time: 0 }
}

/// An arena that holds the basic mesh, and the name of that mesh.
pub fn setup_collision_meshes() -> (arena: (CollisionMeshManager, CollisionMeshIdentifier))
    ensures
        arena.0@ == seq![basic_mesh()],
        arena.1.position() == 0,
{
    let mut manager = CollisionMeshManager::new();
    let identifier = manager.add_collision_mesh(
        CollisionMesh::new(Aabb { min_x: -500, min_y: -500, max_x: 500, max_y: 500 }),
    );
    proof {
        assert(manager@ =~= seq![basic_mesh()]);
    }
    (manager, identifier)
}

/// The static geometry of the world: one triangle to the south-east of the
/// origin.
pub fn setup_world_mesh() -> (mesh: WorldCollisionMesh)
    ensures
        is_start_mesh(mesh),
{
    assert(doubled_area(
        Vec2 { x: 0, y: -200_000i32 },
        Vec2 { x: 200_000, y: -200_000i32 },
        Vec2 { x: 200_000, y: 0 },
    ) > 0);
    let mut triangles: Vec<Triangle> = Vec::new();
    triangles.push(
        Triangle::new(
            Vec2 { x: 0, y: -200_000 },
            Vec2 { x: 200_000, y: -200_000 },
            Vec2 { x: 200_000, y: 0 },
        ),
    );
    WorldCollisionMesh::new(triangles)
}

/// The world at the start, and the player in it.
pub fn setup_world(basic: CollisionMeshIdentifier) -> (start: (World, Entity))
    ensures
        start.0.wf(),
        start.0.spawned() == 4 + FIREFLIES,
        is_start(start.0@, start.1, basic),
{
    let mut world = World::new();
    let player = world.spawn(
        Components {
            position: Some(Position { x: 0, y: 0 }),
            velocity: Some(Velocity { dx: 0, dy: 0 }),
            asset: Some(asset_named("player")),
            friction: Some(Friction {  }),
            timed_life: None,
            collider: Some(Collider { collision_mesh: basic, size: 96_000 }),
            status: Some(Status { collides_with_own_team: true, team: Team::PLAYER }),
            ai_random_walk: None,
        },
    );
    world.spawn(
        Components {
            position: Some(Position { x: 0, y: 0 }),
            velocity: None,
            asset: Some(asset_named("background")),
            friction: None,
            timed_life: None,
            collider: None,
            status: None,
            ai_random_walk: None,
        },
    );
    world.spawn(
        Components {
            position: Some(Position { x: 100_000, y: 100_000 }),
            velocity: None,
            asset: Some(asset_named("bush")),
            friction: None,
            timed_life: None,
            collider: Some(Collider { collision_mesh: basic, size: 16_000 }),
            status: None,
            ai_random_walk: None,
        },
    );
    world.spawn(
        Components {
            position: Some(Position { x: 480_000, y: -540_000 }),
            velocity: None,
            asset: Some(asset_named("lamp post")),
            friction: None,
            timed_life: None,
            collider: Some(Collider { collision_mesh: basic, size: 32_000 }),
            status: None,
            ai_random_walk: None,
        },
    );
    let mut spawned: usize = 0;
    while spawned < FIREFLIES
        invariant
            spawned <= FIREFLIES,
            world.wf(),
            world.spawned() == 4 + spawned,
            world@.len() == 4 + spawned,
            world@[0].entity == player,
            is_player(world@[0].components, basic),
            is_backdrop(world@[1].components, "background"@),
            is_obstacle(
                world@[2].components,
                "bush"@,
                Position { x: 100_000, y: 100_000 },
                Collider { collision_mesh: basic, size: 16_000 },
            ),
            is_obstacle(
                world@[3].components,
                "lamp post"@,
                Position { x: 480_000, y: -540_000i32 },
                Collider { collision_mesh: basic, size: 32_000 },
            ),
            forall|i: int| 4 <= i < 4 + spawned ==> is_firefly(#[trigger] world@[i].components),
        decreases FIREFLIES - spawned,
    {
        world.spawn(
            Components {
                position: Some(Position { x: 0, y: 0 }),
                velocity: Some(Velocity { dx: 0, dy: 0 }),
                asset: Some(asset_named("firefly")),
                friction: Some(Friction {  }),
                timed_life: None,
                collider: None,
                status: None,
                ai_random_walk: Some(
                    AiRandomWalk {
                        speed: FIREFLY_SPEED,
                        centering_speed: FIREFLY_CENTERING,
                        center: Vec2 { x: 0, y: 0 },
                    },
                ),
            },
        );
        spawned += 1;
    }
    (world, player)
}

} // verus!
