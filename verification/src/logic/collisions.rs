//! The collision pass: detection over all pairs of entities and the static
//! world, then resolution.
//!
//! Every hit is found before any entity is moved, so the order in which
//! entities are corrected does not change what is detected.
use vstd::prelude::*;
use crate::collision::collision_mesh::{CollisionMesh, CollisionMeshManager};
use crate::collision::world_collision_mesh::WorldCollisionMesh;
use crate::components::{Position, Status, Velocity};
use crate::units::{
    clamp, div_toward_zero, lemma_product_bound, lemma_quotient_bound, saturate, saturate_wide,
};
use crate::vec2::Vec2;
use crate::world::{
    holds, index_of, same_entities, Component, Components, Entity, Record, World,
};

verus! {

/// A recorded hit: `entity` overlaps `other`, or the static world where
/// there is no other, and `vector` takes it out of the overlap.
#[derive(Clone, Copy, Debug, PartialEq, Eq, Structural)]
pub struct Collision {
    pub entity: Entity,
    pub other: Option<Entity>,
    pub vector: Vec2,
}

/// Whether two entities with the given statuses can collide. Two entities
/// of one team cannot unless one of them collides with its own team. An
/// entity without a status collides with everything.
pub open spec fn eligible(first: Option<Status>, second: Option<Status>) -> bool {
    !(first is Some && second is Some && first->0.team == second->0.team
        && !first->0.collides_with_own_team && !second->0.collides_with_own_team)
}

/// The entity has a place and a shape.
pub open spec fn has_shape(components: Components) -> bool {
    components.position is Some && components.collider is Some
}

/// Every collider names a mesh of the arena.
pub open spec fn meshes_are_known(records: Seq<Record>, meshes: Seq<CollisionMesh>) -> bool {
    forall|i: int|
        0 <= i < records.len() && (#[trigger] records[i]).components.collider is Some ==> 0
            <= records[i].components.collider->0.collision_mesh.position() < meshes.len()
}

/// The entity's mesh at the entity's place and size.
pub open spec fn shape_of(components: Components, meshes: Seq<CollisionMesh>) -> CollisionMesh {
    meshes[components.collider->0.collision_mesh.position()].transform_spec(
        Vec2 { x: components.position->0.x, y: components.position->0.y },
        components.collider->0.size,
    )
}

/// The hit of record `i` on record `j`, if there is one: both have a
/// shape, they are different entities, their shapes overlap, and their
/// statuses let them collide.
pub open spec fn pair_hit(records: Seq<Record>, meshes: Seq<CollisionMesh>, i: int, j: int)
    -> Option<Collision> {
    if records[i].entity != records[j].entity && has_shape(records[i].components) && has_shape(
        records[j].components,
    ) && shape_of(records[i].components, meshes).aabb.overlaps(
        shape_of(records[j].components, meshes).aabb,
    ) && eligible(records[i].components.status, records[j].components.status) {
        Some(
            Collision {
                entity: records[i].entity,
                other: Some(records[j].entity),
                vector: shape_of(records[i].components, meshes).aabb.separating_vector(
                    shape_of(records[j].components, meshes).aabb,
                ),
            },
        )
    } else {
        None
    }
}

/// The hit of record `i` on the static world, if there is one.
pub open spec fn world_hit(
    records: Seq<Record>,
    meshes: Seq<CollisionMesh>,
    world_mesh: WorldCollisionMesh,
    i: int,
) -> Option<Collision> {
    if has_shape(records[i].components) && world_mesh.collision_spec(
        shape_of(records[i].components, meshes).aabb,
    ) is Some {
        Some(
            Collision {
                entity: records[i].entity,
                other: None,
                vector: world_mesh.collision_spec(
                    shape_of(records[i].components, meshes).aabb,
                )->0,
            },
        )
    } else {
        None
    }
}

/// The sequence of the hit, or the empty sequence.
pub open spec fn listed(hit: Option<Collision>) -> Seq<Collision> {
    match hit {
        Some(collision) => seq![collision],
        None => Seq::empty(),
    }
}

/// The hits of record `i` on the first `count` records, in their order.
pub open spec fn pair_hits(records: Seq<Record>, meshes: Seq<CollisionMesh>, i: int, count: nat)
    -> Seq<Collision>
    decreases count,
{
    if count == 0 {
        Seq::empty()
    } else {
        pair_hits(records, meshes, i, (count - 1) as nat) + listed(
            pair_hit(records, meshes, i, count - 1),
        )
    }
}

/// The hits of the first `count` records: for each record in order its
/// hits on all records and then its hit on the static world.
pub open spec fn detected(
    records: Seq<Record>,
    meshes: Seq<CollisionMesh>,
    world_mesh: WorldCollisionMesh,
    count: nat,
) -> Seq<Collision>
    decreases count,
{
    if count == 0 {
        Seq::empty()
    } else {
        detected(records, meshes, world_mesh, (count - 1) as nat) + pair_hits(
            records,
            meshes,
            count - 1,
            records.len(),
        ) + listed(world_hit(records, meshes, world_mesh, count - 1))
    }
}

/// The velocity without its part along `normal`: an entity that is pushed
/// out of an overlap keeps sliding along the surface. A push of no length
/// leaves the velocity as it is.
pub open spec fn slid(velocity: Velocity, normal: Vec2) -> Velocity {
    let along = velocity.dx * normal.x + velocity.dy * normal.y;
    let length_squared = normal.dot_spec(normal);
    if length_squared == 0 {
        velocity
    } else {
        Velocity {
            dx: clamp(velocity.dx - div_toward_zero(along * normal.x, length_squared)) as i32,
            dy: clamp(velocity.dy - div_toward_zero(along * normal.y, length_squared)) as i32,
        }
    }
}

/// The components after the entity has been pushed by `vector`. Only an
/// entity that can move, one with a velocity, is pushed.
pub open spec fn corrected(components: Components, vector: Vec2) -> Components {
    if components.velocity is Some && components.position is Some {
        Components {
            position: Some(
                Position {
                    x: clamp(components.position->0.x + vector.x) as i32,
                    y: clamp(components.position->0.y + vector.y) as i32,
                },
            ),
            velocity: Some(slid(components.velocity->0, vector)),
            ..components
        }
    } else {
        components
    }
}

/// The world after one hit has been resolved. Only the entity that hit is
/// corrected: the entity that was hit stays where it is.
pub open spec fn resolved_one(records: Seq<Record>, collision: Collision) -> Seq<Record> {
    if holds(records, collision.entity) {
        let i = index_of(records, collision.entity);
        records.update(
            i,
            Record {
                entity: collision.entity,
                components: corrected(records[i].components, collision.vector),
            },
        )
    } else {
        records
    }
}

/// The world after the hits have been resolved one after the other.
pub open spec fn resolved(records: Seq<Record>, collisions: Seq<Collision>) -> Seq<Record>
    decreases collisions.len(),
{
    if collisions.len() == 0 {
        records
    } else {
        resolved_one(resolved(records, collisions.drop_last()), collisions.last())
    }
}

/// Whether two entities with the given statuses can collide.
pub fn may_collide(first: &Option<Status>, second: &Option<Status>) -> (allowed: bool)
    ensures
        allowed == eligible(*first, *second),
{
    match (first, second) {
        (Some(first), Some(second)) => !(first.team == second.team
            && !first.collides_with_own_team && !second.collides_with_own_team),
        _ => true,
    }
}

/// The entity's mesh at the entity's place and size, for an entity that
/// has a place and a shape.
fn instantiate(components: &Components, manager: &CollisionMeshManager) -> (shape: Option<
    CollisionMesh,
>)
    requires
        components.collider is Some ==> manager.contains(components.collider->0.collision_mesh),
    ensures
        shape is Some == has_shape(*components),
        shape is Some ==> shape->0 == shape_of(*components, manager@),
{
    match (components.position, components.collider) {
        (Some(position), Some(collider)) => Some(
            manager.get_collision_mesh(
                collider.collision_mesh,
                Vec2 { x: position.x, y: position.y },
                collider.size,
            ),
        ),
        _ => None,
    }
}

/// Whether every collider of the world names a mesh of the arena.
pub fn knows_all_meshes(world: &World, manager: &CollisionMeshManager) -> (known: bool)
    ensures
        known == meshes_are_known(world@, manager@),
{
    let count = world.len();
    let mut i: usize = 0;
    while i < count
        invariant
            count == world@.len(),
            i <= count,
            forall|j: int|
                0 <= j < i && (#[trigger] world@[j]).components.collider is Some ==> 0
                    <= world@[j].components.collider->0.collision_mesh.position()
                    < manager@.len(),
        decreases count - i,
    {
        match world.components_at(i).collider {
            Some(collider) => {
                if !manager.has_collision_mesh(collider.collision_mesh) {
                    return false;
                }
            },
            None => {},
        }
        i += 1;
    }
    true
}

/// Finds every hit in the world as it stands.
pub fn detect_collisions(
    world: &World,
    manager: &CollisionMeshManager,
    world_mesh: &WorldCollisionMesh,
) -> (collisions: Vec<Collision>)
    requires
        meshes_are_known(world@, manager@),
    ensures
        collisions@ == detected(world@, manager@, *world_mesh, world@.len()),
{
    let mut collisions: Vec<Collision> = Vec::new();
    let count = world.len();
    let mut i: usize = 0;
    while i < count
        invariant
            meshes_are_known(world@, manager@),
            count == world@.len(),
            i <= count,
            collisions@ == detected(world@, manager@, *world_mesh, i as nat),
        decreases count - i,
    {
        let ghost before = collisions@;
        let first = world.components_at(i);
        let shape = instantiate(first, manager);
        let mut j: usize = 0;
        while j < count
            invariant
                meshes_are_known(world@, manager@),
                count == world@.len(),
                i < count,
                j <= count,
                *first == world@[i as int].components,
                shape is Some == has_shape(*first),
                shape is Some ==> shape->0 == shape_of(*first, manager@),
                collisions@ == before + pair_hits(world@, manager@, i as int, j as nat),
            decreases count - j,
        {
            match shape {
                Some(mesh) => {
                    if world.entity_at(i) != world.entity_at(j) {
                        let second = world.components_at(j);
                        match instantiate(second, manager) {
                            Some(other_mesh) => {
                                if mesh.is_colliding(&other_mesh) && may_collide(
                                    &first.status,
                                    &second.status,
                                ) {
                                    collisions.push(
                                        Collision {
                                            entity: world.entity_at(i),
                                            other: Some(world.entity_at(j)),
                                            vector: mesh.closest_intersection_vector(&other_mesh),
                                        },
                                    );
                                }
                            },
                            None => {},
                        }
                    }
                },
                None => {},
            }
            proof {
                assert(collisions@ =~= before + pair_hits(
                    world@,
                    manager@,
                    i as int,
                    (j + 1) as nat,
                ));
            }
            j += 1;
        }
        let ghost paired = collisions@;
        match shape {
            Some(mesh) => {
                match world_mesh.find_collision(&mesh.aabb) {
                    Some(vector) => {
                        collisions.push(
                            Collision { entity: world.entity_at(i), other: None, vector },
                        );
                    },
                    None => {},
                }
            },
            None => {},
        }
        proof {
            assert(collisions@ =~= paired + listed(
                world_hit(world@, manager@, *world_mesh, i as int),
            ));
            assert(collisions@ =~= detected(world@, manager@, *world_mesh, (i + 1) as nat));
        }
        i += 1;
    }
    collisions
}

/// Removes from `velocity` its part along `normal`.
pub fn slide(velocity: Velocity, normal: Vec2) -> (after: Velocity)
    ensures
        after == slid(velocity, normal),
{
    let length_squared = normal.magnitude_squared();
    if length_squared == 0 {
        return velocity;
    }
    let along = Vec2 { x: velocity.dx, y: velocity.dy }.dot(normal);
    proof {
        lemma_product_bound(velocity.dx as int, normal.x as int, 0x8000_0000, 0x8000_0000);
        lemma_product_bound(velocity.dy as int, normal.y as int, 0x8000_0000, 0x8000_0000);
        lemma_product_bound(normal.x as int, normal.x as int, 0x8000_0000, 0x8000_0000);
        lemma_product_bound(normal.y as int, normal.y as int, 0x8000_0000, 0x8000_0000);
        lemma_product_bound(along as int, normal.x as int, 0x8000_0000_0000_0000, 0x8000_0000);
        lemma_product_bound(along as int, normal.y as int, 0x8000_0000_0000_0000, 0x8000_0000);
        lemma_quotient_bound(
            along * normal.x,
            length_squared as int,
            0x4000_0000_0000_0000_0000_0000,
        );
        lemma_quotient_bound(
            along * normal.y,
            length_squared as int,
            0x4000_0000_0000_0000_0000_0000,
        );
    }
    let change_x: i128 = along * normal.x as i128 / length_squared;
    let change_y: i128 = along * normal.y as i128 / length_squared;
    Velocity {
        dx: saturate_wide(velocity.dx as i128 - change_x),
        dy: saturate_wide(velocity.dy as i128 - change_y),
    }
}

/// Resolves the hits one after the other: each entity that hit something
/// and can move is pushed out and slides on.
pub fn resolve_collisions(world: &mut World, collisions: &Vec<Collision>)
    requires
        old(world).wf(),
    ensures
        final(world).wf(),
        final(world).spawned() == old(world).spawned(),
        final(world)@ == resolved(old(world)@, collisions@),
{
    let mut k: usize = 0;
    proof {
        assert(collisions@.take(0) =~= Seq::<Collision>::empty());
    }
    while k < collisions.len()
        invariant
            world.wf(),
            world.spawned() == old(world).spawned(),
            k <= collisions@.len(),
            world@ == resolved(old(world)@, collisions@.take(k as int)),
        decreases collisions.len() - k,
    {
        let collision = collisions[k];
        let ghost before = world@;
        proof {
            assert(collisions@.take(k + 1).drop_last() =~= collisions@.take(k as int));
        }
        match world.place_of(collision.entity) {
            Some(index) => {
                let components = world.components_at(index);
                match (components.position, components.velocity) {
                    (Some(position), Some(velocity)) => {
                        let pushed = Position {
                            x: saturate(position.x as i64 + collision.vector.x as i64),
                            y: saturate(position.y as i64 + collision.vector.y as i64),
                        };
                        let sliding = slide(velocity, collision.vector);
                        world.set_at(index, Component::Position(pushed));
                        world.set_at(index, Component::Velocity(sliding));
                        proof {
                            assert(world@ =~= resolved_one(before, collision));
                        }
                    },
                    _ => {
                        proof {
                            assert(before =~= resolved_one(before, collision));
                        }
                    },
                }
            },
            None => {},
        }
        k += 1;
    }
    proof {
        assert(collisions@.take(k as int) =~= collisions@);
    }
}

/// Two entities of one team, neither of which collides with its own team,
/// never hit each other, however their shapes lie; two entities of which one
/// has no status, or which are of different teams, or of which one collides
/// with its own team, hit each other whenever their shapes overlap.
pub proof fn lemma_team_filter(records: Seq<Record>, meshes: Seq<CollisionMesh>, i: int, j: int)
    requires
        0 <= i < records.len(),
        0 <= j < records.len(),
        records[i].entity != records[j].entity,
        has_shape(records[i].components),
        has_shape(records[j].components),
    ensures
        ({
            &&& records[i].components.status is Some
            &&& records[j].components.status is Some
            &&& records[i].components.status->0.team == records[j].components.status->0.team
            &&& !records[i].components.status->0.collides_with_own_team
            &&& !records[j].components.status->0.collides_with_own_team
        }) ==> pair_hit(records, meshes, i, j) is None,
        ({
            ||| records[i].components.status is None
            ||| records[j].components.status is None
            ||| records[i].components.status->0.team != records[j].components.status->0.team
            ||| records[i].components.status->0.collides_with_own_team
            ||| records[j].components.status->0.collides_with_own_team
        }) ==> (pair_hit(records, meshes, i, j) is Some <==> shape_of(
            records[i].components,
            meshes,
        ).aabb.overlaps(shape_of(records[j].components, meshes).aabb)),
{
}

/// Resolving a hit changes no entity but the one that hit, and neither
/// adds nor removes an entity.
pub proof fn lemma_only_the_hitter_moves(records: Seq<Record>, collision: Collision, i: int)
    requires
        0 <= i < records.len(),
        records[i].entity != collision.entity,
    ensures
        resolved_one(records, collision).len() == records.len(),
        resolved_one(records, collision)[i] == records[i],
{
}

/// Resolving hits neither adds nor removes an entity or a component, and
/// keeps the order of the entities.
pub proof fn lemma_resolution_keeps_entities(records: Seq<Record>, collisions: Seq<Collision>)
    ensures
        same_entities(records, resolved(records, collisions)),
    decreases collisions.len(),
{
    if collisions.len() > 0 {
        lemma_resolution_keeps_entities(records, collisions.drop_last());
    }
}

/// Resolving hits leaves an entity that hit nothing as it is.
pub proof fn lemma_resolution_spares_the_rest(
    records: Seq<Record>,
    collisions: Seq<Collision>,
    place: int,
)
    requires
        0 <= place < records.len(),
        forall|k: int|
            0 <= k < collisions.len() ==> (#[trigger] collisions[k]).entity
                != records[place].entity,
    ensures
        resolved(records, collisions).len() == records.len(),
        resolved(records, collisions)[place] == records[place],
    decreases collisions.len(),
{
    if collisions.len() > 0 {
        lemma_resolution_spares_the_rest(records, collisions.drop_last(), place);
        lemma_only_the_hitter_moves(
            resolved(records, collisions.drop_last()),
            collisions.last(),
            place,
        );
    }
}

/// A push along one axis stops the motion along that axis and leaves the
/// motion along the other as it is.
pub proof fn lemma_slide_along_axis(velocity: Velocity, depth: i32)
    requires
        depth != 0,
    ensures
        slid(velocity, Vec2 { x: depth, y: 0 }) == (Velocity { dx: 0, dy: velocity.dy }),
        slid(velocity, Vec2 { x: 0, y: depth }) == (Velocity { dx: velocity.dx, dy: 0 }),
{
    let square = depth * depth;
    assert(square > 0) by (nonlinear_arith)
        requires
            depth != 0,
            square == depth * depth,
    ;
    lemma_exact_quotient(velocity.dx as int, square);
    lemma_exact_quotient(velocity.dy as int, square);
    assert(velocity.dx * depth * depth == velocity.dx * square) by (nonlinear_arith)
        requires
            square == depth * depth,
    ;
    assert(velocity.dy * depth * depth == velocity.dy * square) by (nonlinear_arith)
        requires
            square == depth * depth,
    ;
    assert((velocity.dx * depth + velocity.dy * 0) * depth == velocity.dx * depth * depth)
        by (nonlinear_arith);
    assert((velocity.dx * 0 + velocity.dy * depth) * depth == velocity.dy * depth * depth)
        by (nonlinear_arith);
    assert((velocity.dx * depth + velocity.dy * 0) * 0 == 0) by (nonlinear_arith);
    assert((velocity.dx * 0 + velocity.dy * depth) * 0 == 0) by (nonlinear_arith);
    assert(depth * depth + 0 * 0 == square);
    assert(0 * 0 + depth * depth == square);
}

/// A multiple of a positive divisor divides exactly.
proof fn lemma_exact_quotient(factor: int, divisor: int)
    by (nonlinear_arith)
    requires
        divisor > 0,
    ensures
        div_toward_zero(factor * divisor, divisor) == factor,
{
    if factor >= 0 {
        assert(factor * divisor >= 0);
        assert((factor * divisor) / divisor == factor);
    } else {
        assert(factor * divisor < 0);
        assert(-(factor * divisor) == (-factor) * divisor);
        assert(((-factor) * divisor) / divisor == -factor);
    }
}

} // verus!
