//! The tick: input, systems, collisions, sweep, snapshot.
//!
//! The simulation never waits. What reaches it from outside, the events of
//! the windowing layer and the reading of the clock, comes in as arguments;
//! what leaves it is the snapshot.
use vstd::prelude::*;
use rand::rngs::StdRng;
use crate::collision::collision_mesh::{
    CollisionMesh, CollisionMeshIdentifier, CollisionMeshManager,
};
use crate::collision::world_collision_mesh::WorldCollisionMesh;
use crate::components::{Asset, Collider, Position, Status, Team, TimedLife, Velocity};
use crate::controls::{default_bindings, ControlConfig};
use crate::direction::Direction;
use crate::draw_state::{by_height, DrawState};
use crate::external_event::ExternalEvent;
use crate::external_event_handler::{
    after_events, level_events, ExternalEventHandler, HandlerState,
};
use crate::logic::collisions::{
    detect_collisions, detected, knows_all_meshes, lemma_resolution_keeps_entities,
    lemma_resolution_spares_the_rest, meshes_are_known, resolve_collisions, resolved,
};
use crate::logic::player_input::{
    apply_event, extra_after, lemma_charge_stays_capped, shot_by, velocity_after, ExtraInfo,
    CHARGE_THRESHOLD,
};
use crate::logic::setup::{
    basic_mesh, is_firefly, is_start, is_start_mesh, setup_collision_meshes, setup_world,
    setup_world_mesh,
};
use crate::logic::snapshot::{camera_offset, create_draw_state, depicted};
use crate::logic::timed_life::{handle_timed_life, is_expired, survivors};
use crate::state_input_event::StateInputEvent;
use crate::systems::{
    can_reach, is_draw, lemma_schedule_keeps_entities, lemma_tick_systems_on_entity, moved,
    setup_resources, setup_schedule, slowed, step, tick_systems, Resources, Schedule, Time,
};
use crate::vec2::Vec2;
use crate::world::{
    distinct, holds, index_of, same_entities, Component, Components, Entity, Record, World,
};

verus! {

/// How long a projectile lives, in milliseconds.
pub const PROJECTILE_LIFE: i32 = 1000;

/// The size of a projectile's collider.
pub const PROJECTILE_SIZE: i32 = 48_000;

/// The time that a tick should take, in milliseconds.
pub const TICK_BUDGET: u64 = 33;

/// What a run of input events makes of the player's velocity and of the
/// state around the player, and the velocities of the projectiles that the
/// events send off.
pub struct InputOutcome {
    pub velocity: Velocity,
    pub extra: ExtraInfo,
    pub shots: Seq<Velocity>,
}

/// The outcome of the events, folded in order.
pub open spec fn after_inputs(events: Seq<StateInputEvent>, velocity: Velocity, extra: ExtraInfo)
    -> InputOutcome
    decreases events.len(),
{
    if events.len() == 0 {
        InputOutcome { velocity, extra, shots: Seq::empty() }
    } else {
        let before = after_inputs(events.drop_last(), velocity, extra);
        InputOutcome {
            velocity: velocity_after(events.last(), before.velocity, before.extra),
            extra: extra_after(events.last(), before.extra),
            shots: match shot_by(events.last(), before.extra) {
                Some(shot) => before.shots.push(shot),
                None => before.shots,
            },
        }
    }
}

/// The components of a projectile that was sent off at `now` from
/// `position` with `velocity`: it lives for a second, it is on the player's
/// team and does not collide with it.
pub open spec fn is_projectile(
    components: Components,
    velocity: Velocity,
    position: Position,
    now: u64,
    basic: CollisionMeshIdentifier,
) -> bool {
    &&& components.position == Some(position)
    &&& components.velocity == Some(velocity)
    &&& components.asset is Some
    &&& components.asset->0.name@ == "arrow"@
    &&& components.asset->0.animation == 0
    &&& components.asset->0.animation_start_time == now
    &&& components.friction is None
    &&& components.timed_life == Some(TimedLife { millis_left: PROJECTILE_LIFE })
    &&& components.collider == Some(Collider { collision_mesh: basic, size: PROJECTILE_SIZE })
    &&& components.status == Some(Status { collides_with_own_team: false, team: Team::PLAYER })
    &&& components.ai_random_walk is None
}

/// The player is in the world and has a place and a velocity.
pub open spec fn player_is_present(records: Seq<Record>, player: Entity) -> bool {
    &&& holds(records, player)
    &&& records[index_of(records, player)].components.position is Some
    &&& records[index_of(records, player)].components.velocity is Some
}

/// How many of `wanted` entities a world can still spawn after it has
/// spawned `spawned`.
pub open spec fn spawnable(spawned: nat, wanted: nat) -> nat {
    if spawned + wanted <= u64::MAX {
        wanted
    } else {
        (u64::MAX - spawned) as nat
    }
}

/// `after` is `before` with the input events applied: the player has the
/// velocity that the events give it, and behind all other entities stand
/// the projectiles that the events sent off, each under a new serial
/// number, as far as the world could still spawn them.
pub open spec fn input_applied(
    before: Seq<Record>,
    spawned: nat,
    player: Entity,
    events: Seq<StateInputEvent>,
    extra: ExtraInfo,
    now: u64,
    basic: CollisionMeshIdentifier,
    after: Seq<Record>,
) -> bool {
    let place = index_of(before, player);
    let position = before[place].components.position->0;
    let outcome = after_inputs(events, before[place].components.velocity->0, extra);
    let shots = spawnable(spawned, outcome.shots.len());
    &&& after.len() == before.len() + shots
    &&& after[place] == (Record {
        entity: player,
        components: Components { velocity: Some(outcome.velocity), ..before[place].components },
    })
    &&& forall|i: int| 0 <= i < before.len() && i != place ==> #[trigger] after[i] == before[i]
    &&& forall|k: int|
        0 <= k < shots ==> {
            &&& (#[trigger] after[before.len() + k]).entity.serial() == spawned + k
            &&& is_projectile(
                after[before.len() + k].components,
                outcome.shots[k],
                position,
                now,
                basic,
            )
        }
}

/// Folds the input events of a tick into the player and the state around
/// it, and spawns the projectiles that the events send off. Returns the
/// player's place.
pub fn apply_player_input(
    world: &mut World,
    player: Entity,
    extra_info: &mut ExtraInfo,
    events: &Vec<StateInputEvent>,
    basic: CollisionMeshIdentifier,
    now: u64,
) -> (position: Position)
    requires
        old(world).wf(),
        player_is_present(old(world)@, player),
    ensures
        final(world).wf(),
        position == old(world).components_of(player).position->0,
        *final(extra_info) == after_inputs(
            events@,
            old(world).components_of(player).velocity->0,
            *old(extra_info),
        ).extra,
        input_applied(
            old(world)@,
            old(world).spawned(),
            player,
            events@,
            *old(extra_info),
            now,
            basic,
            final(world)@,
        ),
        final(world).spawned() == old(world).spawned() + spawnable(
            old(world).spawned(),
            after_inputs(
                events@,
                old(world).components_of(player).velocity->0,
                *old(extra_info),
            ).shots.len(),
        ),
{
    let ghost before = world@;
    let ghost spawned = world.spawned();
    let ghost extra = *extra_info;
    let place = world.place_of(player).unwrap();
    let components = world.components_at(place);
    let position = components.position.unwrap();
    let start = components.velocity.unwrap();
    let mut velocity = start;
    let mut i: usize = 0;
    proof {
        assert(events@.take(0) =~= Seq::<StateInputEvent>::empty());
        world.lemma_spawned_is_bounded();
    }
    while i < events.len()
        invariant
            world.wf(),
            before == old(world)@,
            spawned == old(world).spawned(),
            extra == *old(extra_info),
            place == index_of(before, player),
            place < before.len(),
            before[place as int].components.position == Some(position),
            before[place as int].components.velocity == Some(start),
            i <= events@.len(),
            velocity == after_inputs(events@.take(i as int), start, extra).velocity,
            *extra_info == after_inputs(events@.take(i as int), start, extra).extra,
            world.spawned() == spawned + spawnable(
                spawned,
                after_inputs(events@.take(i as int), start, extra).shots.len(),
            ),
            world@.len() == before.len() + spawnable(
                spawned,
                after_inputs(events@.take(i as int), start, extra).shots.len(),
            ),
            forall|j: int| 0 <= j < before.len() ==> #[trigger] world@[j] == before[j],
            forall|k: int|
                0 <= k < spawnable(
                    spawned,
                    after_inputs(events@.take(i as int), start, extra).shots.len(),
                ) ==> {
                    &&& (#[trigger] world@[before.len() + k]).entity.serial() == spawned + k
                    &&& is_projectile(
                        world@[before.len() + k].components,
                        after_inputs(events@.take(i as int), start, extra).shots[k],
                        position,
                        now,
                        basic,
                    )
                },
        decreases events.len() - i,
    {
        proof {
            assert(events@.take(i + 1).drop_last() =~= events@.take(i as int));
        }
        let ghost earlier = after_inputs(events@.take(i as int), start, extra);
        let ghost later = after_inputs(events@.take(i + 1), start, extra);
        let ghost grown = world@;
        proof {
            world.lemma_spawned_is_bounded();
            assert(later.shots == match shot_by(events@[i as int], earlier.extra) {
                Some(shot) => earlier.shots.push(shot),
                None => earlier.shots,
            });
        }
        let shot = apply_event(events[i], &mut velocity, extra_info);
        match shot {
            Some(shot_velocity) => {
                if world.has_room() {
                    world.spawn(
                        Components {
                            position: Some(position),
                            velocity: Some(shot_velocity),
                            asset: Some(
                                Asset {
                                    name: "arrow".to_owned(),
                                    animation: 0,
                                    animation_start_time: now,
                                },
                            ),
                            friction: None,
                            timed_life: Some(TimedLife { millis_left: PROJECTILE_LIFE }),
                            collider: Some(
                                Collider { collision_mesh: basic, size: PROJECTILE_SIZE },
                            ),
                            status: Some(
                                Status { collides_with_own_team: false, team: Team::PLAYER },
                            ),
                            ai_random_walk: None,
                        },
                    );
                }
            },
            None => {},
        }
        proof {
            assert forall|j: int| 0 <= j < grown.len() implies world@[j] == grown[j] by {}
            assert forall|k: int| 0 <= k < spawnable(spawned, later.shots.len()) implies {
                &&& (#[trigger] world@[before.len() + k]).entity.serial() == spawned + k
                &&& is_projectile(
                    world@[before.len() + k].components,
                    later.shots[k],
                    position,
                    now,
                    basic,
                )
            } by {
                if k < spawnable(spawned, earlier.shots.len()) {
                    assert(world@[before.len() + k] == grown[before.len() + k]);
                    assert(later.shots[k] == earlier.shots[k]);
                }
            }
        }
        i += 1;
    }
    proof {
        assert(events@.take(i as int) =~= events@);
        world.lemma_entities_are_distinct();
        assert(world@[place as int].entity == player);
    }
    let ghost grown = world@;
    world.set_at(place, Component::Velocity(velocity));
    proof {
        assert(before[place as int].entity == player);
        assert(world@[place as int].components =~= (Components {
            velocity: Some(velocity),
            ..before[place as int].components
        }));
    }
    position
}

/// What a single input event makes of the player.
pub proof fn lemma_single_input(event: StateInputEvent, velocity: Velocity, extra: ExtraInfo)
    ensures
        after_inputs(seq![event], velocity, extra).velocity == velocity_after(
            event,
            velocity,
            extra,
        ),
        after_inputs(seq![event], velocity, extra).extra == extra_after(event, extra),
        after_inputs(seq![event], velocity, extra).shots == match shot_by(event, extra) {
            Some(shot) => seq![shot],
            None => Seq::<Velocity>::empty(),
        },
{
    let events = seq![event];
    assert(events.drop_last() =~= Seq::<StateInputEvent>::empty());
    assert(events.last() == event);
    assert(after_inputs(events.drop_last(), velocity, extra) == (InputOutcome {
        velocity,
        extra,
        shots: Seq::empty(),
    }));
    match shot_by(event, extra) {
        Some(shot) => {
            assert(after_inputs(events, velocity, extra).shots =~= seq![shot]);
        },
        None => {},
    }
}

/// A tick in which the player's only input is a move, and in which the
/// player hits nothing: the move is added to the player's velocity before the
/// systems run, so that the player moves at the new velocity for the time of
/// the tick and friction then slows the new velocity. `applied` and `stepped`
/// are the world after the input and after the systems.
pub proof fn lemma_walking_tick(
    before: Seq<Record>,
    spawned: nat,
    player: Entity,
    delta: Vec2,
    extra: ExtraInfo,
    now: u64,
    basic: CollisionMeshIdentifier,
    applied: Seq<Record>,
    millis: nat,
    stepped: Seq<Record>,
    meshes: Seq<CollisionMesh>,
    world_mesh: WorldCollisionMesh,
    after: Seq<Record>,
)
    requires
        distinct(before),
        spawned <= u64::MAX,
        player_is_present(before, player),
        meshes_are_known(before, meshes),
        before[index_of(before, player)].components.friction is Some,
        before[index_of(before, player)].components.ai_random_walk is None,
        input_applied(
            before,
            spawned,
            player,
            seq![StateInputEvent::MovePlayerRelative { delta }],
            extra,
            now,
            basic,
            applied,
        ),
        can_reach(tick_systems(), 4, applied, millis, stepped),
        forall|k: int|
            0 <= k < detected(stepped, meshes, world_mesh, stepped.len()).len() ==> (
            #[trigger] detected(stepped, meshes, world_mesh, stepped.len())[k]).entity != player,
        after == survivors(
            resolved(stepped, detected(stepped, meshes, world_mesh, stepped.len())),
            player,
        ),
    ensures
        holds(after, player),
        after[index_of(after, player)].components.velocity == Some(
            slowed(
                velocity_after(
                    StateInputEvent::MovePlayerRelative { delta },
                    before[index_of(before, player)].components.velocity->0,
                    extra,
                ),
                millis,
            ),
        ),
        after[index_of(after, player)].components.position == Some(
            moved(
                before[index_of(before, player)].components.position->0,
                velocity_after(
                    StateInputEvent::MovePlayerRelative { delta },
                    before[index_of(before, player)].components.velocity->0,
                    extra,
                ),
                millis as int,
            ),
        ),
{
    let event = StateInputEvent::MovePlayerRelative { delta };
    let place = index_of(before, player);
    let given = before[place].components;
    let walking = velocity_after(event, given.velocity->0, extra);
    lemma_single_input(event, given.velocity->0, extra);
    assert(applied.len() == before.len());
    assert(applied[place].components == (Components { velocity: Some(walking), ..given }));
    lemma_tick_systems_on_entity(applied, millis, stepped, place);
    assert(stepped[place].components.velocity == Some(slowed(walking, millis)));
    assert(stepped[place].components.position == Some(
        moved(given.position->0, walking, millis as int),
    ));
    assert forall|i: int| 0 <= i < before.len() implies (#[trigger] applied[i]).entity
        == before[i].entity && before[i].components.same_makeup(applied[i].components) by {
        if i != place {
            assert(applied[i] == before[i]);
        }
    }
    lemma_same_entities_keep_player(before, applied, player, meshes);
    lemma_schedule_keeps_entities(tick_systems(), 4, applied, millis, stepped);
    lemma_same_entities_keep_player(applied, stepped, player, meshes);
    let collisions = detected(stepped, meshes, world_mesh, stepped.len());
    lemma_resolution_spares_the_rest(stepped, collisions, place);
    lemma_resolution_keeps_entities(stepped, collisions);
    let settled = resolved(stepped, collisions);
    lemma_same_entities_keep_player(stepped, settled, player, meshes);
    lemma_sweep_keeps_player(settled, player, meshes);
}

/// No run of input events takes the charge beyond its cap.
pub proof fn lemma_inputs_keep_charge_capped(
    events: Seq<StateInputEvent>,
    velocity: Velocity,
    extra: ExtraInfo,
)
    requires
        extra.is_capped(),
    ensures
        after_inputs(events, velocity, extra).extra.is_capped(),
    decreases events.len(),
{
    if events.len() > 0 {
        lemma_inputs_keep_charge_capped(events.drop_last(), velocity, extra);
        lemma_charge_stays_capped(
            events.last(),
            after_inputs(events.drop_last(), velocity, extra).extra,
        );
    }
}

/// A single shot sends off one projectile if more than the threshold was
/// charged and none otherwise; either way it empties the charge and leaves
/// the player's velocity as it is.
pub proof fn lemma_one_shot_one_projectile(
    direction: Direction,
    velocity: Velocity,
    extra: ExtraInfo,
)
    ensures
        after_inputs(seq![StateInputEvent::Shoot(direction)], velocity, extra).extra.charge == 0,
        after_inputs(seq![StateInputEvent::Shoot(direction)], velocity, extra).velocity
            == velocity,
        extra.charge > CHARGE_THRESHOLD ==> after_inputs(
            seq![StateInputEvent::Shoot(direction)],
            velocity,
            extra,
        ).shots == seq![shot_by(StateInputEvent::Shoot(direction), extra)->0],
        extra.charge <= CHARGE_THRESHOLD ==> after_inputs(
            seq![StateInputEvent::Shoot(direction)],
            velocity,
            extra,
        ).shots == Seq::<Velocity>::empty(),
{
    let events = seq![StateInputEvent::Shoot(direction)];
    assert(events.drop_last() =~= Seq::<StateInputEvent>::empty());
    assert(events.last() == StateInputEvent::Shoot(direction));
    assert(after_inputs(events.drop_last(), velocity, extra) == (InputOutcome {
        velocity,
        extra,
        shots: Seq::empty(),
    }));
    let outcome = after_inputs(events, velocity, extra);
    if extra.charge > CHARGE_THRESHOLD {
        assert(outcome.shots =~= seq![shot_by(StateInputEvent::Shoot(direction), extra)->0]);
    }
}

/// The presence of the player and the validity of the colliders carry over
/// to a world of the same entities.
pub proof fn lemma_same_entities_keep_player(
    before: Seq<Record>,
    after: Seq<Record>,
    player: Entity,
    meshes: Seq<CollisionMesh>,
)
    requires
        same_entities(before, after),
        distinct(before),
        player_is_present(before, player),
        meshes_are_known(before, meshes),
    ensures
        distinct(after),
        player_is_present(after, player),
        meshes_are_known(after, meshes),
        index_of(after, player) == index_of(before, player),
{
    let place = index_of(before, player);
    assert(after[place].entity == player);
    assert forall|i: int, j: int|
        0 <= i < after.len() && 0 <= j < after.len() && i != j implies (
    #[trigger] after[i]).entity != (#[trigger] after[j]).entity by {
        assert(before[i].entity != before[j].entity);
    }
    assert forall|i: int|
        0 <= i < after.len() && (#[trigger] after[i]).components.collider is Some implies 0
        <= after[i].components.collider->0.collision_mesh.position() < meshes.len() by {
        assert(before[i].components.collider == after[i].components.collider);
    }
}

/// The sweep leaves the player in the world and every collider valid.
pub proof fn lemma_sweep_keeps_player(
    records: Seq<Record>,
    player: Entity,
    meshes: Seq<CollisionMesh>,
)
    requires
        distinct(records),
        player_is_present(records, player),
        meshes_are_known(records, meshes),
    ensures
        player_is_present(survivors(records, player), player),
        meshes_are_known(survivors(records, player), meshes),
        survivors(records, player)[index_of(survivors(records, player), player)]
            == records[index_of(records, player)],
{
    let stays = |record: Record| !is_expired(record, player);
    let left = survivors(records, player);
    let place = index_of(records, player);
    records.lemma_filter_contains(stays, place);
    let kept = choose|k: int| 0 <= k < left.len() && left[k] == records[place];
    assert(left[kept].entity == player);
    let found = index_of(left, player);
    assert(left.contains(left[found]));
    records.lemma_filter_contains_rev(stays, left[found]);
    let origin = choose|j: int| 0 <= j < records.len() && records[j] == left[found];
    assert(records[origin].entity == records[place].entity);
    assert(origin == place);
    assert forall|i: int|
        0 <= i < left.len() && (#[trigger] left[i]).components.collider is Some implies 0
        <= left[i].components.collider->0.collision_mesh.position() < meshes.len() by {
        assert(left.contains(left[i]));
        records.lemma_filter_contains_rev(stays, left[i]);
        let j = choose|j: int| 0 <= j < records.len() && records[j] == left[i];
        assert(records[j].components.collider is Some);
    }
}

/// Everything that the simulation thread owns.
pub struct Simulation {
    pub world: World,
    pub player: Entity,
    pub schedule: Schedule,
    pub resources: Resources,
    pub extra_info: ExtraInfo,
    pub collision_mesh_manager: CollisionMeshManager,
    pub basic_mesh: CollisionMeshIdentifier,
    pub world_mesh: WorldCollisionMesh,
    pub handler: ExternalEventHandler,
}

/// How long to sleep at the end of a tick that took `elapsed`
/// milliseconds: the rest of the budget, or nothing at all where the tick
/// overran it. An overrun is for the caller to report; no work is skipped on
/// its account.
pub fn sleep_budget(elapsed: u64) -> (rest: Option<u64>)
    ensures
        rest == if elapsed < TICK_BUDGET {
            Some((TICK_BUDGET - elapsed) as u64)
        } else {
            None::<u64>
        },
{
    if elapsed < TICK_BUDGET {
        Some(TICK_BUDGET - elapsed)
    } else {
        None
    }
}

impl Simulation {
    /// The world is well formed, the player is in it, and every collider
    /// names a mesh of the arena.
    pub open spec fn wf(&self) -> bool {
        &&& self.world.wf()
        &&& player_is_present(self.world@, self.player)
        &&& meshes_are_known(self.world@, self.collision_mesh_manager@)
        &&& self.collision_mesh_manager.contains(self.basic_mesh)
    }

    /// The simulation before the first tick, with the default bindings.
    pub fn new(rng: StdRng) -> (simulation: Simulation)
        ensures
            simulation.wf(),
            is_start(simulation.world@, simulation.player, simulation.basic_mesh),
            simulation.collision_mesh_manager@ == seq![basic_mesh()],
            is_start_mesh(simulation.world_mesh),
            simulation.schedule@ == tick_systems(),
            simulation.resources.time == (Time { elapsed_millis: 0 }),
            simulation.resources.rng == rng,
            simulation.extra_info == ExtraInfo::new_spec(),
            simulation.handler@ == (HandlerState {
                held: Set::empty(),
                pending: Seq::empty(),
                config: default_bindings(),
            }),
    {
        let (collision_mesh_manager, basic_mesh) = setup_collision_meshes();
        let (world, player) = setup_world(basic_mesh);
        proof {
            assert(world@[0].entity == player);
            world.lemma_entities_are_distinct();
            assert(index_of(world@, player) == 0);
            assert forall|i: int|
                0 <= i < world@.len() && (#[trigger] world@[i]).components.collider
                    is Some implies 0
                <= world@[i].components.collider->0.collision_mesh.position()
                < collision_mesh_manager@.len() by {
                if i >= 4 {
                    assert(is_firefly(world@[i].components));
                }
            }
        }
        Simulation {
            world,
            player,
            schedule: setup_schedule(),
            resources: setup_resources(rng),
            extra_info: ExtraInfo::new(),
            collision_mesh_manager,
            basic_mesh,
            world_mesh: setup_world_mesh(),
            handler: ExternalEventHandler::new(ControlConfig::default()),
        }
    }

    /// Whether the simulation is ready for a tick: the world is well
    /// formed, the player is in it with a place and a velocity, and every
    /// collider names a mesh of the arena.
    pub fn is_ready(&self) -> (ready: bool)
        ensures
            ready == self.wf(),
    {
        if !self.world.is_well_formed() {
            return false;
        }
        let present = match self.world.place_of(self.player) {
            Some(place) => {
                let components = self.world.components_at(place);
                components.position.is_some() && components.velocity.is_some()
            },
            None => false,
        };
        present && knows_all_meshes(&self.world, &self.collision_mesh_manager)
            && self.collision_mesh_manager.has_collision_mesh(self.basic_mesh)
    }

    /// The input events of a tick: what the external events produce, then
    /// what the controls that are down after them add.
    pub open spec fn inputs_of(handler: HandlerState, events: Seq<ExternalEvent>) -> Seq<
        StateInputEvent,
    > {
        after_events(handler, events).pending + level_events(after_events(handler, events))
    }

    /// Advances the simulation by one tick of `millis` milliseconds at the
    /// time `now`: translates the external events, folds the input into the
    /// player, runs the systems, detects and resolves collisions, sweeps out
    /// the entities whose time is up, and takes the snapshot.
    pub fn tick(&mut self, events: &Vec<ExternalEvent>, millis: u32, now: u64) -> (state:
        DrawState)
        requires
            old(self).wf(),
        ensures
            final(self).wf(),
            final(self).player == old(self).player,
            final(self).basic_mesh == old(self).basic_mesh,
            final(self).collision_mesh_manager@ == old(self).collision_mesh_manager@,
            final(self).world_mesh == old(self).world_mesh,
            final(self).schedule@ == old(self).schedule@,
            final(self).resources.time == (Time { elapsed_millis: millis }),
            final(self).handler@ == (HandlerState {
                pending: Seq::empty(),
                ..after_events(old(self).handler@, events@)
            }),
            final(self).extra_info == after_inputs(
                Self::inputs_of(old(self).handler@, events@),
                old(self).world.components_of(old(self).player).velocity->0,
                old(self).extra_info,
            ).extra.settled(),
            old(self).extra_info.is_capped() ==> final(self).extra_info.is_capped(),
            exists|applied: Seq<Record>, stepped: Seq<Record>|
                {
                    &&& input_applied(
                        old(self).world@,
                        old(self).world.spawned(),
                        old(self).player,
                        Self::inputs_of(old(self).handler@, events@),
                        old(self).extra_info,
                        now,
                        old(self).basic_mesh,
                        applied,
                    )
                    &&& #[trigger] can_reach(
                        old(self).schedule@,
                        old(self).schedule@.len(),
                        applied,
                        millis as nat,
                        stepped,
                    )
                    &&& final(self).world@ == survivors(
                        resolved(
                            stepped,
                            detected(
                                stepped,
                                old(self).collision_mesh_manager@,
                                old(self).world_mesh,
                                stepped.len(),
                            ),
                        ),
                        old(self).player,
                    )
                },
            state.entities_spec() == by_height(depicted(final(self).world@)),
            state.time_spec() == now,
            exists|draw: Vec2|
                is_draw(draw) && state.camera_offset_spec() == #[trigger] camera_offset(
                    final(self).extra_info,
                    old(self).world.components_of(old(self).player).position->0,
                    draw,
                ),
    {
        self.handler.handle_inputs(events);
        let inputs = self.handler.tick_events();
        let ghost before = self.world@;
        proof {
            self.world.lemma_entities_are_distinct();
        }
        let position = apply_player_input(
            &mut self.world,
            self.player,
            &mut self.extra_info,
            &inputs,
            self.basic_mesh,
            now,
        );
        let ghost applied = self.world@;
        proof {
            if old(self).extra_info.is_capped() {
                lemma_inputs_keep_charge_capped(
                    inputs@,
                    old(self).world.components_of(old(self).player).velocity->0,
                    old(self).extra_info,
                );
            }
            self.world.lemma_entities_are_distinct();
            let place = index_of(before, self.player);
            assert(applied[place].entity == self.player);
            assert(index_of(applied, self.player) == place);
            assert forall|i: int|
                0 <= i < applied.len() && (#[trigger] applied[i]).components.collider
                    is Some implies 0
                <= applied[i].components.collider->0.collision_mesh.position()
                < self.collision_mesh_manager@.len() by {
                if i < before.len() {
                    if i != place {
                        assert(applied[i] == before[i]);
                    }
                    assert(before[i].components.collider == applied[i].components.collider);
                } else {
                    assert(applied[before.len() + (i - before.len())] == applied[i]);
                }
            }
        }
        step(&mut self.world, &self.schedule, &mut self.resources, millis);
        let ghost stepped = self.world@;
        proof {
            lemma_schedule_keeps_entities(
                self.schedule@,
                self.schedule@.len(),
                applied,
                millis as nat,
                stepped,
            );
            lemma_same_entities_keep_player(
                applied,
                stepped,
                self.player,
                self.collision_mesh_manager@,
            );
        }
        let collisions = detect_collisions(
            &self.world,
            &self.collision_mesh_manager,
            &self.world_mesh,
        );
        resolve_collisions(&mut self.world, &collisions);
        let ghost settled = self.world@;
        proof {
            lemma_resolution_keeps_entities(stepped, collisions@);
            lemma_same_entities_keep_player(
                stepped,
                settled,
                self.player,
                self.collision_mesh_manager@,
            );
        }
        handle_timed_life(&mut self.world, self.player);
        proof {
            lemma_sweep_keeps_player(settled, self.player, self.collision_mesh_manager@);
        }
        self.extra_info.update();
        create_draw_state(&self.world, &self.extra_info, &position, &mut self.resources.rng, now)
    }
}

} // verus!
