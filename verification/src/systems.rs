//! The systems that advance the world by one tick, and the schedule that
//! runs them in order.
//!
//! A system changes one kind of component on the entities that carry all the
//! components it reads. None of them adds or removes an entity or a
//! component.
use vstd::prelude::*;
use rand::rngs::StdRng;
use rand::Rng;
use crate::components::{AiRandomWalk, Friction, Position, TimedLife, Velocity};
use crate::decay::{
    decay, decay_factor, hundredths_factor, lemma_decay_factor_is_at_most_one,
    lemma_decay_over_whole_seconds, lemma_no_time_no_decay, power_of_ten, tenths_factor,
    thousandths_factor, DECAY_ONE, DECAY_SECONDS,
};
use crate::units::{
    add_saturating, clamp, div_to_nearest, div_toward_zero, lemma_nearest_is_close,
    lemma_nearest_is_exact, lemma_product_bound, magnitude, saturate, saturate_wide,
    scale_by_ratio, scale_to_nearest, UNIT,
};
use crate::vec2::Vec2;
use crate::world::{same_entities, Component, Components, Record, World};

verus! {

/// The bounds of a random draw, which stands for a fraction between minus
/// one and one in thousandths.
pub const DRAW_MIN: i32 = -1000;

/// The bound that a draw stays below.
pub const DRAW_MAX: i32 = 1000;

/// The time that the running tick covers.
#[derive(Clone, Copy, Debug, PartialEq, Eq, Structural)]
pub struct Time {
    pub elapsed_millis: u32,
}

/// What the systems share beside the world.
pub struct Resources {
    pub time: Time,
    pub rng: StdRng,
}

/// The systems: each moves positions, slows velocities, makes entities
/// walk at random, or counts lives down.
#[derive(Clone, Copy, Debug, PartialEq, Eq, Structural)]
pub enum System {
    UpdatePositions,
    UpdateVelocities,
    RandomWalkAi,
    UpdateLives,
}

/// An ordered list of systems.
pub struct Schedule {
    systems: Vec<System>,
}

impl View for Schedule {
    type V = Seq<System>;

    closed spec fn view(&self) -> Seq<System> {
        self.systems@
    }
}

/// The standard random number generator of the `rand` crate, which the
/// library hands on and draws from without looking inside.
#[verifier::external_type_specification]
#[verifier::external_body]
pub struct ExStdRng(StdRng);

/// Calls `Rng::gen_range` of the `rand` crate on the half-open range from
/// `low` to `high`. The crate documents that the sample lies in the range and
/// that an empty range panics; which value of the range comes out is left
/// open.
#[verifier::external_body]
fn draw_between(rng: &mut StdRng, low: i32, high: i32) -> (drawn: i32)
    requires
        low < high,
    ensures
        low <= drawn < high,
{
    rng.gen_range(low..high)
}

/// A draw stands for a fraction between minus one and one on both axes.
pub open spec fn is_draw(draw: Vec2) -> bool {
    &&& DRAW_MIN <= draw.x < DRAW_MAX
    &&& DRAW_MIN <= draw.y < DRAW_MAX
}

/// The draw for the entity at the given place; where `draws` is too short,
/// no random push at all.
pub open spec fn draw_at(draws: Seq<Vec2>, index: int) -> Vec2 {
    if 0 <= index < draws.len() {
        draws[index]
    } else {
        Vec2 { x: 0, y: 0 }
    }
}

/// The position after moving at `vel` for `millis` milliseconds.
pub open spec fn moved(pos: Position, vel: Velocity, millis: int) -> Position {
    Position {
        x: clamp(pos.x + clamp(div_toward_zero(vel.dx * millis, UNIT as int))) as i32,
        y: clamp(pos.y + clamp(div_toward_zero(vel.dy * millis, UNIT as int))) as i32,
    }
}

/// The velocity after `millis` milliseconds of friction: one tenth of it
/// per second, rounded to the nearest thousandth.
pub open spec fn slowed(vel: Velocity, millis: nat) -> Velocity {
    Velocity {
        dx: div_to_nearest(vel.dx * decay_factor(millis), DECAY_ONE as int) as i32,
        dy: div_to_nearest(vel.dy * decay_factor(millis), DECAY_ONE as int) as i32,
    }
}

/// The change of one velocity component by a random walk: the random push,
/// which grows with the time and the walk's speed, and the pull toward the
/// centre, which grows with the distance from it.
pub open spec fn walk_change(
    draw: int,
    millis: int,
    speed: int,
    offset: int,
    centering_speed: int,
) -> int {
    div_toward_zero(draw * millis * speed, UNIT as int * UNIT as int) + div_toward_zero(
        offset * centering_speed,
        UNIT as int,
    )
}

/// The velocity after one step of a random walk.
pub open spec fn wandered(
    vel: Velocity,
    pos: Position,
    walk: AiRandomWalk,
    millis: int,
    draw: Vec2,
) -> Velocity {
    Velocity {
        dx: clamp(
            vel.dx + walk_change(
                draw.x as int,
                millis,
                walk.speed as int,
                walk.center.x - pos.x,
                walk.centering_speed as int,
            ),
        ) as i32,
        dy: clamp(
            vel.dy + walk_change(
                draw.y as int,
                millis,
                walk.speed as int,
                walk.center.y - pos.y,
                walk.centering_speed as int,
            ),
        ) as i32,
    }
}

/// The life left after `millis` milliseconds.
pub open spec fn aged(life: TimedLife, millis: int) -> TimedLife {
    TimedLife { millis_left: clamp(life.millis_left - millis) as i32 }
}

/// What `system` makes of one entity's components.
pub open spec fn evolved(system: System, components: Components, millis: nat, draw: Vec2)
    -> Components {
    match system {
        System::UpdatePositions => if components.position is Some && components.velocity
            is Some {
            Components {
                position: Some(
                    moved(components.position->0, components.velocity->0, millis as int),
                ),
                ..components
            }
        } else {
            components
        },
        System::UpdateVelocities => if components.velocity is Some && components.friction
            is Some {
            Components { velocity: Some(slowed(components.velocity->0, millis)), ..components }
        } else {
            components
        },
        System::RandomWalkAi => if components.velocity is Some && components.position is Some
            && components.ai_random_walk is Some {
            Components {
                velocity: Some(
                    wandered(
                        components.velocity->0,
                        components.position->0,
                        components.ai_random_walk->0,
                        millis as int,
                        draw,
                    ),
                ),
                ..components
            }
        } else {
            components
        },
        System::UpdateLives => if components.timed_life is Some {
            Components {
                timed_life: Some(aged(components.timed_life->0, millis as int)),
                ..components
            }
        } else {
            components
        },
    }
}

/// The systems of a tick in their order: move, slow down, walk at random,
/// age.
pub open spec fn tick_systems() -> Seq<System> {
    seq![
        System::UpdatePositions,
        System::UpdateVelocities,
        System::RandomWalkAi,
        System::UpdateLives,
    ]
}

/// What the systems of a tick make of the components of an entity that
/// does not walk at random: it moves at the velocity it had, then friction
/// slows it, then it ages.
pub open spec fn after_tick_systems(components: Components, millis: nat) -> Components {
    evolved(
        System::UpdateLives,
        evolved(
            System::UpdateVelocities,
            evolved(System::UpdatePositions, components, millis, Vec2 { x: 0, y: 0 }),
            millis,
            Vec2 { x: 0, y: 0 },
        ),
        millis,
        Vec2 { x: 0, y: 0 },
    )
}

/// What `system` makes of a whole world: every entity evolves by itself,
/// and the entity at place `i` uses the draw at place `i`.
pub open spec fn run_spec(system: System, records: Seq<Record>, millis: nat, draws: Seq<Vec2>)
    -> Seq<Record> {
    Seq::new(
        records.len(),
        |i: int|
            Record {
                entity: records[i].entity,
                components: evolved(system, records[i].components, millis, draw_at(draws, i)),
            },
    )
}

/// What the first `count` systems of a schedule make of a world when each
/// of them uses the same draws.
pub open spec fn execute_spec(
    systems: Seq<System>,
    count: nat,
    records: Seq<Record>,
    millis: nat,
    draws: Seq<Vec2>,
) -> Seq<Record>
    decreases count,
{
    if count == 0 {
        records
    } else {
        run_spec(
            systems[count - 1],
            execute_spec(systems, (count - 1) as nat, records, millis, draws),
            millis,
            draws,
        )
    }
}

/// `after` is what the first `count` systems of a schedule can make of
/// `before`, each with some draws of its own.
pub open spec fn can_reach(
    systems: Seq<System>,
    count: nat,
    before: Seq<Record>,
    millis: nat,
    after: Seq<Record>,
) -> bool
    decreases count,
{
    if count == 0 {
        after == before
    } else {
        exists|middle: Seq<Record>, draws: Seq<Vec2>|
            {
                &&& can_reach(systems, (count - 1) as nat, before, millis, middle)
                &&& draws.len() == middle.len()
                &&& forall|i: int| 0 <= i < draws.len() ==> is_draw(#[trigger] draws[i])
                &&& after == #[trigger] run_spec(systems[count - 1], middle, millis, draws)
            }
    }
}

/// Moves a position along its velocity for the time of the tick.
pub fn update_positions(pos: &mut Position, vel: &Velocity, time: &Time)
    ensures
        *final(pos) == moved(*old(pos), *vel, time.elapsed_millis as int),
{
    let step_x = scale_by_ratio(vel.dx, time.elapsed_millis as i64, UNIT as i64);
    let step_y = scale_by_ratio(vel.dy, time.elapsed_millis as i64, UNIT as i64);
    pos.x = add_saturating(pos.x, step_x);
    pos.y = add_saturating(pos.y, step_y);
}

/// Lets friction slow a velocity for the time of the tick.
pub fn update_velocities(vel: &mut Velocity, _friction: &Friction, time: &Time)
    ensures
        *final(vel) == slowed(*old(vel), time.elapsed_millis as nat),
{
    let factor = decay(time.elapsed_millis);
    proof {
        lemma_friction_never_speeds_up(*vel, time.elapsed_millis as nat);
    }
    vel.dx = scale_to_nearest(vel.dx, factor as i64, DECAY_ONE as i64);
    vel.dy = scale_to_nearest(vel.dy, factor as i64, DECAY_ONE as i64);
}

/// Takes the time of the tick off a life.
pub fn update_lives(life: &mut TimedLife, time: &Time)
    ensures
        *final(life) == aged(*old(life), time.elapsed_millis as int),
{
    life.millis_left = saturate(life.millis_left as i64 - time.elapsed_millis as i64);
}

fn walk_change_of(draw: i32, millis: u32, speed: i32, offset: i64, centering_speed: i32) -> (change:
    i128)
    requires
        -0x1_0000_0000 <= offset <= 0x1_0000_0000,
    ensures
        change == walk_change(
            draw as int,
            millis as int,
            speed as int,
            offset as int,
            centering_speed as int,
        ),
        -0x1_0000_0000_0000_0000_0000_0000 <= change <= 0x1_0000_0000_0000_0000_0000_0000,
{
    proof {
        lemma_product_bound(draw as int, millis as int, 0x8000_0000, 0x1_0000_0000);
        lemma_product_bound(
            draw * millis,
            speed as int,
            0x8000_0000_0000_0000,
            0x8000_0000,
        );
        lemma_product_bound(offset as int, centering_speed as int, 0x1_0000_0000, 0x8000_0000);
    }
    let push: i128 = draw as i128 * millis as i128 * speed as i128;
    let pull: i128 = offset as i128 * centering_speed as i128;
    push / 1_000_000 + pull / 1000
}

/// One step of a random walk with the given draw.
pub fn random_walk(
    velocity: &mut Velocity,
    position: &Position,
    ai_random_walk: &AiRandomWalk,
    time: &Time,
    draw: Vec2,
)
    ensures
        *final(velocity) == wandered(
            *old(velocity),
            *position,
            *ai_random_walk,
            time.elapsed_millis as int,
            draw,
        ),
{
    let change_x = walk_change_of(
        draw.x,
        time.elapsed_millis,
        ai_random_walk.speed,
        ai_random_walk.center.x as i64 - position.x as i64,
        ai_random_walk.centering_speed,
    );
    let change_y = walk_change_of(
        draw.y,
        time.elapsed_millis,
        ai_random_walk.speed,
        ai_random_walk.center.y as i64 - position.y as i64,
        ai_random_walk.centering_speed,
    );
    velocity.dx = saturate_wide(velocity.dx as i128 + change_x);
    velocity.dy = saturate_wide(velocity.dy as i128 + change_y);
}

/// A fresh draw from the random source.
pub fn draw_pair(rng: &mut StdRng) -> (draw: Vec2)
    ensures
        is_draw(draw),
{
    let x = draw_between(rng, DRAW_MIN, DRAW_MAX);
    let y = draw_between(rng, DRAW_MIN, DRAW_MAX);
    Vec2 { x, y }
}

/// One step of a random walk with a fresh draw from the random source.
pub fn random_walk_ai(
    velocity: &mut Velocity,
    position: &Position,
    ai_random_walk: &AiRandomWalk,
    time: &Time,
    rng: &mut StdRng,
)
    ensures
        exists|draw: Vec2|
            is_draw(draw) && *final(velocity) == #[trigger] wandered(
                *old(velocity),
                *position,
                *ai_random_walk,
                time.elapsed_millis as int,
                draw,
            ),
{
    let draw = draw_pair(rng);
    random_walk(velocity, position, ai_random_walk, time, draw);
}

/// The component that `system` changes on an entity with the given
/// components, or nothing where the entity lacks a component that the
/// system reads.
pub fn evolve(system: System, components: &Components, time: &Time, draw: Vec2) -> (change:
    Option<Component>)
    ensures
        change is None ==> evolved(system, *components, time.elapsed_millis as nat, draw)
            == *components,
        change is Some ==> components.has(change->0.kind_spec()) && components.with(change->0)
            == evolved(system, *components, time.elapsed_millis as nat, draw),
{
    match system {
        System::UpdatePositions => match (components.position, components.velocity) {
            (Some(position), Some(velocity)) => {
                let mut position = position;
                update_positions(&mut position, &velocity, time);
                Some(Component::Position(position))
            },
            _ => None,
        },
        System::UpdateVelocities => match (components.velocity, components.friction) {
            (Some(velocity), Some(friction)) => {
                let mut velocity = velocity;
                update_velocities(&mut velocity, &friction, time);
                Some(Component::Velocity(velocity))
            },
            _ => None,
        },
        System::RandomWalkAi => match (
            components.velocity,
            components.position,
            components.ai_random_walk,
        ) {
            (Some(velocity), Some(position), Some(walk)) => {
                let mut velocity = velocity;
                random_walk(&mut velocity, &position, &walk, time, draw);
                Some(Component::Velocity(velocity))
            },
            _ => None,
        },
        System::UpdateLives => match components.timed_life {
            Some(life) => {
                let mut life = life;
                update_lives(&mut life, time);
                Some(Component::TimedLife(life))
            },
            None => None,
        },
    }
}

/// Runs one system over every entity of the world. The entity at place `i`
/// uses the draw at place `i`.
pub fn run_system(world: &mut World, system: System, time: &Time, draws: &Vec<Vec2>)
    requires
        old(world).wf(),
    ensures
        final(world).wf(),
        final(world).spawned() == old(world).spawned(),
        final(world)@ == run_spec(system, old(world)@, time.elapsed_millis as nat, draws@),
{
    let ghost before = world@;
    let ghost after = run_spec(system, before, time.elapsed_millis as nat, draws@);
    let count = world.len();
    let mut i: usize = 0;
    while i < count
        invariant
            world.wf(),
            world.spawned() == old(world).spawned(),
            before == old(world)@,
            after == run_spec(system, before, time.elapsed_millis as nat, draws@),
            count == before.len(),
            world@.len() == count,
            i <= count,
            forall|j: int| 0 <= j < i ==> world@[j] == after[j],
            forall|j: int| i <= j < count ==> world@[j] == before[j],
        decreases count - i,
    {
        let draw = if i < draws.len() {
            draws[i]
        } else {
            Vec2 { x: 0, y: 0 }
        };
        let change = evolve(system, world.components_at(i), time, draw);
        match change {
            Some(component) => {
                world.set_at(i, component);
            },
            None => {},
        }
        i += 1;
    }
    proof {
        assert(world@ =~= after);
    }
}

/// Runs one system over every entity of the world, with a fresh draw from
/// the random source for each entity that walks at random.
pub fn run_system_random(world: &mut World, system: System, time: &Time, rng: &mut StdRng)
    requires
        old(world).wf(),
    ensures
        final(world).wf(),
        final(world).spawned() == old(world).spawned(),
        exists|draws: Seq<Vec2>|
            {
                &&& draws.len() == old(world)@.len()
                &&& forall|i: int| 0 <= i < draws.len() ==> is_draw(#[trigger] draws[i])
                &&& final(world)@ == #[trigger] run_spec(
                    system,
                    old(world)@,
                    time.elapsed_millis as nat,
                    draws,
                )
            },
{
    let mut draws: Vec<Vec2> = Vec::new();
    let count = world.len();
    let mut i: usize = 0;
    while i < count
        invariant
            count == world@.len(),
            i <= count,
            draws@.len() == i,
            forall|j: int| 0 <= j < draws@.len() ==> is_draw(#[trigger] draws@[j]),
        decreases count - i,
    {
        if system == System::RandomWalkAi && world.components_at(i).ai_random_walk.is_some() {
            draws.push(draw_pair(rng));
        } else {
            draws.push(Vec2 { x: 0, y: 0 });
        }
        i += 1;
    }
    run_system(world, system, time, &draws);
}

impl Schedule {
    /// The schedule that runs the given systems in their order.
    pub fn new(systems: Vec<System>) -> (schedule: Schedule)
        ensures
            schedule@ == systems@,
    {
        Schedule { systems }
    }

    /// The systems in the order in which they run.
    pub fn systems(&self) -> (systems: &Vec<System>)
        ensures
            systems@ == self@,
    {
        &self.systems
    }

    /// Runs the systems in order, each over the whole world and each with
    /// the same draws.
    pub fn execute_with(&self, world: &mut World, time: &Time, draws: &Vec<Vec2>)
        requires
            old(world).wf(),
        ensures
            final(world).wf(),
            final(world).spawned() == old(world).spawned(),
            final(world)@ == execute_spec(
                self@,
                self@.len(),
                old(world)@,
                time.elapsed_millis as nat,
                draws@,
            ),
    {
        let mut i: usize = 0;
        while i < self.systems.len()
            invariant
                world.wf(),
                world.spawned() == old(world).spawned(),
                i <= self.systems@.len(),
                world@ == execute_spec(
                    self@,
                    i as nat,
                    old(world)@,
                    time.elapsed_millis as nat,
                    draws@,
                ),
            decreases self.systems.len() - i,
        {
            run_system(world, self.systems[i], time, draws);
            i += 1;
        }
    }

    /// Runs the systems in order, each over the whole world, with the time
    /// and the random source of `resources`.
    pub fn execute(&self, world: &mut World, resources: &mut Resources)
        requires
            old(world).wf(),
        ensures
            final(world).wf(),
            final(world).spawned() == old(world).spawned(),
            final(resources).time == old(resources).time,
            can_reach(
                self@,
                self@.len(),
                old(world)@,
                old(resources).time.elapsed_millis as nat,
                final(world)@,
            ),
    {
        let time = resources.time;
        let mut i: usize = 0;
        while i < self.systems.len()
            invariant
                world.wf(),
                world.spawned() == old(world).spawned(),
                resources.time == old(resources).time,
                time == old(resources).time,
                i <= self.systems@.len(),
                can_reach(self@, i as nat, old(world)@, time.elapsed_millis as nat, world@),
            decreases self.systems.len() - i,
        {
            let ghost middle = world@;
            run_system_random(world, self.systems[i], &time, &mut resources.rng);
            proof {
                let draws = choose|draws: Seq<Vec2>|
                    {
                        &&& draws.len() == middle.len()
                        &&& forall|j: int| 0 <= j < draws.len() ==> is_draw(#[trigger] draws[j])
                        &&& world@ == #[trigger] run_spec(
                            self@[i as int],
                            middle,
                            time.elapsed_millis as nat,
                            draws,
                        )
                    };
                assert(can_reach(
                    self@,
                    i as nat,
                    old(world)@,
                    time.elapsed_millis as nat,
                    middle,
                ));
                assert(world@ == run_spec(
                    self@[(i + 1) - 1],
                    middle,
                    time.elapsed_millis as nat,
                    draws,
                ));
            }
            i += 1;
        }
    }
}

/// The schedule of a tick: move, slow down, walk at random, age.
pub fn setup_schedule() -> (schedule: Schedule)
    ensures
        schedule@ == tick_systems(),
{
    let mut systems: Vec<System> = Vec::new();
    systems.push(System::UpdatePositions);
    systems.push(System::UpdateVelocities);
    systems.push(System::RandomWalkAi);
    systems.push(System::UpdateLives);
    Schedule { systems }
}

/// The resources before the first tick: no time has passed, and the random
/// source is the one given.
pub fn setup_resources(rng: StdRng) -> (resources: Resources)
    ensures
        resources.time == (Time { elapsed_millis: 0 }),
        resources.rng == rng,
{
    Resources { time: Time { elapsed_millis: 0 }, rng }
}

/// Advances the world by one tick of the given length.
pub fn step(world: &mut World, schedule: &Schedule, resources: &mut Resources, millis: u32)
    requires
        old(world).wf(),
    ensures
        final(world).wf(),
        final(world).spawned() == old(world).spawned(),
        final(resources).time == (Time { elapsed_millis: millis }),
        can_reach(schedule@, schedule@.len(), old(world)@, millis as nat, final(world)@),
{
    resources.time = Time { elapsed_millis: millis };
    schedule.execute(world, resources);
}

/// What friction leaves of one component of a velocity is no faster than
/// the component was, and points the same way.
pub proof fn lemma_slowed_component(speed: int, millis: nat)
    ensures
        magnitude(div_to_nearest(speed * decay_factor(millis), DECAY_ONE as int)) <= magnitude(
            speed,
        ),
        speed >= 0 ==> div_to_nearest(speed * decay_factor(millis), DECAY_ONE as int) >= 0,
        speed <= 0 ==> div_to_nearest(speed * decay_factor(millis), DECAY_ONE as int) <= 0,
{
    lemma_decay_factor_is_at_most_one(millis);
    let factor = decay_factor(millis) as int;
    assert(magnitude(div_to_nearest(speed * factor, 1_000_000_000_000)) <= magnitude(speed)
        && (speed >= 0 ==> div_to_nearest(speed * factor, 1_000_000_000_000) >= 0) && (speed
        <= 0 ==> div_to_nearest(speed * factor, 1_000_000_000_000) <= 0)) by (nonlinear_arith)
        requires
            0 <= factor <= 1_000_000_000_000,
    ;
}

/// Friction never speeds a velocity up and never turns it round.
pub proof fn lemma_friction_never_speeds_up(vel: Velocity, millis: nat)
    ensures
        magnitude(slowed(vel, millis).dx as int) <= magnitude(vel.dx as int),
        magnitude(slowed(vel, millis).dy as int) <= magnitude(vel.dy as int),
        vel.dx >= 0 ==> slowed(vel, millis).dx >= 0,
        vel.dx <= 0 ==> slowed(vel, millis).dx <= 0,
        vel.dy >= 0 ==> slowed(vel, millis).dy >= 0,
        vel.dy <= 0 ==> slowed(vel, millis).dy <= 0,
        slowed(vel, millis).dx == div_to_nearest(vel.dx * decay_factor(millis), DECAY_ONE as int),
        slowed(vel, millis).dy == div_to_nearest(vel.dy * decay_factor(millis), DECAY_ONE as int),
{
    lemma_slowed_component(vel.dx as int, millis);
    lemma_slowed_component(vel.dy as int, millis);
}

/// What friction leaves of a velocity is the exact product of the velocity
/// and the decay factor, to within half a thousandth.
pub proof fn lemma_friction_is_rounded(vel: Velocity, millis: nat)
    ensures
        -(DECAY_ONE / 2) <= slowed(vel, millis).dx * DECAY_ONE - vel.dx * decay_factor(millis)
            <= DECAY_ONE / 2,
        -(DECAY_ONE / 2) <= slowed(vel, millis).dy * DECAY_ONE - vel.dy * decay_factor(millis)
            <= DECAY_ONE / 2,
{
    lemma_friction_never_speeds_up(vel, millis);
    lemma_nearest_is_close(vel.dx * decay_factor(millis), 1_000_000_000_000);
    lemma_nearest_is_close(vel.dy * decay_factor(millis), 1_000_000_000_000);
}

/// No time of friction leaves a velocity as it is.
pub proof fn lemma_no_time_no_friction(vel: Velocity)
    ensures
        slowed(vel, 0) == vel,
{
    lemma_no_time_no_decay();
    lemma_nearest_is_exact(vel.dx as int, 1_000_000_000_000);
    lemma_nearest_is_exact(vel.dy as int, 1_000_000_000_000);
}

/// A whole number of seconds of friction leaves of a velocity one tenth
/// for each second: exactly where the velocity is a multiple of that power of
/// ten, and nothing from the thirteenth second.
pub proof fn lemma_whole_seconds_of_friction(tenth: Velocity, seconds: nat)
    requires
        seconds < DECAY_SECONDS,
        i32::MIN <= tenth.dx * power_of_ten(seconds as int) <= i32::MAX,
        i32::MIN <= tenth.dy * power_of_ten(seconds as int) <= i32::MAX,
    ensures
        slowed(
            Velocity {
                dx: (tenth.dx * power_of_ten(seconds as int)) as i32,
                dy: (tenth.dy * power_of_ten(seconds as int)) as i32,
            },
            1000 * seconds,
        ) == tenth,
{
    lemma_decay_over_whole_seconds(seconds);
    let power = power_of_ten(seconds as int);
    let factor = decay_factor(1000 * seconds) as int;
    assert(tenth.dx * power * factor == tenth.dx * 1_000_000_000_000) by (nonlinear_arith)
        requires
            factor * power == 1_000_000_000_000,
    ;
    assert(tenth.dy * power * factor == tenth.dy * 1_000_000_000_000) by (nonlinear_arith)
        requires
            factor * power == 1_000_000_000_000,
    ;
    lemma_nearest_is_exact(tenth.dx as int, 1_000_000_000_000);
    lemma_nearest_is_exact(tenth.dy as int, 1_000_000_000_000);
}

/// Two half seconds of friction leave one tenth, as one second does:
/// exactly where the velocity is a multiple of ten thousandths, and to within
/// one thousandth otherwise.
pub proof fn lemma_two_half_seconds_of_friction(vel: Velocity)
    ensures
        -10 < 10 * slowed(slowed(vel, 500), 500).dx - vel.dx < 10,
        -10 < 10 * slowed(slowed(vel, 500), 500).dy - vel.dy < 10,
        vel.dx % 10 == 0 ==> 10 * slowed(slowed(vel, 500), 500).dx == vel.dx,
        vel.dy % 10 == 0 ==> 10 * slowed(slowed(vel, 500), 500).dy == vel.dy,
{
    lemma_half_second_factor();
    let half = slowed(vel, 500);
    lemma_friction_is_rounded(vel, 500);
    lemma_friction_is_rounded(half, 500);
    lemma_two_roundings(vel.dx as int, half.dx as int, slowed(half, 500).dx as int);
    lemma_two_roundings(vel.dy as int, half.dy as int, slowed(half, 500).dy as int);
}

/// The factor for half a second is the rounded root of one tenth.
pub proof fn lemma_half_second_factor()
    ensures
        decay_factor(500) == 316_227_766_017,
{
    assert(500int / 1000 == 0 && 500int % 1000 == 500);
    assert(500int / 100 == 5 && 500int / 10 % 10 == 0 && 500int % 10 == 0);
    lemma_nearest_is_exact(316_227_766_017, 1_000_000_000_000);
    lemma_nearest_is_exact(316_227_766_017, 1);
    assert(tenths_factor(5) * hundredths_factor(0)
        == 316_227_766_017 * 1_000_000_000_000);
    assert(316_227_766_017 * thousandths_factor(0) == 316_227_766_017
        * 1_000_000_000_000);
    assert(316_227_766_017 * 1 == 316_227_766_017int);
}

/// Two roundings by the root of one tenth stay within one of the tenth.
proof fn lemma_two_roundings(start: int, middle: int, end: int)
    by (nonlinear_arith)
    requires
        -0x8000_0000 <= start <= 0x8000_0000,
        -500_000_000_000 <= middle * 1_000_000_000_000 - start * 316_227_766_017
            <= 500_000_000_000,
        -500_000_000_000 <= end * 1_000_000_000_000 - middle * 316_227_766_017
            <= 500_000_000_000,
    ensures
        -10 < 10 * end - start < 10,
        start % 10 == 0 ==> 10 * end == start,
{
    let one = 1_000_000_000_000int;
    let root = 316_227_766_017int;
    let first = middle * one - start * root;
    let second = end * one - middle * root;
    assert(root * root == 100_000_000_000_102_500_044_289int);
    assert(one * one == 1_000_000_000_000_000_000_000_000int);
    assert(end * one * one == start * (root * root) + first * root + second * one);
    assert(10 * (end * one * one) - start * (one * one) == start * 1_025_000_442_890 + 10 * (
    first * root) + 10 * (second * one));
    assert(-158_113_883_008_500_000_000_000 <= first * root <= 158_113_883_008_500_000_000_000);
    assert(-500_000_000_000_000_000_000_000 <= second * one <= 500_000_000_000_000_000_000_000);
    assert(-2_201_171_690_299_032_862_720 <= start * 1_025_000_442_890
        <= 2_201_171_690_299_032_862_720);
    assert((10 * end - start) * (one * one) == 10 * (end * one * one) - start * (one * one));
    assert(-10 * (one * one) < (10 * end - start) * (one * one) < 10 * (one * one));
    assert(one * one > 0);
    if start % 10 == 0 {
        assert((10 * end - start) % 10 == 0);
    }
}

/// A system changes no component but its own: moving changes the place,
/// friction and the random walk change the velocity, ageing changes the
/// time to live.
pub proof fn lemma_system_changes_its_own_component(
    system: System,
    components: Components,
    millis: nat,
    draw: Vec2,
)
    ensures
        system != System::UpdatePositions ==> evolved(system, components, millis, draw).position
            == components.position,
        system != System::UpdateVelocities && system != System::RandomWalkAi ==> evolved(
            system,
            components,
            millis,
            draw,
        ).velocity == components.velocity,
        system != System::UpdateLives ==> evolved(system, components, millis, draw).timed_life
            == components.timed_life,
{
}

/// A system neither adds nor removes a component.
pub proof fn lemma_system_keeps_makeup(
    system: System,
    components: Components,
    millis: nat,
    draw: Vec2,
)
    ensures
        components.same_makeup(evolved(system, components, millis, draw)),
{
}

/// A schedule neither adds nor removes an entity or a component, and keeps
/// the order of the entities.
pub proof fn lemma_schedule_keeps_entities(
    systems: Seq<System>,
    count: nat,
    before: Seq<Record>,
    millis: nat,
    after: Seq<Record>,
)
    requires
        can_reach(systems, count, before, millis, after),
    ensures
        same_entities(before, after),
    decreases count,
{
    if count > 0 {
        let (middle, draws) = choose|middle: Seq<Record>, draws: Seq<Vec2>|
            {
                &&& can_reach(systems, (count - 1) as nat, before, millis, middle)
                &&& draws.len() == middle.len()
                &&& forall|i: int| 0 <= i < draws.len() ==> is_draw(#[trigger] draws[i])
                &&& after == #[trigger] run_spec(systems[count - 1], middle, millis, draws)
            };
        lemma_schedule_keeps_entities(systems, (count - 1) as nat, before, millis, middle);
        assert forall|i: int| 0 <= i < before.len() implies (#[trigger] after[i]).entity
            == before[i].entity && before[i].components.same_makeup(after[i].components) by {
            lemma_system_keeps_makeup(
                systems[count - 1],
                middle[i].components,
                millis,
                draw_at(draws, i),
            );
        }
    }
}

/// The draw does not matter to an entity that does not walk at random.
pub proof fn lemma_draw_only_matters_to_walkers(
    system: System,
    components: Components,
    millis: nat,
    first: Vec2,
    second: Vec2,
)
    requires
        components.ai_random_walk is None,
    ensures
        evolved(system, components, millis, first) == evolved(system, components, millis, second),
        evolved(System::RandomWalkAi, components, millis, first) == components,
{
}

/// However the draws fall, the systems of a tick make the same of an
/// entity that does not walk at random: it moves before friction slows it.
pub proof fn lemma_tick_systems_on_entity(
    before: Seq<Record>,
    millis: nat,
    after: Seq<Record>,
    place: int,
)
    requires
        can_reach(tick_systems(), 4, before, millis, after),
        0 <= place < before.len(),
        before[place].components.ai_random_walk is None,
    ensures
        after.len() == before.len(),
        after[place].entity == before[place].entity,
        after[place].components == after_tick_systems(before[place].components, millis),
{
    let systems = tick_systems();
    let nothing = Vec2 { x: 0, y: 0 };
    let (third, last_draws) = choose|middle: Seq<Record>, draws: Seq<Vec2>|
        {
            &&& can_reach(systems, 3, before, millis, middle)
            &&& draws.len() == middle.len()
            &&& forall|i: int| 0 <= i < draws.len() ==> is_draw(#[trigger] draws[i])
            &&& after == #[trigger] run_spec(systems[3], middle, millis, draws)
        };
    let (second, walk_draws) = choose|middle: Seq<Record>, draws: Seq<Vec2>|
        {
            &&& can_reach(systems, 2, before, millis, middle)
            &&& draws.len() == middle.len()
            &&& forall|i: int| 0 <= i < draws.len() ==> is_draw(#[trigger] draws[i])
            &&& third == #[trigger] run_spec(systems[2], middle, millis, draws)
        };
    let (first, slow_draws) = choose|middle: Seq<Record>, draws: Seq<Vec2>|
        {
            &&& can_reach(systems, 1, before, millis, middle)
            &&& draws.len() == middle.len()
            &&& forall|i: int| 0 <= i < draws.len() ==> is_draw(#[trigger] draws[i])
            &&& second == #[trigger] run_spec(systems[1], middle, millis, draws)
        };
    let (start, move_draws) = choose|middle: Seq<Record>, draws: Seq<Vec2>|
        {
            &&& can_reach(systems, 0, before, millis, middle)
            &&& draws.len() == middle.len()
            &&& forall|i: int| 0 <= i < draws.len() ==> is_draw(#[trigger] draws[i])
            &&& first == #[trigger] run_spec(systems[0], middle, millis, draws)
        };
    assert(start == before);
    let given = before[place].components;
    let moved_on = evolved(System::UpdatePositions, given, millis, nothing);
    let slowed_down = evolved(System::UpdateVelocities, moved_on, millis, nothing);
    lemma_draw_only_matters_to_walkers(
        System::UpdatePositions,
        given,
        millis,
        draw_at(move_draws, place),
        nothing,
    );
    assert(first[place].components == moved_on);
    lemma_draw_only_matters_to_walkers(
        System::UpdateVelocities,
        moved_on,
        millis,
        draw_at(slow_draws, place),
        nothing,
    );
    assert(second[place].components == slowed_down);
    lemma_draw_only_matters_to_walkers(
        System::RandomWalkAi,
        slowed_down,
        millis,
        draw_at(walk_draws, place),
        nothing,
    );
    assert(third[place].components == slowed_down);
    lemma_draw_only_matters_to_walkers(
        System::UpdateLives,
        slowed_down,
        millis,
        draw_at(last_draws, place),
        nothing,
    );
}

/// Running a schedule with the same draws for each system is one of the
/// ways in which the schedule can run.
pub proof fn lemma_execute_is_reachable(
    systems: Seq<System>,
    count: nat,
    before: Seq<Record>,
    millis: nat,
    draws: Seq<Vec2>,
)
    requires
        draws.len() == before.len(),
        forall|i: int| 0 <= i < draws.len() ==> is_draw(#[trigger] draws[i]),
    ensures
        can_reach(
            systems,
            count,
            before,
            millis,
            execute_spec(systems, count, before, millis, draws),
        ),
        execute_spec(systems, count, before, millis, draws).len() == before.len(),
    decreases count,
{
    if count > 0 {
        lemma_execute_is_reachable(systems, (count - 1) as nat, before, millis, draws);
        let middle = execute_spec(systems, (count - 1) as nat, before, millis, draws);
        assert(execute_spec(systems, count, before, millis, draws) == run_spec(
            systems[count - 1],
            middle,
            millis,
            draws,
        ));
    }
}

} // verus!
