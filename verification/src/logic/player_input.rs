//! How the player's input changes the player and the state around it.
use vstd::prelude::*;
use crate::components::Velocity;
use crate::direction::Direction;
use crate::state_input_event::StateInputEvent;
use crate::units::{clamp, lemma_product_bound, saturate};
use crate::vec2::Vec2;

verus! {

/// The player's speed while walking, per movement control held.
pub const WALK_SPEED: i32 = 16_000;

/// The player's speed while a shot is being charged.
pub const CHARGING_SPEED: i32 = 2_000;

/// What a jump adds to the camera shake.
pub const SHAKE_PER_JUMP: i32 = 5_000;

/// The most charge that a shot can gather.
pub const MAX_CHARGE: u32 = 30;

/// The charge that a shot needs to exceed for a projectile to fly.
pub const CHARGE_THRESHOLD: u32 = 10;

/// The projectile's speed for each unit of charge.
pub const SPEED_PER_CHARGE: i32 = 32_000;

/// The state around the player that is no component of any entity: how
/// much the camera shakes, how fast the player moves, and how far the shot
/// is charged.
#[derive(Clone, Copy, Debug, PartialEq, Eq, Structural)]
pub struct ExtraInfo {
    pub shake: i32,
    pub speed: i32,
    pub charge: u32,
}

/// The player's velocity after `event`.
pub open spec fn velocity_after(event: StateInputEvent, velocity: Velocity, extra: ExtraInfo)
    -> Velocity {
    match event {
        StateInputEvent::MovePlayerRelative { delta } => Velocity {
            dx: clamp(velocity.dx + delta.x * extra.speed) as i32,
            dy: clamp(velocity.dy + delta.y * extra.speed) as i32,
        },
        _ => velocity,
    }
}

/// The state around the player after `event`.
pub open spec fn extra_after(event: StateInputEvent, extra: ExtraInfo) -> ExtraInfo {
    match event {
        StateInputEvent::Jump => ExtraInfo {
            shake: clamp(extra.shake + SHAKE_PER_JUMP) as i32,
            ..extra
        },
        StateInputEvent::Charge(_) => ExtraInfo {
            speed: CHARGING_SPEED,
            charge: if extra.charge < MAX_CHARGE {
                (extra.charge + 1) as u32
            } else {
                extra.charge
            },
            ..extra
        },
        StateInputEvent::Shoot(_) => ExtraInfo { speed: WALK_SPEED, charge: 0, ..extra },
        _ => extra,
    }
}

/// The velocity of the projectile that `event` sends off, if it sends one:
/// a shot does when more than the threshold has been charged.
pub open spec fn shot_by(event: StateInputEvent, extra: ExtraInfo) -> Option<Velocity> {
    match event {
        StateInputEvent::Shoot(direction) => if extra.charge > CHARGE_THRESHOLD {
            Some(
                Velocity {
                    dx: clamp(direction.unit_spec().x * (SPEED_PER_CHARGE * extra.charge)) as i32,
                    dy: clamp(direction.unit_spec().y * (SPEED_PER_CHARGE * extra.charge)) as i32,
                },
            )
        } else {
            None
        },
        _ => None,
    }
}

impl ExtraInfo {
    /// The charge is within its cap.
    pub open spec fn is_capped(self) -> bool {
        self.charge <= MAX_CHARGE
    }

    /// The camera shake after it has died down for a tick.
    pub open spec fn settled(self) -> ExtraInfo {
        ExtraInfo { shake: (self.shake * 98 / 100) as i32, ..self }
    }

    /// No shake, walking speed, no charge.
    pub open spec fn new_spec() -> ExtraInfo {
        ExtraInfo { shake: 0, speed: WALK_SPEED, charge: 0 }
    }

    /// The state around the player before the first tick.
    pub fn new() -> (extra: ExtraInfo)
        ensures
            extra == Self::new_spec(),
    {
        ExtraInfo { shake: 0, speed: WALK_SPEED, charge: 0 }
    }

    /// Lets the camera shake die down by a fiftieth, rounding down.
    pub fn update(&mut self)
        ensures
            *final(self) == old(self).settled(),
    {
        let wide: i64 = self.shake as i64 * 98;
        let lowered: i64 = if wide >= 0 {
            wide / 100
        } else {
            -((99 - wide) / 100)
        };
        self.shake = lowered as i32;
    }
}

/// Folds one input event into the player's velocity and the state around
/// the player. Returns the velocity of the projectile to send off, if the
/// event sends one.
pub fn apply_event(event: StateInputEvent, velocity: &mut Velocity, extra: &mut ExtraInfo) -> (shot:
    Option<Velocity>)
    ensures
        *final(velocity) == velocity_after(event, *old(velocity), *old(extra)),
        *final(extra) == extra_after(event, *old(extra)),
        shot == shot_by(event, *old(extra)),
{
    match event {
        StateInputEvent::MovePlayerRelative { delta } => {
            proof {
                lemma_product_bound(delta.x as int, extra.speed as int, 0x8000_0000, 0x8000_0000);
                lemma_product_bound(delta.y as int, extra.speed as int, 0x8000_0000, 0x8000_0000);
            }
            velocity.dx = saturate_sum(velocity.dx, delta.x as i64 * extra.speed as i64);
            velocity.dy = saturate_sum(velocity.dy, delta.y as i64 * extra.speed as i64);
            None
        },
        StateInputEvent::Jump => {
            extra.shake = saturate(extra.shake as i64 + SHAKE_PER_JUMP as i64);
            None
        },
        StateInputEvent::Charge(_) => {
            extra.speed = CHARGING_SPEED;
            if extra.charge < MAX_CHARGE {
                extra.charge += 1;
            }
            None
        },
        StateInputEvent::Shoot(direction) => {
            extra.speed = WALK_SPEED;
            let shot = if extra.charge > CHARGE_THRESHOLD {
                let unit = Vec2::from(direction);
                let speed: i64 = SPEED_PER_CHARGE as i64 * extra.charge as i64;
                proof {
                    lemma_product_bound(unit.x as int, speed as int, 1, 0x7d00_0000_0000);
                    lemma_product_bound(unit.y as int, speed as int, 1, 0x7d00_0000_0000);
                }
                Some(
                    Velocity {
                        dx: saturate(unit.x as i64 * speed),
                        dy: saturate(unit.y as i64 * speed),
                    },
                )
            } else {
                None
            };
            extra.charge = 0;
            shot
        },
        _ => None,
    }
}

/// `base + change`, saturated, for a change within plus or minus 2^62.
fn saturate_sum(base: i32, change: i64) -> (sum: i32)
    requires
        -0x4000_0000_0000_0000 <= change <= 0x4000_0000_0000_0000,
    ensures
        sum == clamp(base + change),
{
    saturate(base as i64 + change)
}

/// No input event takes the charge beyond its cap.
pub proof fn lemma_charge_stays_capped(event: StateInputEvent, extra: ExtraInfo)
    requires
        extra.is_capped(),
    ensures
        extra_after(event, extra).is_capped(),
{
}

/// Each charge event adds one to the charge until the cap is reached, and
/// slows the player down.
pub proof fn lemma_charge_counts_up(direction: Direction, extra: ExtraInfo)
    requires
        extra.is_capped(),
    ensures
        extra.charge < MAX_CHARGE ==> extra_after(StateInputEvent::Charge(direction), extra).charge
            == extra.charge + 1,
        extra.charge == MAX_CHARGE ==> extra_after(
            StateInputEvent::Charge(direction),
            extra,
        ).charge == MAX_CHARGE,
        extra_after(StateInputEvent::Charge(direction), extra).speed == CHARGING_SPEED,
{
}

/// A shot always empties the charge, and sends a projectile off exactly when
/// more than the threshold was charged; the projectile flies in the
/// direction of the shot at the speed that the charge gives.
pub proof fn lemma_shot_spends_charge(direction: Direction, extra: ExtraInfo)
    requires
        extra.is_capped(),
    ensures
        extra_after(StateInputEvent::Shoot(direction), extra).charge == 0,
        shot_by(StateInputEvent::Shoot(direction), extra) is Some <==> extra.charge
            > CHARGE_THRESHOLD,
        extra.charge > CHARGE_THRESHOLD ==> shot_by(StateInputEvent::Shoot(direction), extra)
            == Some(
            Velocity {
                dx: (direction.unit_spec().x * (SPEED_PER_CHARGE * extra.charge)) as i32,
                dy: (direction.unit_spec().y * (SPEED_PER_CHARGE * extra.charge)) as i32,
            },
        ),
        -960_000 <= direction.unit_spec().x * (SPEED_PER_CHARGE * extra.charge) <= 960_000,
        -960_000 <= direction.unit_spec().y * (SPEED_PER_CHARGE * extra.charge) <= 960_000,
{
    let speed = SPEED_PER_CHARGE * extra.charge;
    assert(0 <= speed <= 960_000);
    match direction {
        Direction::Up => {
            assert(direction.unit_spec().y * speed == speed);
        },
        Direction::Right => {
            assert(direction.unit_spec().x * speed == speed);
        },
        Direction::Down => {
            assert(direction.unit_spec().y * speed == -speed);
        },
        Direction::Left => {
            assert(direction.unit_spec().x * speed == -speed);
        },
    }
}

} // verus!
