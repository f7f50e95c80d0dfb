//! Building the snapshot of a tick.
use vstd::prelude::*;
use rand::rngs::StdRng;
use crate::components::{Asset, Position};
use crate::draw_state::{by_height, DrawState};
use crate::logic::player_input::ExtraInfo;
use crate::systems::{draw_pair, is_draw};
use crate::units::{clamp, div_toward_zero, floor_to_units, lemma_product_bound, saturate, UNIT};
use crate::vec2::Vec2;
use crate::world::{Record, World};

verus! {

/// The entity is drawn: it has an asset and a place.
pub open spec fn is_drawn(record: Record) -> bool {
    record.components.asset is Some && record.components.position is Some
}

/// The place in whole world units, rounded toward negative infinity.
pub open spec fn floored(position: Position) -> Position {
    Position {
        x: (position.x as int / UNIT as int) as i32,
        y: (position.y as int / UNIT as int) as i32,
    }
}

/// What the snapshot holds of a drawn entity.
pub open spec fn depiction(record: Record) -> (Asset, Position) {
    (record.components.asset->0, floored(record.components.position->0))
}

/// What the snapshot holds of the world, in the order of spawning.
pub open spec fn depicted(records: Seq<Record>) -> Seq<(Asset, Position)> {
    records.filter(|record: Record| is_drawn(record)).map_values(
        |record: Record| depiction(record),
    )
}

/// Where the camera looks: at the place `position`, moved by the shake in
/// the direction and to the fraction that `draw` gives.
pub open spec fn camera_offset(extra_info: ExtraInfo, position: Position, draw: Vec2) -> Vec2 {
    Vec2 {
        x: clamp(div_toward_zero(draw.x * extra_info.shake, UNIT as int) - position.x) as i32,
        y: clamp(div_toward_zero(draw.y * extra_info.shake, UNIT as int) - position.y) as i32,
    }
}

fn shaken(draw: i32, shake: i32, place: i32) -> (offset: i32)
    ensures
        offset == clamp(div_toward_zero(draw * shake, UNIT as int) - place),
{
    proof {
        lemma_product_bound(draw as int, shake as int, 0x8000_0000, 0x8000_0000);
    }
    let moved: i64 = draw as i64 * shake as i64 / UNIT as i64;
    saturate(moved - place as i64)
}

/// The snapshot of the world with the camera shaken as `draw` says.
pub fn snapshot(
    world: &World,
    extra_info: &ExtraInfo,
    position: &Position,
    draw: Vec2,
    time: u64,
) -> (state: DrawState)
    ensures
        state.entities_spec() == by_height(depicted(world@)),
        state.camera_offset_spec() == camera_offset(*extra_info, *position, draw),
        state.time_spec() == time,
{
    let mut draw_positions: Vec<(Asset, Position)> = Vec::new();
    let ghost wanted = |record: Record| is_drawn(record);
    let ghost shown = |record: Record| depiction(record);
    let count = world.len();
    let mut i: usize = 0;
    proof {
        assert(world@.take(0) =~= Seq::<Record>::empty());
        reveal(Seq::filter);
    }
    while i < count
        invariant
            count == world@.len(),
            i <= count,
            wanted == |record: Record| is_drawn(record),
            shown == |record: Record| depiction(record),
            draw_positions@ == world@.take(i as int).filter(wanted).map_values(shown),
        decreases count - i,
    {
        proof {
            assert(world@.take(i + 1) =~= world@.take(i as int).push(world@[i as int]));
            world@.take(i as int).lemma_filter_push(world@[i as int], wanted);
        }
        let components = world.components_at(i);
        match (&components.asset, components.position) {
            (Some(asset), Some(position)) => {
                let item = (
                    asset.clone(),
                    Position { x: floor_to_units(position.x), y: floor_to_units(position.y) },
                );
                draw_positions.push(item);
                proof {
                    assert(world@.take(i as int).filter(wanted).push(world@[i as int]).map_values(
                        shown,
                    ) =~= world@.take(i as int).filter(wanted).map_values(shown).push(
                        depiction(world@[i as int]),
                    ));
                }
            },
            _ => {},
        }
        i += 1;
    }
    proof {
        assert(world@.take(i as int) =~= world@);
    }
    DrawState::new(
        draw_positions,
        Vec2 {
            x: shaken(draw.x, extra_info.shake, position.x),
            y: shaken(draw.y, extra_info.shake, position.y),
        },
        time,
    )
}

/// The snapshot of the world with the camera shaken at random.
pub fn create_draw_state(
    world: &World,
    extra_info: &ExtraInfo,
    position: &Position,
    rng: &mut StdRng,
    time: u64,
) -> (state: DrawState)
    ensures
        state.entities_spec() == by_height(depicted(world@)),
        state.time_spec() == time,
        exists|draw: Vec2|
            is_draw(draw) && state.camera_offset_spec() == #[trigger] camera_offset(
                *extra_info,
                *position,
                draw,
            ),
{
    let draw = draw_pair(rng);
    snapshot(world, extra_info, position, draw, time)
}

} // verus!
