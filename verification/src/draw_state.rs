//! The snapshot that the simulation hands to the renderer once per tick.
use vstd::prelude::*;
use vstd::seq_lib::{to_multiset_remove, group_to_multiset_ensures};
use crate::components::{Asset, Position};
use crate::vec2::Vec2;

verus! {

/// What to draw: the assets of the world with their places in whole world
/// units, the camera's offset, and the time of the animation clock in
/// milliseconds. Entities are kept from the highest to the lowest, so that
/// what is lower on the screen is drawn over what is higher. A snapshot has
/// no way back into the world that it was taken from.
pub struct DrawState {
    entities: Vec<(Asset, Position)>,
    camera_offset: Vec2,
    time: u64,
}

/// The place at which an entity of height `y` goes into `sorted`: before
/// the first entity that is not higher.
pub open spec fn slot(y: int, sorted: Seq<(Asset, Position)>) -> int
    decreases sorted.len(),
{
    if sorted.len() == 0 {
        0
    } else if sorted[0].1.y <= y {
        0
    } else {
        1 + slot(y, sorted.drop_first())
    }
}

/// `sorted` with `item` put in at its place.
pub open spec fn placed(item: (Asset, Position), sorted: Seq<(Asset, Position)>) -> Seq<
    (Asset, Position),
> {
    sorted.insert(slot(item.1.y as int, sorted), item)
}

/// The entities from the highest to the lowest; entities of one height
/// keep the order they came in.
pub open spec fn by_height(entities: Seq<(Asset, Position)>) -> Seq<(Asset, Position)>
    decreases entities.len(),
{
    if entities.len() == 0 {
        Seq::empty()
    } else {
        placed(entities.first(), by_height(entities.drop_first()))
    }
}

/// No entity comes before a higher one.
pub open spec fn is_descending(entities: Seq<(Asset, Position)>) -> bool {
    forall|i: int, j: int|
        0 <= i < j < entities.len() ==> (#[trigger] entities[i]).1.y >= (
        #[trigger] entities[j]).1.y
}

impl DrawState {
    /// What to draw, from the highest to the lowest.
    pub closed spec fn entities_spec(&self) -> Seq<(Asset, Position)> {
        self.entities@
    }

    /// The camera's offset.
    pub closed spec fn camera_offset_spec(&self) -> Vec2 {
        self.camera_offset
    }

    /// The time of the animation clock.
    pub closed spec fn time_spec(&self) -> u64 {
        self.time
    }

    /// The snapshot of the given entities, sorted from the highest to the
    /// lowest.
    pub fn new(entities: Vec<(Asset, Position)>, camera_offset: Vec2, time: u64) -> (state:
        DrawState)
        ensures
            state.entities_spec() == by_height(entities@),
            state.camera_offset_spec() == camera_offset,
            state.time_spec() == time,
    {
        let mut entities = entities;
        let ghost given = entities@;
        let mut sorted: Vec<(Asset, Position)> = Vec::new();
        proof {
            assert(given.skip(given.len() as int) =~= Seq::<(Asset, Position)>::empty());
        }
        while entities.len() > 0
            invariant
                entities@ == given.take(entities@.len() as int),
                entities@.len() <= given.len(),
                sorted@ == by_height(given.skip(entities@.len() as int)),
            decreases entities.len(),
        {
            let ghost left = entities@.len();
            let item = entities.pop().unwrap();
            let mut place: usize = 0;
            while place < sorted.len() && sorted[place].1.y > item.1.y
                invariant
                    place <= sorted@.len(),
                    forall|j: int| 0 <= j < place ==> (#[trigger] sorted@[j]).1.y > item.1.y,
                decreases sorted.len() - place,
            {
                place += 1;
            }
            proof {
                lemma_slot_is_first_not_higher(item.1.y as int, sorted@, place as int);
                assert(given.skip(left - 1).first() == item);
                assert(given.skip(left - 1).drop_first() =~= given.skip(left as int));
                assert(entities@ =~= given.take(left - 1));
            }
            sorted.insert(place, item);
        }
        proof {
            assert(given.skip(0) =~= given);
        }
        DrawState { entities: sorted, camera_offset, time }
    }

    /// What to draw, from the highest to the lowest.
    pub fn entities(&self) -> (entities: &Vec<(Asset, Position)>)
        ensures
            entities@ == self.entities_spec(),
    {
        &self.entities
    }

    /// The camera's offset.
    pub fn camera_offset(&self) -> (offset: Vec2)
        ensures
            offset == self.camera_offset_spec(),
    {
        self.camera_offset
    }

    /// The time of the animation clock.
    pub fn time(&self) -> (time: u64)
        ensures
            time == self.time_spec(),
    {
        self.time
    }
}

/// The slot is the one place before which every entity is higher and at
/// which the entity, if there is one, is not.
pub proof fn lemma_slot_is_first_not_higher(y: int, sorted: Seq<(Asset, Position)>, place: int)
    requires
        0 <= place <= sorted.len(),
        forall|j: int| 0 <= j < place ==> (#[trigger] sorted[j]).1.y > y,
        place < sorted.len() ==> sorted[place].1.y <= y,
    ensures
        slot(y, sorted) == place,
    decreases sorted.len(),
{
    if sorted.len() > 0 && place > 0 {
        assert(sorted[0].1.y > y);
        assert forall|j: int| 0 <= j < place - 1 implies (#[trigger] sorted.drop_first()[j]).1.y
            > y by {
            assert(sorted.drop_first()[j] == sorted[j + 1]);
        }
        lemma_slot_is_first_not_higher(y, sorted.drop_first(), place - 1);
    }
}

/// The slot lies within the sequence, after all higher entities and at the
/// first that is not higher.
pub proof fn lemma_slot_bounds(y: int, sorted: Seq<(Asset, Position)>)
    ensures
        0 <= slot(y, sorted) <= sorted.len(),
        forall|j: int| 0 <= j < slot(y, sorted) ==> (#[trigger] sorted[j]).1.y > y,
        slot(y, sorted) < sorted.len() ==> sorted[slot(y, sorted)].1.y <= y,
    decreases sorted.len(),
{
    if sorted.len() > 0 && sorted[0].1.y > y {
        lemma_slot_bounds(y, sorted.drop_first());
        assert forall|j: int| 0 <= j < slot(y, sorted) implies (#[trigger] sorted[j]).1.y > y by {
            if j > 0 {
                assert(sorted[j] == sorted.drop_first()[j - 1]);
            }
        }
        if slot(y, sorted) < sorted.len() {
            assert(sorted[slot(y, sorted)] == sorted.drop_first()[slot(y, sorted) - 1]);
        }
    }
}

/// A snapshot's entities run from the highest to the lowest, and they are
/// the entities that were given, each as often as it was given.
pub proof fn lemma_by_height_sorts(entities: Seq<(Asset, Position)>)
    ensures
        is_descending(by_height(entities)),
        by_height(entities).to_multiset() == entities.to_multiset(),
        by_height(entities).len() == entities.len(),
    decreases entities.len(),
{
    broadcast use group_to_multiset_ensures;

    if entities.len() == 0 {
        assert(by_height(entities) =~= entities);
    } else {
        let rest = by_height(entities.drop_first());
        let item = entities.first();
        let place = slot(item.1.y as int, rest);
        let all = placed(item, rest);
        lemma_by_height_sorts(entities.drop_first());
        lemma_slot_bounds(item.1.y as int, rest);
        assert forall|i: int, j: int| 0 <= i < j < all.len() implies (#[trigger] all[i]).1.y >= (
        #[trigger] all[j]).1.y by {
            let from_i = if i < place {
                i
            } else {
                i - 1
            };
            let from_j = if j < place {
                j
            } else {
                j - 1
            };
            if i != place {
                assert(all[i] == rest[from_i]);
            }
            if j != place {
                assert(all[j] == rest[from_j]);
            }
            if i != place && j != place {
                assert(from_i < from_j);
            }
        }
        assert(all.remove(place) =~= rest);
        to_multiset_remove(all, place);
        assert(entities.remove(0) =~= entities.drop_first());
        to_multiset_remove(entities, 0);
        assert(all.contains(item)) by {
            assert(all[place] == item);
        }
        assert(entities.contains(item)) by {
            assert(entities[0] == item);
        }
        assert(all.to_multiset() =~= entities.to_multiset()) by {
            assert(all.to_multiset().remove(item) == entities.to_multiset().remove(item));
            assert(all.to_multiset().count(item) > 0);
            assert(entities.to_multiset().count(item) > 0);
            assert forall|other: (Asset, Position)|
                all.to_multiset().count(other) == entities.to_multiset().count(other) by {
                assert(all.to_multiset().remove(item).count(other) == entities.to_multiset().remove(
                    item,
                ).count(other));
            }
        }
    }
}

} // verus!
