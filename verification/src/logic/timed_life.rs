//! The sweep that removes entities whose time is up.
//!
//! The sweep runs once per tick, after the systems and the collision pass
//! have run, so that no entity disappears while the world is being walked.
use vstd::prelude::*;
use crate::world::{distinct, is_listed, Entity, Record, World};

verus! {

/// The entity's time is up; the player's never is.
pub open spec fn is_expired(record: Record, player: Entity) -> bool {
    &&& record.components.timed_life is Some
    &&& record.components.timed_life->0.millis_left <= 0
    &&& record.entity != player
}

/// The entities whose time is up, in the order of spawning.
pub open spec fn expired_entities(records: Seq<Record>, player: Entity) -> Seq<Entity> {
    records.filter(|record: Record| is_expired(record, player)).map_values(
        |record: Record| record.entity,
    )
}

/// The records that the sweep leaves.
pub open spec fn survivors(records: Seq<Record>, player: Entity) -> Seq<Record> {
    records.filter(|record: Record| !is_expired(record, player))
}

/// Collects the entities whose time is up.
pub fn find_expired(world: &World, player: Entity) -> (batch: Vec<Entity>)
    ensures
        batch@ == expired_entities(world@, player),
{
    let mut batch: Vec<Entity> = Vec::new();
    let ghost wanted = |record: Record| is_expired(record, player);
    let ghost name = |record: Record| record.entity;
    let count = world.len();
    let mut i: usize = 0;
    proof {
        assert(world@.take(0) =~= Seq::<Record>::empty());
        reveal(Seq::filter);
    }
    while i < count
        invariant
            count == world@.len(),
            i <= count,
            wanted == |record: Record| is_expired(record, player),
            name == |record: Record| record.entity,
            batch@ == world@.take(i as int).filter(wanted).map_values(name),
        decreases count - i,
    {
        proof {
            assert(world@.take(i + 1) =~= world@.take(i as int).push(world@[i as int]));
            world@.take(i as int).lemma_filter_push(world@[i as int], wanted);
        }
        let entity = world.entity_at(i);
        let up = match world.components_at(i).timed_life {
            Some(life) => life.millis_left <= 0 && entity != player,
            None => false,
        };
        if up {
            batch.push(entity);
            proof {
                assert(world@.take(i as int).filter(wanted).push(world@[i as int]).map_values(name)
                    =~= world@.take(i as int).filter(wanted).map_values(name).push(entity));
            }
        }
        i += 1;
    }
    proof {
        assert(world@.take(i as int) =~= world@);
    }
    batch
}

/// Removes every entity whose time is up, in one sweep.
pub fn handle_timed_life(world: &mut World, player: Entity)
    requires
        old(world).wf(),
    ensures
        final(world).wf(),
        final(world).spawned() == old(world).spawned(),
        final(world)@ == survivors(old(world)@, player),
{
    let batch = find_expired(world, player);
    proof {
        world.lemma_entities_are_distinct();
        lemma_batch_lists_the_expired(world@, player);
        lemma_filters_agree(
            world@,
            |record: Record| !is_listed(batch@, record),
            |record: Record| !is_expired(record, player),
        );
    }
    world.remove_all(&batch);
}

/// Among distinct records, the batch of expired entities lists exactly the
/// expired records.
pub proof fn lemma_batch_lists_the_expired(records: Seq<Record>, player: Entity)
    requires
        distinct(records),
    ensures
        forall|i: int|
            0 <= i < records.len() ==> (is_listed(
                expired_entities(records, player),
                #[trigger] records[i],
            ) <==> is_expired(records[i], player)),
{
    let wanted = |record: Record| is_expired(record, player);
    let name = |record: Record| record.entity;
    let chosen = records.filter(wanted);
    assert forall|i: int| 0 <= i < records.len() implies (is_listed(
        expired_entities(records, player),
        #[trigger] records[i],
    ) <==> is_expired(records[i], player)) by {
        if is_expired(records[i], player) {
            records.lemma_filter_contains(wanted, i);
            let k = choose|k: int| 0 <= k < chosen.len() && chosen[k] == records[i];
            assert(chosen.map_values(name)[k] == records[i].entity);
        }
        if is_listed(expired_entities(records, player), records[i]) {
            let k = choose|k: int|
                0 <= k < chosen.map_values(name).len() && chosen.map_values(name)[k]
                    == records[i].entity;
            records.lemma_filter_pred(wanted, k);
            assert(chosen.contains(chosen[k]));
            records.lemma_filter_contains_rev(wanted, chosen[k]);
            let j = choose|j: int| 0 <= j < records.len() && records[j] == chosen[k];
            assert(records[j].entity == records[i].entity);
            assert(j == i);
        }
    }
}

/// Two conditions that agree on every element of a sequence select the
/// same elements from it.
pub proof fn lemma_filters_agree<A>(
    elements: Seq<A>,
    first: spec_fn(A) -> bool,
    second: spec_fn(A) -> bool,
)
    requires
        forall|i: int| 0 <= i < elements.len() ==> first(#[trigger] elements[i]) == second(
            elements[i],
        ),
    ensures
        elements.filter(first) == elements.filter(second),
    decreases elements.len(),
{
    reveal(Seq::filter);
    if elements.len() > 0 {
        lemma_filters_agree(elements.drop_last(), first, second);
    }
}

/// The sweep never removes the player, and removes exactly the other
/// entities whose time is up.
pub proof fn lemma_sweep_spares_the_player(records: Seq<Record>, player: Entity, i: int)
    requires
        0 <= i < records.len(),
    ensures
        records[i].entity == player ==> survivors(records, player).contains(records[i]),
        is_expired(records[i], player) ==> !survivors(records, player).contains(records[i]),
        !is_expired(records[i], player) ==> survivors(records, player).contains(records[i]),
{
    let stays = |record: Record| !is_expired(record, player);
    if !is_expired(records[i], player) {
        records.lemma_filter_contains(stays, i);
    } else {
        if survivors(records, player).contains(records[i]) {
            let k = choose|k: int|
                0 <= k < records.filter(stays).len() && records.filter(stays)[k] == records[i];
            records.lemma_filter_pred(stays, k);
        }
    }
}

} // verus!
