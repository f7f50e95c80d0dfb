//! The entity world: handles, per-entity components, and queries.
//!
//! Entities are kept in the order in which they were spawned, and every
//! query answers in that order. A handle carries a serial number that is
//! issued once and never again, so a handle to a removed entity can never be
//! mistaken for a later one.
use vstd::prelude::*;
use crate::components::{
    AiRandomWalk, Asset, Collider, Friction, Position, Status, TimedLife, Velocity,
};

verus! {

/// The kinds of component an entity can carry.
#[derive(Clone, Copy, Debug, PartialEq, Eq, Structural)]
pub enum ComponentKind {
    Position,
    Velocity,
    Asset,
    Friction,
    TimedLife,
    Collider,
    Status,
    AiRandomWalk,
}

/// One component of any kind.
#[derive(Debug)]
pub enum Component {
    Position(Position),
    Velocity(Velocity),
    Asset(Asset),
    Friction(Friction),
    TimedLife(TimedLife),
    Collider(Collider),
    Status(Status),
    AiRandomWalk(AiRandomWalk),
}

impl Component {
    /// The kind of the component.
    pub open spec fn kind_spec(self) -> ComponentKind {
        match self {
            Component::Position(_) => ComponentKind::Position,
            Component::Velocity(_) => ComponentKind::Velocity,
            Component::Asset(_) => ComponentKind::Asset,
            Component::Friction(_) => ComponentKind::Friction,
            Component::TimedLife(_) => ComponentKind::TimedLife,
            Component::Collider(_) => ComponentKind::Collider,
            Component::Status(_) => ComponentKind::Status,
            Component::AiRandomWalk(_) => ComponentKind::AiRandomWalk,
        }
    }

    /// The kind of the component.
    pub fn kind(&self) -> (kind: ComponentKind)
        ensures
            kind == self.kind_spec(),
    {
        match self {
            Component::Position(_) => ComponentKind::Position,
            Component::Velocity(_) => ComponentKind::Velocity,
            Component::Asset(_) => ComponentKind::Asset,
            Component::Friction(_) => ComponentKind::Friction,
            Component::TimedLife(_) => ComponentKind::TimedLife,
            Component::Collider(_) => ComponentKind::Collider,
            Component::Status(_) => ComponentKind::Status,
            Component::AiRandomWalk(_) => ComponentKind::AiRandomWalk,
        }
    }
}

/// The components of one entity, at most one of each kind.
#[derive(Debug)]
pub struct Components {
    pub position: Option<Position>,
    pub velocity: Option<Velocity>,
    pub asset: Option<Asset>,
    pub friction: Option<Friction>,
    pub timed_life: Option<TimedLife>,
    pub collider: Option<Collider>,
    pub status: Option<Status>,
    pub ai_random_walk: Option<AiRandomWalk>,
}

impl Components {
    /// The component of the given kind, if the entity carries one.
    pub open spec fn component(self, kind: ComponentKind) -> Option<Component> {
        match kind {
            ComponentKind::Position => match self.position {
                Some(value) => Some(Component::Position(value)),
                None => None,
            },
            ComponentKind::Velocity => match self.velocity {
                Some(value) => Some(Component::Velocity(value)),
                None => None,
            },
            ComponentKind::Asset => match self.asset {
                Some(value) => Some(Component::Asset(value)),
                None => None,
            },
            ComponentKind::Friction => match self.friction {
                Some(value) => Some(Component::Friction(value)),
                None => None,
            },
            ComponentKind::TimedLife => match self.timed_life {
                Some(value) => Some(Component::TimedLife(value)),
                None => None,
            },
            ComponentKind::Collider => match self.collider {
                Some(value) => Some(Component::Collider(value)),
                None => None,
            },
            ComponentKind::Status => match self.status {
                Some(value) => Some(Component::Status(value)),
                None => None,
            },
            ComponentKind::AiRandomWalk => match self.ai_random_walk {
                Some(value) => Some(Component::AiRandomWalk(value)),
                None => None,
            },
        }
    }

    /// The entity carries a component of the given kind.
    pub open spec fn has(self, kind: ComponentKind) -> bool {
        self.component(kind) is Some
    }

    /// The same components with the one of `component`'s kind replaced.
    pub open spec fn with(self, component: Component) -> Components {
        match component {
            Component::Position(value) => Components { position: Some(value), ..self },
            Component::Velocity(value) => Components { velocity: Some(value), ..self },
            Component::Asset(value) => Components { asset: Some(value), ..self },
            Component::Friction(value) => Components { friction: Some(value), ..self },
            Component::TimedLife(value) => Components { timed_life: Some(value), ..self },
            Component::Collider(value) => Components { collider: Some(value), ..self },
            Component::Status(value) => Components { status: Some(value), ..self },
            Component::AiRandomWalk(value) => Components { ai_random_walk: Some(value), ..self },
        }
    }

    /// `other` carries components of the same kinds as `self`, and apart
    /// from place, velocity and time to live the same components.
    pub open spec fn same_makeup(self, other: Components) -> bool {
        &&& self.position is Some == other.position is Some
        &&& self.velocity is Some == other.velocity is Some
        &&& self.timed_life is Some == other.timed_life is Some
        &&& self.asset == other.asset
        &&& self.friction == other.friction
        &&& self.collider == other.collider
        &&& self.status == other.status
        &&& self.ai_random_walk == other.ai_random_walk
    }

    /// The entity carries a component of every kind in `signature`.
    pub open spec fn matches(self, signature: Seq<ComponentKind>) -> bool {
        forall|i: int| 0 <= i < signature.len() ==> self.has(#[trigger] signature[i])
    }

    /// No components at all.
    pub fn new() -> (components: Components)
        ensures
            components == (Components {
                position: None,
                velocity: None,
                asset: None,
                friction: None,
                timed_life: None,
                collider: None,
                status: None,
                ai_random_walk: None,
            }),
    {
        Components {
            position: None,
            velocity: None,
            asset: None,
            friction: None,
            timed_life: None,
            collider: None,
            status: None,
            ai_random_walk: None,
        }
    }

    /// Whether the entity carries a component of the given kind.
    pub fn contains(&self, kind: ComponentKind) -> (present: bool)
        ensures
            present == self.has(kind),
    {
        match kind {
            ComponentKind::Position => self.position.is_some(),
            ComponentKind::Velocity => self.velocity.is_some(),
            ComponentKind::Asset => self.asset.is_some(),
            ComponentKind::Friction => self.friction.is_some(),
            ComponentKind::TimedLife => self.timed_life.is_some(),
            ComponentKind::Collider => self.collider.is_some(),
            ComponentKind::Status => self.status.is_some(),
            ComponentKind::AiRandomWalk => self.ai_random_walk.is_some(),
        }
    }

    /// A copy of the component of the given kind.
    pub fn get(&self, kind: ComponentKind) -> (found: Option<Component>)
        ensures
            found == self.component(kind),
    {
        match kind {
            ComponentKind::Position => match self.position {
                Some(value) => Some(Component::Position(value)),
                None => None,
            },
            ComponentKind::Velocity => match self.velocity {
                Some(value) => Some(Component::Velocity(value)),
                None => None,
            },
            ComponentKind::Asset => match &self.asset {
                Some(value) => Some(Component::Asset(value.clone())),
                None => None,
            },
            ComponentKind::Friction => match self.friction {
                Some(value) => Some(Component::Friction(value)),
                None => None,
            },
            ComponentKind::TimedLife => match self.timed_life {
                Some(value) => Some(Component::TimedLife(value)),
                None => None,
            },
            ComponentKind::Collider => match self.collider {
                Some(value) => Some(Component::Collider(value)),
                None => None,
            },
            ComponentKind::Status => match self.status {
                Some(value) => Some(Component::Status(value)),
                None => None,
            },
            ComponentKind::AiRandomWalk => match self.ai_random_walk {
                Some(value) => Some(Component::AiRandomWalk(value)),
                None => None,
            },
        }
    }

    /// Replaces the component of `component`'s kind. An entity that carries
    /// none of that kind is left as it is.
    pub fn replace(&mut self, component: Component) -> (done: bool)
        ensures
            done == old(self).has(component.kind_spec()),
            done ==> *final(self) == old(self).with(component),
            !done ==> *final(self) == *old(self),
    {
        let present = self.contains(component.kind());
        if present {
            match component {
                Component::Position(value) => {
                    self.position = Some(value);
                },
                Component::Velocity(value) => {
                    self.velocity = Some(value);
                },
                Component::Asset(value) => {
                    self.asset = Some(value);
                },
                Component::Friction(value) => {
                    self.friction = Some(value);
                },
                Component::TimedLife(value) => {
                    self.timed_life = Some(value);
                },
                Component::Collider(value) => {
                    self.collider = Some(value);
                },
                Component::Status(value) => {
                    self.status = Some(value);
                },
                Component::AiRandomWalk(value) => {
                    self.ai_random_walk = Some(value);
                },
            }
        }
        present
    }

    /// Whether the entity carries a component of every kind in `signature`.
    pub fn is_matching(&self, signature: &[ComponentKind]) -> (matching: bool)
        ensures
            matching == self.matches(signature@),
    {
        let mut i: usize = 0;
        while i < signature.len()
            invariant
                i <= signature.len(),
                forall|j: int| 0 <= j < i ==> self.has(#[trigger] signature@[j]),
            decreases signature.len() - i,
        {
            if !self.contains(signature[i]) {
                return false;
            }
            i += 1;
        }
        true
    }
}

/// An opaque handle to one simulated object.
#[derive(Clone, Copy, Debug, PartialEq, Eq, Hash, Structural)]
pub struct Entity {
    id: u64,
}

impl Entity {
    /// The number under which the entity was spawned.
    pub closed spec fn serial(self) -> nat {
        self.id as nat
    }
}

/// Two handles with one serial number are the same handle.
pub proof fn lemma_serial_identifies(first: Entity, second: Entity)
    requires
        first.serial() == second.serial(),
    ensures
        first == second,
{
}

/// An entity of the world together with its components.
#[derive(Debug)]
pub struct Record {
    pub entity: Entity,
    pub components: Components,
}

/// Why the world could not answer.
#[derive(Clone, Copy, Debug, PartialEq, Eq, Structural)]
pub enum WorldError {
    /// The entity is not in the world, or lacks the component asked for.
    NotFound,
}

/// Some record of `records` is about `entity`.
pub open spec fn holds(records: Seq<Record>, entity: Entity) -> bool {
    exists|i: int| 0 <= i < records.len() && (#[trigger] records[i]).entity == entity
}

/// The place of `entity` among `records`, where it is held.
pub open spec fn index_of(records: Seq<Record>, entity: Entity) -> int {
    choose|i: int| 0 <= i < records.len() && (#[trigger] records[i]).entity == entity
}

/// No two records are about the same entity.
pub open spec fn distinct(records: Seq<Record>) -> bool {
    forall|i: int, j: int|
        0 <= i < records.len() && 0 <= j < records.len() && i != j ==> (#[trigger] records[i]).entity
            != (#[trigger] records[j]).entity
}

/// `after` holds the entities of `before` in the same order, each with
/// components of the same makeup.
pub open spec fn same_entities(before: Seq<Record>, after: Seq<Record>) -> bool {
    &&& after.len() == before.len()
    &&& forall|i: int|
        0 <= i < before.len() ==> (#[trigger] after[i]).entity == before[i].entity
            && before[i].components.same_makeup(after[i].components)
}

/// The record is about one of the entities of `batch`.
pub open spec fn is_listed(batch: Seq<Entity>, record: Record) -> bool {
    batch.contains(record.entity)
}

/// The entities of the records that match `signature`, in order.
pub open spec fn matching(records: Seq<Record>, signature: Seq<ComponentKind>) -> Seq<Entity> {
    records.filter(|record: Record| record.components.matches(signature)).map_values(
        |record: Record| record.entity,
    )
}

/// The entities of the simulation with their components, in the order of
/// spawning.
pub struct World {
    records: Vec<Record>,
    next_id: u64,
}

impl View for World {
    type V = Seq<Record>;

    closed spec fn view(&self) -> Seq<Record> {
        self.records@
    }
}

impl World {
    /// Records are in the order of their serial numbers, all of which have
    /// been issued.
    pub closed spec fn wf(&self) -> bool {
        &&& forall|i: int, j: int|
            0 <= i < j < self.records@.len() ==> (#[trigger] self.records@[i]).entity.id < (
            #[trigger] self.records@[j]).entity.id
        &&& forall|i: int|
            0 <= i < self.records@.len() ==> (#[trigger] self.records@[i]).entity.id
                < self.next_id
    }

    /// How many entities have been spawned so far, removed ones included.
    pub closed spec fn spawned(&self) -> nat {
        self.next_id as nat
    }

    /// Another entity can be spawned.
    pub open spec fn has_room_spec(&self) -> bool {
        self.spawned() < u64::MAX
    }

    /// The components of `entity`, where the world holds it.
    pub open spec fn components_of(&self, entity: Entity) -> Components {
        self@[index_of(self@, entity)].components
    }

    /// In a well-formed world every entity occurs once, in the order of
    /// spawning, and under a serial number that has been issued.
    pub proof fn lemma_entities_are_distinct(&self)
        requires
            self.wf(),
        ensures
            distinct(self@),
            forall|i: int, j: int|
                0 <= i < j < self@.len() ==> (#[trigger] self@[i]).entity.serial() < (
                #[trigger] self@[j]).entity.serial(),
            forall|i: int| 0 <= i < self@.len() ==> (#[trigger] self@[i]).entity.serial()
                < self.spawned(),
    {
        assert forall|i: int, j: int|
            0 <= i < self@.len() && 0 <= j < self@.len() && i != j implies (
        #[trigger] self@[i]).entity != (#[trigger] self@[j]).entity by {
            if i < j {
                assert(self.records@[i].entity.id < self.records@[j].entity.id);
            } else {
                assert(self.records@[j].entity.id < self.records@[i].entity.id);
            }
        }
    }

    /// The count of spawned entities fits the serial numbers.
    pub proof fn lemma_spawned_is_bounded(&self)
        ensures
            self.spawned() <= u64::MAX,
    {
    }

    /// A world without entities.
    pub fn new() -> (world: World)
        ensures
            world.wf(),
            world@ == Seq::<Record>::empty(),
            world.spawned() == 0,
    {
        World { records: Vec::new(), next_id: 0 }
    }

    /// The number of entities in the world.
    pub fn len(&self) -> (count: usize)
        ensures
            count == self@.len(),
    {
        self.records.len()
    }

    /// Whether the world is well formed. Every world that was made and
    /// changed by the functions of this module is; the test is for callers
    /// that cannot rely on it.
    pub fn is_well_formed(&self) -> (sound: bool)
        ensures
            sound == self.wf(),
    {
        let mut i: usize = 0;
        while i < self.records.len()
            invariant
                i <= self.records@.len(),
                forall|a: int, b: int|
                    0 <= a < b < i ==> (#[trigger] self.records@[a]).entity.id < (
                    #[trigger] self.records@[b]).entity.id,
                forall|a: int|
                    0 <= a < i ==> (#[trigger] self.records@[a]).entity.id < self.next_id,
            decreases self.records.len() - i,
        {
            if self.records[i].entity.id >= self.next_id {
                return false;
            }
            if i > 0 && self.records[i - 1].entity.id >= self.records[i].entity.id {
                proof {
                    assert(!(self.records@[i - 1].entity.id < self.records@[i as int].entity.id));
                }
                return false;
            }
            proof {
                assert forall|a: int| 0 <= a < i implies (#[trigger] self.records@[a]).entity.id
                    < self.records@[i as int].entity.id by {
                    if a < i - 1 {
                        assert(self.records@[a].entity.id < self.records@[i - 1].entity.id);
                    }
                }
            }
            i += 1;
        }
        true
    }

    /// Whether another entity can be spawned.
    pub fn has_room(&self) -> (room: bool)
        ensures
            room == self.has_room_spec(),
    {
        self.next_id < u64::MAX
    }

    /// Adds an entity with the given components after all others.
    pub fn spawn(&mut self, components: Components) -> (entity: Entity)
        requires
            old(self).wf(),
            old(self).has_room_spec(),
        ensures
            final(self).wf(),
            final(self)@ == old(self)@.push(Record { entity, components }),
            entity.serial() == old(self).spawned(),
            final(self).spawned() == old(self).spawned() + 1,
            !holds(old(self)@, entity),
    {
        let entity = Entity { id: self.next_id };
        self.next_id = self.next_id + 1;
        self.records.push(Record { entity, components });
        entity
    }

    /// The place of `entity` in the order of spawning.
    pub fn place_of(&self, entity: Entity) -> (place: Option<usize>)
        requires
            self.wf(),
        ensures
            place is Some == holds(self@, entity),
            place is Some ==> place->0 == index_of(self@, entity) && place->0 < self@.len()
                && self@[place->0 as int].entity == entity,
    {
        let mut low: usize = 0;
        let mut high: usize = self.records.len();
        while low < high
            invariant
                self.wf(),
                low <= high <= self.records@.len(),
                forall|i: int| 0 <= i < low ==> (#[trigger] self.records@[i]).entity.id < entity.id,
                forall|i: int|
                    high <= i < self.records@.len() ==> (#[trigger] self.records@[i]).entity.id
                        > entity.id,
            decreases high - low,
        {
            let middle = low + (high - low) / 2;
            let id = self.records[middle].entity.id;
            if id == entity.id {
                proof {
                    self.lemma_entities_are_distinct();
                    assert(self@[middle as int].entity == entity);
                }
                return Some(middle);
            } else if id < entity.id {
                low = middle + 1;
            } else {
                high = middle;
            }
        }
        None
    }

    /// Whether the entity is in the world.
    pub fn contains(&self, entity: Entity) -> (present: bool)
        requires
            self.wf(),
        ensures
            present == holds(self@, entity),
    {
        self.place_of(entity).is_some()
    }

    /// The entity at the given place in the order of spawning.
    pub fn entity_at(&self, index: usize) -> (entity: Entity)
        requires
            index < self@.len(),
        ensures
            entity == self@[index as int].entity,
    {
        self.records[index].entity
    }

    /// The components of the entity at the given place.
    pub fn components_at(&self, index: usize) -> (components: &Components)
        requires
            index < self@.len(),
        ensures
            *components == self@[index as int].components,
    {
        &self.records[index].components
    }

    /// Replaces a component of the entity at the given place; an entity
    /// that carries no component of that kind is left as it is.
    pub fn set_at(&mut self, index: usize, component: Component) -> (done: bool)
        requires
            old(self).wf(),
            index < old(self)@.len(),
        ensures
            final(self).wf(),
            final(self).spawned() == old(self).spawned(),
            done == old(self)@[index as int].components.has(component.kind_spec()),
            done ==> final(self)@ == old(self)@.update(
                index as int,
                Record {
                    entity: old(self)@[index as int].entity,
                    components: old(self)@[index as int].components.with(component),
                },
            ),
            !done ==> final(self)@ == old(self)@,
    {
        let done = self.records[index].components.replace(component);
        proof {
            if done {
                assert(self.records@ =~= old(self).records@.update(
                    index as int,
                    Record {
                        entity: old(self)@[index as int].entity,
                        components: old(self)@[index as int].components.with(component),
                    },
                ));
            } else {
                assert(self.records@ =~= old(self).records@);
            }
        }
        done
    }

    /// A copy of one component of `entity`.
    pub fn get(&self, entity: Entity, kind: ComponentKind) -> (found: Result<
        Component,
        WorldError,
    >)
        requires
            self.wf(),
        ensures
            found is Ok == (holds(self@, entity) && self.components_of(entity).has(kind)),
            found is Ok ==> Some(found->Ok_0) == self.components_of(entity).component(kind),
    {
        match self.place_of(entity) {
            Some(index) => match self.records[index].components.get(kind) {
                Some(component) => Ok(component),
                None => Err(WorldError::NotFound),
            },
            None => Err(WorldError::NotFound),
        }
    }

    /// Replaces one component of `entity`.
    pub fn set(&mut self, entity: Entity, component: Component) -> (outcome: Result<
        (),
        WorldError,
    >)
        requires
            old(self).wf(),
        ensures
            final(self).wf(),
            final(self).spawned() == old(self).spawned(),
            outcome is Ok == (holds(old(self)@, entity) && old(self).components_of(entity).has(
                component.kind_spec(),
            )),
            outcome is Ok ==> final(self)@ == old(self)@.update(
                index_of(old(self)@, entity),
                Record { entity, components: old(self).components_of(entity).with(component) },
            ),
            outcome is Err ==> final(self)@ == old(self)@,
    {
        match self.place_of(entity) {
            Some(index) => {
                if self.set_at(index, component) {
                    Ok(())
                } else {
                    Err(WorldError::NotFound)
                }
            },
            None => Err(WorldError::NotFound),
        }
    }

    /// Removes `entity` with all its components.
    pub fn remove(&mut self, entity: Entity) -> (removed: bool)
        requires
            old(self).wf(),
        ensures
            final(self).wf(),
            final(self).spawned() == old(self).spawned(),
            removed == holds(old(self)@, entity),
            removed ==> final(self)@ == old(self)@.remove(index_of(old(self)@, entity)),
            !removed ==> final(self)@ == old(self)@,
            !holds(final(self)@, entity),
    {
        match self.place_of(entity) {
            Some(index) => {
                proof {
                    self.lemma_entities_are_distinct();
                }
                self.records.remove(index);
                proof {
                    assert forall|i: int| 0 <= i < self.records@.len() implies (
                    #[trigger] self.records@[i]).entity != entity by {
                        if i < index {
                            assert(self.records@[i] == old(self).records@[i]);
                        } else {
                            assert(self.records@[i] == old(self).records@[i + 1]);
                        }
                    }
                }
                true
            },
            None => false,
        }
    }

    /// Removes every entity of `batch` in one sweep. The entities that stay
    /// keep their order.
    pub fn remove_all(&mut self, batch: &Vec<Entity>)
        requires
            old(self).wf(),
        ensures
            final(self).wf(),
            final(self).spawned() == old(self).spawned(),
            final(self)@ == old(self)@.filter(|record: Record| !is_listed(batch@, record)),
    {
        let ghost stays = |record: Record| !is_listed(batch@, record);
        let ghost before = self.records@;
        let mut i: usize = self.records.len();
        proof {
            reveal(Seq::filter);
            assert(before.skip(i as int) =~= Seq::<Record>::empty());
            assert(before =~= before.take(i as int) + before.skip(i as int).filter(stays));
        }
        while i > 0
            invariant
                self.wf(),
                self.next_id == old(self).next_id,
                before == old(self).records@,
                stays == |record: Record| !is_listed(batch@, record),
                i <= before.len(),
                self.records@ == before.take(i as int) + before.skip(i as int).filter(stays),
            decreases i,
        {
            i -= 1;
            proof {
                assert(before.skip(i as int) =~= seq![before[i as int]] + before.skip(i + 1));
                before.skip(i + 1).lemma_filter_prepend(before[i as int], stays);
                assert(self.records@[i as int] == before[i as int]);
            }
            if is_among(batch, self.records[i].entity) {
                let ghost current = self.records@;
                self.records.remove(i);
                proof {
                    assert(self.records@ =~= before.take(i as int) + before.skip(
                        i as int,
                    ).filter(stays));
                    assert forall|j: int, k: int|
                        0 <= j < k < self.records@.len() implies (
                    #[trigger] self.records@[j]).entity.id < (
                    #[trigger] self.records@[k]).entity.id by {
                        let from_j = if j < i {
                            j
                        } else {
                            j + 1
                        };
                        let from_k = if k < i {
                            k
                        } else {
                            k + 1
                        };
                        assert(self.records@[j] == current[from_j]);
                        assert(self.records@[k] == current[from_k]);
                    }
                    assert forall|j: int| 0 <= j < self.records@.len() implies (
                    #[trigger] self.records@[j]).entity.id < self.next_id by {
                        let from_j = if j < i {
                            j
                        } else {
                            j + 1
                        };
                        assert(self.records@[j] == current[from_j]);
                    }
                }
            } else {
                proof {
                    assert(self.records@ =~= before.take(i as int) + before.skip(
                        i as int,
                    ).filter(stays));
                }
            }
        }
        proof {
            assert(before.take(0) =~= Seq::<Record>::empty());
            assert(before.skip(0) =~= before);
            assert(self.records@ =~= before.filter(stays));
        }
    }

    /// The entities that carry a component of every kind in `signature`, in
    /// the order of spawning.
    pub fn query(&self, signature: &[ComponentKind]) -> (entities: Vec<Entity>)
        ensures
            entities@ == matching(self@, signature@),
    {
        let mut entities: Vec<Entity> = Vec::new();
        let ghost wanted = |record: Record| record.components.matches(signature@);
        let ghost name = |record: Record| record.entity;
        let mut i: usize = 0;
        proof {
            assert(self@.take(0) =~= Seq::<Record>::empty());
            reveal(Seq::filter);
        }
        while i < self.records.len()
            invariant
                i <= self.records@.len(),
                wanted == |record: Record| record.components.matches(signature@),
                name == |record: Record| record.entity,
                entities@ == self@.take(i as int).filter(wanted).map_values(name),
            decreases self.records.len() - i,
        {
            proof {
                assert(self@.take(i + 1) =~= self@.take(i as int).push(self@[i as int]));
                self@.take(i as int).lemma_filter_push(self@[i as int], wanted);
            }
            if self.records[i].components.is_matching(signature) {
                entities.push(self.records[i].entity);
                proof {
                    assert(self@.take(i as int).filter(wanted).push(self@[i as int]).map_values(
                        name,
                    ) =~= self@.take(i as int).filter(wanted).map_values(name).push(
                        self@[i as int].entity,
                    ));
                }
            }
            i += 1;
        }
        proof {
            assert(self@.take(i as int) =~= self@);
        }
        entities
    }
}

/// Whether `entity` is one of `batch`.
pub fn is_among(batch: &Vec<Entity>, entity: Entity) -> (listed: bool)
    ensures
        listed == batch@.contains(entity),
{
    let mut i: usize = 0;
    while i < batch.len()
        invariant
            i <= batch.len(),
            forall|j: int| 0 <= j < i ==> batch@[j] != entity,
        decreases batch.len() - i,
    {
        if batch[i] == entity {
            return true;
        }
        i += 1;
    }
    false
}

} // verus!
