//! The streaming manager: it owns the list of the chunks that exist and
//! decides, once for each tick, what its host has to create and destroy.

use vstd::prelude::*;

use crate::actions::handle_of;
use crate::actions::spawn;
use crate::actions::spawn_under;
use crate::actions::ChunkSpawn;
use crate::actions::EntityHandle;
use crate::actions::TaggedEntity;
use crate::actions::TickActions;
use crate::coordinate::ChunkCoordinate;
use crate::decoration::DecorationPolicy;
use crate::grid::chunk_of;
use crate::grid::world_to_chunk_coordinate;
use crate::grid::WorldPosition;
use crate::reconcile::apply;
use crate::reconcile::reconcile;
use crate::required::required_chunks;
use crate::required::required_set;
use crate::state::beyond;
use crate::state::law_tick_keeps_valid;
use crate::state::tagged_with;
use crate::state::within;
use crate::state::ManagerState;

verus! {

/// Why a manager could not be made.
#[derive(Clone, Copy, Debug, PartialEq, Eq, Structural)]
pub enum ConfigError {
    /// The chunk size was zero or negative.
    NonPositiveChunkSize,
    /// The render distance was negative.
    NegativeRenderDistance,
}

/// Why a handle could not be recorded.
#[derive(Clone, Copy, Debug, PartialEq, Eq, Structural)]
pub enum RecordError {
    /// The chunk that the handle was meant for does not exist.
    ChunkNotActive,
    /// The handle is held already.
    HandleAlreadyRecorded,
}

/// Keeps the chunks around a moving reference point in existence.
pub struct StreamingManager {
    chunk_size: i32,
    render_distance: i32,
    reference: Option<ChunkCoordinate>,
    active: Vec<ChunkCoordinate>,
    entities: Vec<TaggedEntity>,
}

impl View for StreamingManager {
    type V = ManagerState;

    closed spec fn view(&self) -> ManagerState {
        ManagerState {
            chunk_size: self.chunk_size as int,
            render_distance: self.render_distance as int,
            reference: self.reference,
            active: self.active@,
            entities: self.entities@,
        }
    }
}

impl StreamingManager {
    #[verifier::type_invariant]
    spec fn sound(self) -> bool {
        self@.valid()
    }

    /// A manager for chunks of edge length `chunk_size` that keeps the
    /// chunks within `render_distance` of the reference chunk. No chunk
    /// exists yet. A chunk size that is not positive is refused, and so is a
    /// negative render distance.
    pub fn new(chunk_size: i32, render_distance: i32) -> (made: Result<StreamingManager, ConfigError>)
        ensures
            match made {
                Ok(manager) => {
                    &&& chunk_size > 0
                    &&& render_distance >= 0
                    &&& manager@ == ManagerState::initial(chunk_size as int, render_distance as int)
                    &&& manager@.valid()
                },
                Err(ConfigError::NonPositiveChunkSize) => chunk_size <= 0,
                Err(ConfigError::NegativeRenderDistance) => chunk_size > 0 && render_distance < 0,
            },
    {
        if chunk_size <= 0 {
            Err(ConfigError::NonPositiveChunkSize)
        } else if render_distance < 0 {
            Err(ConfigError::NegativeRenderDistance)
        } else {
            let manager = StreamingManager {
                chunk_size,
                render_distance,
                reference: None,
                active: Vec::new(),
                entities: Vec::new(),
            };
            Ok(manager)
        }
    }

    /// The edge length of a chunk.
    pub fn chunk_size(&self) -> (size: i32)
        ensures
            size == self@.chunk_size,
            size > 0,
    {
        proof {
            use_type_invariant(self);
        }
        self.chunk_size
    }

    /// How far from the reference chunk chunks are kept.
    pub fn render_distance(&self) -> (distance: i32)
        ensures
            distance == self@.render_distance,
            distance >= 0,
    {
        proof {
            use_type_invariant(self);
        }
        self.render_distance
    }

    /// The chunk that held the reference point at the last tick that had
    /// one.
    pub fn reference_chunk(&self) -> (reference: Option<ChunkCoordinate>)
        ensures
            reference == self@.reference,
    {
        self.reference
    }

    /// The chunks that exist: first those that have existed longest.
    pub fn active_chunks(&self) -> (chunks: &[ChunkCoordinate])
        ensures
            chunks@ == self@.active,
            self@.valid(),
    {
        proof {
            use_type_invariant(self);
        }
        self.active.as_slice()
    }

    /// All that is placed, in the order in which it was recorded.
    pub fn entities(&self) -> (entities: &[TaggedEntity])
        ensures
            entities@ == self@.entities,
            self@.valid(),
    {
        proof {
            use_type_invariant(self);
        }
        self.entities.as_slice()
    }

    /// Whether the chunk at `coordinate` exists.
    pub fn is_active(&self, coordinate: ChunkCoordinate) -> (active: bool)
        ensures
            active == self@.active.contains(coordinate),
    {
        proof {
            use_type_invariant(self);
        }
        match self.reference {
            None => false,
            Some(center) => {
                assert(self@.active_set().contains(coordinate) == self@.active.contains(
                    coordinate,
                ));
                coordinate.distance(&center) <= self.render_distance as i64
            },
        }
    }

    /// The handles of what is placed in the chunk at `coordinate`, in the
    /// order in which they were recorded.
    pub fn entities_of(&self, coordinate: ChunkCoordinate) -> (handles: Vec<EntityHandle>)
        ensures
            handles@ == self@.handles_in(coordinate),
    {
        let mut handles: Vec<EntityHandle> = Vec::new();
        let mut i: usize = 0;
        while i < self.entities.len()
            invariant
                i <= self.entities.len(),
                handles@ == self.entities@.take(i as int).filter(
                    tagged_with(coordinate),
                ).map_values(handle_of()),
            decreases self.entities.len() - i,
        {
            let entity = self.entities[i];
            proof {
                let seen = self.entities@.take(i as int);
                assert(self.entities@.take(i + 1) =~= seen.push(entity));
                seen.lemma_filter_push(entity, tagged_with(coordinate));
            }
            if entity.coordinate == coordinate {
                handles.push(entity.handle);
            }
            i = i + 1;
        }
        assert(self.entities@.take(i as int) =~= self.entities@);
        handles
    }

    /// Whether some placed thing goes by `handle`.
    pub fn holds_handle(&self, handle: EntityHandle) -> (held: bool)
        ensures
            held == self@.holds_handle(handle),
    {
        let mut i: usize = 0;
        while i < self.entities.len()
            invariant
                i <= self.entities.len(),
                forall|k: int| 0 <= k < i ==> self.entities@[k].handle != handle,
            decreases self.entities.len() - i,
        {
            if self.entities[i].handle == handle {
                assert(self.entities@.map_values(handle_of())[i as int] == handle);
                return true;
            }
            i = i + 1;
        }
        false
    }

    /// Notes that the host has placed `handle` in the chunk at
    /// `coordinate`, so that a later tick destroys it together with that
    /// chunk. Refused, with nothing changed, where that chunk does not exist
    /// or the handle is held already.
    pub fn record_entity(
        &mut self,
        coordinate: ChunkCoordinate,
        handle: EntityHandle,
    ) -> (result: Result<(), RecordError>)
        ensures
            final(self)@.valid(),
            match result {
                Ok(()) => {
                    &&& old(self)@.active.contains(coordinate)
                    &&& !old(self)@.holds_handle(handle)
                    &&& final(self)@ == old(self)@.after_record(coordinate, handle)
                },
                Err(RecordError::ChunkNotActive) => {
                    &&& !old(self)@.active.contains(coordinate)
                    &&& final(self)@ == old(self)@
                },
                Err(RecordError::HandleAlreadyRecorded) => {
                    &&& old(self)@.active.contains(coordinate)
                    &&& old(self)@.holds_handle(handle)
                    &&& final(self)@ == old(self)@
                },
            },
    {
        proof {
            use_type_invariant(&*self);
        }
        if !self.is_active(coordinate) {
            return Err(RecordError::ChunkNotActive);
        }
        if self.holds_handle(handle) {
            return Err(RecordError::HandleAlreadyRecorded);
        }
        proof {
            let before = self@.entities.map_values(handle_of());
            let after = self@.entities.push(TaggedEntity { coordinate, handle }).map_values(
                handle_of(),
            );
            assert(after =~= before.push(handle));
        }
        let mut entities: Vec<TaggedEntity> = Vec::new();
        std::mem::swap(&mut entities, &mut self.entities);
        entities.push(TaggedEntity { coordinate, handle });
        self.entities = entities;
        Ok(())
    }

    /// One tick. `reference` is where the tracked point is now, or `None`
    /// while there is no such point; then nothing happens. Otherwise the
    /// chunks out of range are dropped and the missing ones added, and the
    /// result says what the host has to do for that: which handles to
    /// destroy and which chunks to place. The host records the handle of
    /// each thing that it places with `record_entity`.
    pub fn tick<P: DecorationPolicy>(
        &mut self,
        reference: Option<WorldPosition>,
        policy: &P,
    ) -> (actions: TickActions)
        ensures
            final(self)@ == old(self)@.after_tick(reference),
            final(self)@.valid(),
            actions.destroy@ == old(self)@.destroyed_by_tick(reference),
            actions.create@ == old(self)@.created_by_tick(reference).map_values(
                spawn_under(*policy, old(self)@.chunk_size),
            ),
            reference matches Some(position) ==> final(self)@.active_set() == required_set(
                chunk_of(position, old(self)@.chunk_size),
                old(self)@.render_distance,
            ),
    {
        proof {
            use_type_invariant(&*self);
            law_tick_keeps_valid(self@, reference);
        }
        match reference {
            None => TickActions { destroy: Vec::new(), create: Vec::new() },
            Some(position) => {
                let center = world_to_chunk_coordinate(position, self.chunk_size);
                let required = required_chunks(center, self.render_distance);
                let changes = reconcile(self.active.as_slice(), required.as_slice());
                let active = apply(self.active.as_slice(), &changes);
                let (kept, destroy) = split_by_distance(
                    self.entities.as_slice(),
                    center,
                    self.render_distance,
                );
                let create = spawns(changes.to_create.as_slice(), self.chunk_size, policy);
                *self = StreamingManager {
                    chunk_size: self.chunk_size,
                    render_distance: self.render_distance,
                    reference: Some(center),
                    active,
                    entities: kept,
                };
                TickActions { destroy, create }
            },
        }
    }
}

/// Parts `entities` into those that belong to a chunk within `radius` of
/// `center`, which are kept, and the handles of the others.
fn split_by_distance(
    entities: &[TaggedEntity],
    center: ChunkCoordinate,
    radius: i32,
) -> (parts: (Vec<TaggedEntity>, Vec<EntityHandle>))
    ensures
        parts.0@ == entities@.filter(within(center, radius as int)),
        parts.1@ == entities@.filter(beyond(center, radius as int)).map_values(handle_of()),
{
    let mut kept: Vec<TaggedEntity> = Vec::new();
    let mut gone: Vec<EntityHandle> = Vec::new();
    let ghost near = within(center, radius as int);
    let ghost far = beyond(center, radius as int);
    let mut i: usize = 0;
    while i < entities.len()
        invariant
            i <= entities.len(),
            near == within(center, radius as int),
            far == beyond(center, radius as int),
            kept@ == entities@.take(i as int).filter(near),
            gone@ == entities@.take(i as int).filter(far).map_values(handle_of()),
        decreases entities.len() - i,
    {
        let entity = entities[i];
        proof {
            let seen = entities@.take(i as int);
            assert(entities@.take(i + 1) =~= seen.push(entity));
            seen.lemma_filter_push(entity, near);
            seen.lemma_filter_push(entity, far);
        }
        if entity.coordinate.distance(&center) <= radius as i64 {
            kept.push(entity);
        } else {
            gone.push(entity.handle);
        }
        i = i + 1;
    }
    assert(entities@.take(i as int) =~= entities@);
    (kept, gone)
}

/// The requests that place the chunks of `coordinates`, one for each and in
/// their order.
fn spawns<P: DecorationPolicy>(
    coordinates: &[ChunkCoordinate],
    chunk_size: i32,
    policy: &P,
) -> (requests: Vec<ChunkSpawn>)
    ensures
        requests@ == coordinates@.map_values(spawn_under(*policy, chunk_size as int)),
{
    let mut requests: Vec<ChunkSpawn> = Vec::new();
    let mut i: usize = 0;
    while i < coordinates.len()
        invariant
            i <= coordinates.len(),
            requests@ == coordinates@.take(i as int).map_values(
                spawn_under(*policy, chunk_size as int),
            ),
        decreases coordinates.len() - i,
    {
        requests.push(spawn(coordinates[i], chunk_size, policy));
        i = i + 1;
    }
    requests
}

} // verus!
