//! What the manager asks its host to do, and what the host reports back.

use vstd::prelude::*;

use crate::coordinate::ChunkCoordinate;
use crate::decoration::decoration_variant;
use crate::decoration::variant_of;
use crate::decoration::DecorationPolicy;
use crate::grid::chunk_origin;
use crate::grid::origin_of;
use crate::grid::WorldPosition;

verus! {

/// The host's name for one thing that it has placed in the world. The
/// manager compares handles and hands them back; it never looks inside.
#[derive(Clone, Copy, Debug, PartialEq, Eq, Hash, Structural)]
pub struct EntityHandle {
    pub id: u64,
}

/// A placed thing together with the chunk that it belongs to.
#[derive(Clone, Copy, Debug, PartialEq, Eq, Structural)]
pub struct TaggedEntity {
    pub coordinate: ChunkCoordinate,
    pub handle: EntityHandle,
}

/// The request to place one chunk: where its corner lies, how long its edge
/// is, and which variant of the decoration goes with it, if any.
#[derive(Clone, Copy, Debug, PartialEq, Eq)]
pub struct ChunkSpawn {
    pub coordinate: ChunkCoordinate,
    pub origin: WorldPosition,
    pub size: i32,
    pub decoration: Option<u8>,
}

/// What one tick asks for: the handles to destroy, then the chunks to place.
#[derive(Debug)]
pub struct TickActions {
    pub destroy: Vec<EntityHandle>,
    pub create: Vec<ChunkSpawn>,
}

/// The request that places the chunk at `coordinate` under `policy`.
pub open spec fn spawn_for<P: DecorationPolicy>(
    policy: P,
    size: int,
    coordinate: ChunkCoordinate,
) -> ChunkSpawn {
    ChunkSpawn {
        coordinate,
        origin: origin_of(coordinate, size),
        size: size as i32,
        decoration: if policy.decorates(coordinate) {
            Some(variant_of(coordinate) as u8)
        } else {
            None
        },
    }
}

/// `spawn_for` as a function of the coordinate alone.
pub open spec fn spawn_under<P: DecorationPolicy>(policy: P, size: int) -> spec_fn(
    ChunkCoordinate,
) -> ChunkSpawn {
    |coordinate: ChunkCoordinate| spawn_for(policy, size, coordinate)
}

/// The handle of a tagged entity.
pub open spec fn handle_of() -> spec_fn(TaggedEntity) -> EntityHandle {
    |entity: TaggedEntity| entity.handle
}

/// The request that places the chunk at `coordinate`: its corner lies at the
/// coordinate times the chunk size, and `policy` says whether it is
/// decorated.
pub fn spawn<P: DecorationPolicy>(
    coordinate: ChunkCoordinate,
    chunk_size: i32,
    policy: &P,
) -> (request: ChunkSpawn)
    ensures
        request == spawn_for(*policy, chunk_size as int, coordinate),
{
    let decoration = if policy.should_decorate(coordinate) {
        Some(decoration_variant(coordinate))
    } else {
        None
    };
    ChunkSpawn {
        coordinate,
        origin: chunk_origin(coordinate, chunk_size),
        size: chunk_size,
        decoration,
    }
}

} // verus!
