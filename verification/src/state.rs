//! The manager's state as a mathematical value, and what a tick does to it.

use vstd::prelude::*;

use crate::actions::handle_of;
use crate::actions::EntityHandle;
use crate::actions::TaggedEntity;
use crate::coordinate::chebyshev;
use crate::coordinate::ChunkCoordinate;
use crate::grid::chunk_of;
use crate::grid::WorldPosition;
use crate::reconcile::applied;
use crate::reconcile::chunks_to_create;
use crate::reconcile::chunks_to_destroy;
use crate::reconcile::law_apply_reaches_required;
use crate::reconcile::law_steady_state_needs_no_change;
use crate::required::lemma_required_seq_lists_required_set;
use crate::required::required_seq;
use crate::required::required_set;
use crate::sequences::lemma_filter_agree;
use crate::sequences::lemma_filter_keeps_keys_distinct;
use crate::sequences::lemma_filter_members;
use crate::sequences::lemma_filter_to_all;
use crate::sequences::lemma_filter_to_nothing;

verus! {

/// The test "belongs to a chunk within `radius` of `center`".
pub open spec fn within(center: ChunkCoordinate, radius: int) -> spec_fn(TaggedEntity) -> bool {
    |entity: TaggedEntity| chebyshev(entity.coordinate, center) <= radius
}

/// The test "belongs to a chunk farther than `radius` from `center`".
pub open spec fn beyond(center: ChunkCoordinate, radius: int) -> spec_fn(TaggedEntity) -> bool {
    |entity: TaggedEntity| chebyshev(entity.coordinate, center) > radius
}

/// The test "belongs to the chunk at `coordinate`".
pub open spec fn tagged_with(coordinate: ChunkCoordinate) -> spec_fn(TaggedEntity) -> bool {
    |entity: TaggedEntity| entity.coordinate == coordinate
}

/// All that a streaming manager knows.
pub struct ManagerState {
    /// The edge length of a chunk in world units.
    pub chunk_size: int,
    /// How far from the reference chunk chunks are kept.
    pub render_distance: int,
    /// The chunk that held the reference point at the last tick that had one.
    pub reference: Option<ChunkCoordinate>,
    /// The chunks that exist.
    pub active: Seq<ChunkCoordinate>,
    /// The placed things, each with its chunk.
    pub entities: Seq<TaggedEntity>,
}

impl ManagerState {
    /// The state of a manager that has seen no reference point yet.
    pub open spec fn initial(chunk_size: int, render_distance: int) -> ManagerState {
        ManagerState {
            chunk_size,
            render_distance,
            reference: None,
            active: Seq::empty(),
            entities: Seq::empty(),
        }
    }

    /// The chunks that exist, as a set.
    pub open spec fn active_set(self) -> Set<ChunkCoordinate> {
        self.active.to_set()
    }

    /// Whether some placed thing goes by `handle`.
    pub open spec fn holds_handle(self, handle: EntityHandle) -> bool {
        self.entities.map_values(handle_of()).contains(handle)
    }

    /// The handles of all that is placed.
    pub open spec fn handles(self) -> Set<EntityHandle> {
        self.entities.map_values(handle_of()).to_set()
    }

    /// The handles of what is placed in the chunk at `coordinate`.
    pub open spec fn handles_in(self, coordinate: ChunkCoordinate) -> Seq<EntityHandle> {
        self.entities.filter(tagged_with(coordinate)).map_values(handle_of())
    }

    /// What holds of the state of every manager at every moment: the
    /// configuration is sound; no chunk is listed twice; the chunks that
    /// exist are those within the render distance of the reference chunk,
    /// or none before the first reference point was seen; every placed
    /// thing belongs to a chunk that exists; and no handle is held twice.
    pub open spec fn valid(self) -> bool {
        &&& 0 < self.chunk_size <= i32::MAX
        &&& 0 <= self.render_distance <= i32::MAX
        &&& self.active.no_duplicates()
        &&& match self.reference {
            Some(center) => self.active_set() == required_set(center, self.render_distance),
            None => self.active == Seq::<ChunkCoordinate>::empty(),
        }
        &&& forall|i: int|
            0 <= i < self.entities.len() ==> self.active.contains(
                #[trigger] self.entities[i].coordinate,
            )
        &&& self.entities.map_values(handle_of()).no_duplicates()
    }

    /// The chunks that a tick at `position` requires, in listing order.
    pub open spec fn required_at(self, position: WorldPosition) -> Seq<ChunkCoordinate> {
        required_seq(chunk_of(position, self.chunk_size), self.render_distance)
    }

    /// The state after a tick. Without a reference point nothing changes.
    /// With one, the chunks out of range go, the missing ones are added
    /// behind those that stay, and the things placed in the chunks that
    /// went are forgotten.
    pub open spec fn after_tick(self, reference: Option<WorldPosition>) -> ManagerState {
        match reference {
            None => self,
            Some(position) => {
                let center = chunk_of(position, self.chunk_size);
                let required = self.required_at(position);
                ManagerState {
                    chunk_size: self.chunk_size,
                    render_distance: self.render_distance,
                    reference: Some(center),
                    active: applied(
                        self.active,
                        chunks_to_create(self.active, required),
                        chunks_to_destroy(self.active, required),
                    ),
                    entities: self.entities.filter(within(center, self.render_distance)),
                }
            },
        }
    }

    /// The chunks that a tick creates, in the order of the listing of the
    /// required chunks.
    pub open spec fn created_by_tick(self, reference: Option<WorldPosition>) -> Seq<
        ChunkCoordinate,
    > {
        match reference {
            None => Seq::empty(),
            Some(position) => chunks_to_create(self.active, self.required_at(position)),
        }
    }

    /// The handles that a tick destroys: those of the things placed in
    /// chunks that are out of range, in the order in which they were
    /// recorded.
    pub open spec fn destroyed_by_tick(self, reference: Option<WorldPosition>) -> Seq<
        EntityHandle,
    > {
        match reference {
            None => Seq::empty(),
            Some(position) => self.entities.filter(
                beyond(chunk_of(position, self.chunk_size), self.render_distance),
            ).map_values(handle_of()),
        }
    }

    /// The state after `handle` was recorded for the chunk at `coordinate`.
    pub open spec fn after_record(
        self,
        coordinate: ChunkCoordinate,
        handle: EntityHandle,
    ) -> ManagerState {
        ManagerState {
            chunk_size: self.chunk_size,
            render_distance: self.render_distance,
            reference: self.reference,
            active: self.active,
            entities: self.entities.push(TaggedEntity { coordinate, handle }),
        }
    }

    /// The state after a whole walk of the reference point, one tick for
    /// each of its steps.
    pub open spec fn after_walk(self, walk: Seq<Option<WorldPosition>>) -> ManagerState
        decreases walk.len(),
    {
        if walk.len() == 0 {
            self
        } else {
            self.after_walk(walk.drop_last()).after_tick(walk.last())
        }
    }
}

/// After a tick that had a reference point, the chunks that exist are
/// exactly those within the render distance of the chunk that holds it,
/// whatever existed before.
pub proof fn law_tick_restores_window(state: ManagerState, position: WorldPosition)
    ensures
        state.after_tick(Some(position)).reference == Some(chunk_of(position, state.chunk_size)),
        state.after_tick(Some(position)).active_set() == required_set(
            chunk_of(position, state.chunk_size),
            state.render_distance,
        ),
{
    let center = chunk_of(position, state.chunk_size);
    lemma_required_seq_lists_required_set(center, state.render_distance);
    law_apply_reaches_required(state.active, state.required_at(position));
}

/// A tick leaves a valid state valid.
pub proof fn law_tick_keeps_valid(state: ManagerState, reference: Option<WorldPosition>)
    requires
        state.valid(),
    ensures
        state.after_tick(reference).valid(),
{
    if let Some(position) = reference {
        let center = chunk_of(position, state.chunk_size);
        let radius = state.render_distance;
        let next = state.after_tick(reference);
        lemma_required_seq_lists_required_set(center, radius);
        law_apply_reaches_required(state.active, state.required_at(position));
        assert forall|i: int| 0 <= i < next.entities.len() implies next.active.contains(
            #[trigger] next.entities[i].coordinate,
        ) by {
            let entity = next.entities[i];
            assert(required_set(center, radius).contains(entity.coordinate));
        }
        lemma_filter_keeps_keys_distinct(state.entities, handle_of(), within(center, radius));
    }
}

/// After every tick of any walk the state is valid; after a tick with a
/// reference point the chunks that exist are those within the render
/// distance of the chunk that holds it.
pub proof fn law_walk_keeps_window(state: ManagerState, walk: Seq<Option<WorldPosition>>)
    requires
        state.valid(),
    ensures
        state.after_walk(walk).valid(),
        walk.len() > 0 ==> match walk.last() {
            Some(position) => state.after_walk(walk).active_set() == required_set(
                chunk_of(position, state.chunk_size),
                state.render_distance,
            ),
            None => state.after_walk(walk) == state.after_walk(walk.drop_last()),
        },
    decreases walk.len(),
{
    if walk.len() > 0 {
        let before = state.after_walk(walk.drop_last());
        law_walk_keeps_window(state, walk.drop_last());
        lemma_walk_keeps_configuration(state, walk.drop_last());
        law_tick_keeps_valid(before, walk.last());
    }
}

/// No tick changes the chunk size or the render distance.
pub proof fn lemma_walk_keeps_configuration(state: ManagerState, walk: Seq<Option<WorldPosition>>)
    ensures
        state.after_walk(walk).chunk_size == state.chunk_size,
        state.after_walk(walk).render_distance == state.render_distance,
    decreases walk.len(),
{
    if walk.len() > 0 {
        lemma_walk_keeps_configuration(state, walk.drop_last());
    }
}

/// A tick whose reference point lies in the reference chunk of the tick
/// before changes nothing: it creates nothing, destroys nothing and leaves
/// the state as it is.
pub proof fn law_tick_in_same_chunk_changes_nothing(state: ManagerState, position: WorldPosition)
    requires
        state.valid(),
        state.reference == Some(chunk_of(position, state.chunk_size)),
    ensures
        state.after_tick(Some(position)) == state,
        state.created_by_tick(Some(position)) == Seq::<ChunkCoordinate>::empty(),
        state.destroyed_by_tick(Some(position)) == Seq::<EntityHandle>::empty(),
{
    let center = chunk_of(position, state.chunk_size);
    let radius = state.render_distance;
    let required = state.required_at(position);
    lemma_required_seq_lists_required_set(center, radius);
    law_steady_state_needs_no_change(state.active, required);
    let nothing = Seq::<ChunkCoordinate>::empty();
    lemma_filter_to_all(state.active, crate::reconcile::absent_from(nothing));
    assert forall|entity: TaggedEntity| state.entities.contains(entity) implies within(
        center,
        radius,
    )(entity) by {
        let i = state.entities.index_of(entity);
        assert(state.active.contains(state.entities[i].coordinate));
        assert(state.active_set().contains(entity.coordinate));
    }
    lemma_filter_to_all(state.entities, within(center, radius));
    lemma_filter_to_nothing(state.entities, beyond(center, radius));
}

/// A second tick at the same reference point finds nothing left to do.
pub proof fn law_second_tick_does_nothing(state: ManagerState, position: WorldPosition)
    requires
        state.valid(),
    ensures
        state.after_tick(Some(position)).after_tick(Some(position)) == state.after_tick(
            Some(position),
        ),
        state.after_tick(Some(position)).created_by_tick(Some(position)) == Seq::<
            ChunkCoordinate,
        >::empty(),
        state.after_tick(Some(position)).destroyed_by_tick(Some(position)) == Seq::<
            EntityHandle,
        >::empty(),
{
    law_tick_keeps_valid(state, Some(position));
    law_tick_in_same_chunk_changes_nothing(state.after_tick(Some(position)), position);
}

/// The test "belongs to one of the chunks of `list`".
pub open spec fn tagged_with_any(list: Seq<ChunkCoordinate>) -> spec_fn(TaggedEntity) -> bool {
    |entity: TaggedEntity| list.contains(entity.coordinate)
}

/// The test "belongs to none of the chunks of `list`".
pub open spec fn tagged_with_none(list: Seq<ChunkCoordinate>) -> spec_fn(TaggedEntity) -> bool {
    |entity: TaggedEntity| !list.contains(entity.coordinate)
}

/// What a tick destroys is what was placed in the chunks that it drops, and
/// what it keeps is what was placed in the others.
pub proof fn law_tick_destroys_what_dropped_chunks_held(
    state: ManagerState,
    position: WorldPosition,
)
    requires
        state.valid(),
    ensures
        state.destroyed_by_tick(Some(position)) == state.entities.filter(
            tagged_with_any(chunks_to_destroy(state.active, state.required_at(position))),
        ).map_values(handle_of()),
        state.after_tick(Some(position)).entities == state.entities.filter(
            tagged_with_none(chunks_to_destroy(state.active, state.required_at(position))),
        ),
{
    let center = chunk_of(position, state.chunk_size);
    let radius = state.render_distance;
    let required = state.required_at(position);
    let dropped = chunks_to_destroy(state.active, required);
    let stays = tagged_with_none(dropped);
    lemma_required_seq_lists_required_set(center, radius);
    assert forall|entity: TaggedEntity| state.entities.contains(entity) implies beyond(
        center,
        radius,
    )(entity) == tagged_with_any(dropped)(entity) && within(center, radius)(entity) == stays(
        entity,
    ) by {
        let i = state.entities.index_of(entity);
        assert(state.active.contains(state.entities[i].coordinate));
        assert(required.to_set().contains(entity.coordinate) == required.contains(
            entity.coordinate,
        ));
    }
    lemma_filter_agree(state.entities, beyond(center, radius), tagged_with_any(dropped));
    lemma_filter_agree(state.entities, within(center, radius), stays);
}

/// A tick destroys no handle twice, destroys nothing that it keeps, and
/// every handle that was held is afterwards either kept or destroyed.
pub proof fn law_tick_destroys_each_handle_once(state: ManagerState, position: WorldPosition)
    requires
        state.valid(),
    ensures
        state.destroyed_by_tick(Some(position)).no_duplicates(),
        state.handles() == state.after_tick(Some(position)).handles().union(
            state.destroyed_by_tick(Some(position)).to_set(),
        ),
        state.after_tick(Some(position)).handles().disjoint(
            state.destroyed_by_tick(Some(position)).to_set(),
        ),
{
    let center = chunk_of(position, state.chunk_size);
    let radius = state.render_distance;
    let kept = state.entities.filter(within(center, radius));
    let gone = state.entities.filter(beyond(center, radius));
    lemma_filter_keeps_keys_distinct(state.entities, handle_of(), beyond(center, radius));
    lemma_filter_members(state.entities, within(center, radius));
    lemma_filter_members(state.entities, beyond(center, radius));
    let all_handles = state.entities.map_values(handle_of());
    let kept_handles = kept.map_values(handle_of());
    let gone_handles = gone.map_values(handle_of());
    assert forall|handle: EntityHandle|
        all_handles.contains(handle) <==> (kept_handles.contains(handle) || gone_handles.contains(
            handle,
        )) by {
        if all_handles.contains(handle) {
            let i = all_handles.index_of(handle);
            let entity = state.entities[i];
            if within(center, radius)(entity) {
                assert(kept.contains(entity));
                let k = kept.index_of(entity);
                assert(kept_handles[k] == handle);
            } else {
                assert(gone.contains(entity));
                let k = gone.index_of(entity);
                assert(gone_handles[k] == handle);
            }
        }
        if kept_handles.contains(handle) {
            let k = kept_handles.index_of(handle);
            assert(kept.contains(kept[k]));
            let i = state.entities.index_of(kept[k]);
            assert(all_handles[i] == handle);
        }
        if gone_handles.contains(handle) {
            let k = gone_handles.index_of(handle);
            assert(gone.contains(gone[k]));
            let i = state.entities.index_of(gone[k]);
            assert(all_handles[i] == handle);
        }
    }
    assert forall|handle: EntityHandle|
        !(kept_handles.contains(handle) && gone_handles.contains(handle)) by {
        if kept_handles.contains(handle) && gone_handles.contains(handle) {
            let k = kept_handles.index_of(handle);
            let g = gone_handles.index_of(handle);
            assert(kept.contains(kept[k]));
            assert(gone.contains(gone[g]));
            let i = state.entities.index_of(kept[k]);
            let j = state.entities.index_of(gone[g]);
            assert(all_handles[i] == handle);
            assert(all_handles[j] == handle);
        }
    }
}

} // verus!
