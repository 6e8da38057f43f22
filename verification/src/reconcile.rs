//! Bringing the chunks that exist in line with the chunks that are required.

use vstd::prelude::*;

use crate::coordinate::ChunkCoordinate;
use crate::required::law_radius_zero_is_reference_alone;
use crate::required::required_seq;
use crate::sequences::lemma_filter_keeps_distinct;
use crate::sequences::lemma_filter_members;
use crate::sequences::lemma_filter_to_all;
use crate::sequences::lemma_filter_to_nothing;

verus! {

/// The test "does not occur in `list`".
pub open spec fn absent_from(list: Seq<ChunkCoordinate>) -> spec_fn(ChunkCoordinate) -> bool {
    |c: ChunkCoordinate| !list.contains(c)
}

/// The chunks to create: those of `required` that are not in `active`, in
/// the order of `required`.
pub open spec fn chunks_to_create(
    active: Seq<ChunkCoordinate>,
    required: Seq<ChunkCoordinate>,
) -> Seq<ChunkCoordinate> {
    required.filter(absent_from(active))
}

/// The chunks to destroy: those of `active` that are not in `required`, in
/// the order of `active`.
pub open spec fn chunks_to_destroy(
    active: Seq<ChunkCoordinate>,
    required: Seq<ChunkCoordinate>,
) -> Seq<ChunkCoordinate> {
    active.filter(absent_from(required))
}

/// What is active once `destroy` has been taken away and `create` added:
/// the survivors in their old order, then the new chunks.
pub open spec fn applied(
    active: Seq<ChunkCoordinate>,
    create: Seq<ChunkCoordinate>,
    destroy: Seq<ChunkCoordinate>,
) -> Seq<ChunkCoordinate> {
    active.filter(absent_from(destroy)) + create
}

/// The two lists of changes that one reconciliation yields.
#[derive(Debug)]
pub struct Reconciliation {
    pub to_create: Vec<ChunkCoordinate>,
    pub to_destroy: Vec<ChunkCoordinate>,
}

/// As sets, the changes are the two differences of the required and the
/// active chunks.
pub proof fn law_reconcile_is_set_difference(
    active: Seq<ChunkCoordinate>,
    required: Seq<ChunkCoordinate>,
)
    ensures
        chunks_to_create(active, required).to_set() == required.to_set().difference(
            active.to_set(),
        ),
        chunks_to_destroy(active, required).to_set() == active.to_set().difference(
            required.to_set(),
        ),
        required.no_duplicates() ==> chunks_to_create(active, required).no_duplicates(),
        active.no_duplicates() ==> chunks_to_destroy(active, required).no_duplicates(),
{
    lemma_filter_members(required, absent_from(active));
    lemma_filter_members(active, absent_from(required));
    if required.no_duplicates() {
        lemma_filter_keeps_distinct(required, absent_from(active));
    }
    if active.no_duplicates() {
        lemma_filter_keeps_distinct(active, absent_from(required));
    }
}

/// No chunk is both created and destroyed in one reconciliation. Nothing
/// that is active is created, nothing that is absent is destroyed, and a
/// chunk that is still required is left alone.
pub proof fn law_reconcile_changes_disjoint(
    active: Seq<ChunkCoordinate>,
    required: Seq<ChunkCoordinate>,
)
    ensures
        chunks_to_create(active, required).to_set().disjoint(
            chunks_to_destroy(active, required).to_set(),
        ),
        chunks_to_create(active, required).to_set().disjoint(active.to_set()),
        chunks_to_create(active, required).to_set().subset_of(required.to_set()),
        chunks_to_destroy(active, required).to_set().subset_of(active.to_set()),
        chunks_to_destroy(active, required).to_set().disjoint(required.to_set()),
{
    law_reconcile_is_set_difference(active, required);
}

/// Applying the changes of a reconciliation makes the active chunks equal
/// the required ones. Where neither list held a chunk twice, the new list
/// of active chunks holds none twice.
pub proof fn law_apply_reaches_required(
    active: Seq<ChunkCoordinate>,
    required: Seq<ChunkCoordinate>,
)
    ensures
        applied(
            active,
            chunks_to_create(active, required),
            chunks_to_destroy(active, required),
        ).to_set() == required.to_set(),
        active.no_duplicates() && required.no_duplicates() ==> applied(
            active,
            chunks_to_create(active, required),
            chunks_to_destroy(active, required),
        ).no_duplicates(),
{
    let create = chunks_to_create(active, required);
    let destroy = chunks_to_destroy(active, required);
    let kept = active.filter(absent_from(destroy));
    lemma_filter_members(required, absent_from(active));
    lemma_filter_members(active, absent_from(destroy));
    assert forall|c: ChunkCoordinate| (kept + create).contains(c) <==> required.contains(c) by {
        if (kept + create).contains(c) {
            let i = choose|i: int| 0 <= i < (kept + create).len() && (kept + create)[i] == c;
            if i < kept.len() {
                assert(kept.contains(kept[i]));
            } else {
                assert(create.contains(create[i - kept.len()]));
            }
        }
        if required.contains(c) {
            if active.contains(c) {
                assert(kept.contains(c));
                let i = choose|i: int| 0 <= i < kept.len() && kept[i] == c;
                assert((kept + create)[i] == c);
            } else {
                assert(create.contains(c));
                let i = choose|i: int| 0 <= i < create.len() && create[i] == c;
                assert((kept + create)[kept.len() + i] == c);
            }
        }
    }
    if active.no_duplicates() && required.no_duplicates() {
        lemma_filter_keeps_distinct(active, absent_from(destroy));
        lemma_filter_keeps_distinct(required, absent_from(active));
        assert forall|i: int, j: int| 0 <= i < kept.len() && 0 <= j < create.len() implies kept[i]
            != create[j] by {
            assert(kept.contains(kept[i]));
        }
    }
}

/// The order of the two steps does not matter: creating first and
/// destroying second leaves the same set of chunks as destroying first and
/// creating second.
pub proof fn law_apply_order_irrelevant(
    active: Seq<ChunkCoordinate>,
    required: Seq<ChunkCoordinate>,
)
    ensures
        active.to_set().union(chunks_to_create(active, required).to_set()).difference(
            chunks_to_destroy(active, required).to_set(),
        ) == active.to_set().difference(chunks_to_destroy(active, required).to_set()).union(
            chunks_to_create(active, required).to_set(),
        ),
        active.to_set().union(chunks_to_create(active, required).to_set()).difference(
            chunks_to_destroy(active, required).to_set(),
        ) == required.to_set(),
{
    law_reconcile_is_set_difference(active, required);
}

/// Where the active chunks are the required ones already, there is nothing
/// to create and nothing to destroy.
pub proof fn law_steady_state_needs_no_change(
    active: Seq<ChunkCoordinate>,
    required: Seq<ChunkCoordinate>,
)
    requires
        active.to_set() == required.to_set(),
    ensures
        chunks_to_create(active, required) == Seq::<ChunkCoordinate>::empty(),
        chunks_to_destroy(active, required) == Seq::<ChunkCoordinate>::empty(),
{
    assert forall|c: ChunkCoordinate| active.contains(c) <==> required.contains(c) by {
        assert(active.to_set().contains(c) <==> active.contains(c));
    }
    lemma_filter_to_nothing(required, absent_from(active));
    lemma_filter_to_nothing(active, absent_from(required));
}

/// Reconciling, applying the changes and reconciling again against the same
/// required chunks finds nothing left to do.
pub proof fn law_reconcile_idempotent(
    active: Seq<ChunkCoordinate>,
    required: Seq<ChunkCoordinate>,
)
    ensures
        ({
            let next = applied(
                active,
                chunks_to_create(active, required),
                chunks_to_destroy(active, required),
            );
            &&& chunks_to_create(next, required) == Seq::<ChunkCoordinate>::empty()
            &&& chunks_to_destroy(next, required) == Seq::<ChunkCoordinate>::empty()
        }),
{
    law_apply_reaches_required(active, required);
    let next = applied(
        active,
        chunks_to_create(active, required),
        chunks_to_destroy(active, required),
    );
    law_steady_state_needs_no_change(next, required);
}

/// With a render distance of zero, a move of the reference chunk creates
/// exactly the one chunk that it moves to and destroys exactly the one that
/// it leaves; where it stays put, nothing changes.
pub proof fn law_radius_zero_moves_one_chunk(from: ChunkCoordinate, to: ChunkCoordinate)
    ensures
        from != to ==> chunks_to_create(required_seq(from, 0), required_seq(to, 0)) == seq![to],
        from != to ==> chunks_to_destroy(required_seq(from, 0), required_seq(to, 0)) == seq![from],
        from == to ==> chunks_to_create(required_seq(from, 0), required_seq(to, 0)) == Seq::<
            ChunkCoordinate,
        >::empty(),
        from == to ==> chunks_to_destroy(required_seq(from, 0), required_seq(to, 0)) == Seq::<
            ChunkCoordinate,
        >::empty(),
{
    law_radius_zero_is_reference_alone(from);
    law_radius_zero_is_reference_alone(to);
    if from == to {
        law_steady_state_needs_no_change(seq![from], seq![to]);
    } else {
        lemma_filter_to_all(seq![to], absent_from(seq![from]));
        lemma_filter_to_all(seq![from], absent_from(seq![to]));
    }
}

/// Whether `coordinate` occurs in `list`.
pub fn contains(list: &[ChunkCoordinate], coordinate: ChunkCoordinate) -> (found: bool)
    ensures
        found == list@.contains(coordinate),
{
    let mut i: usize = 0;
    while i < list.len()
        invariant
            i <= list.len(),
            forall|k: int| 0 <= k < i ==> list@[k] != coordinate,
        decreases list.len() - i,
    {
        if list[i] == coordinate {
            return true;
        }
        i = i + 1;
    }
    false
}

/// The members of `list` that do not occur in `other`, in their order.
pub fn difference(list: &[ChunkCoordinate], other: &[ChunkCoordinate]) -> (rest: Vec<
    ChunkCoordinate,
>)
    ensures
        rest@ == list@.filter(absent_from(other@)),
{
    let mut rest: Vec<ChunkCoordinate> = Vec::new();
    let mut i: usize = 0;
    while i < list.len()
        invariant
            i <= list.len(),
            rest@ == list@.take(i as int).filter(absent_from(other@)),
        decreases list.len() - i,
    {
        let c = list[i];
        proof {
            assert(list@.take(i + 1) =~= list@.take(i as int).push(c));
            list@.take(i as int).lemma_filter_push(c, absent_from(other@));
        }
        if !contains(other, c) {
            rest.push(c);
        }
        i = i + 1;
    }
    assert(list@.take(i as int) =~= list@);
    rest
}

/// Compares the chunks that exist with the chunks that are required and
/// says which to create and which to destroy.
pub fn reconcile(active: &[ChunkCoordinate], required: &[ChunkCoordinate]) -> (changes:
    Reconciliation)
    ensures
        changes.to_create@ == chunks_to_create(active@, required@),
        changes.to_destroy@ == chunks_to_destroy(active@, required@),
        changes.to_create@.to_set() == required@.to_set().difference(active@.to_set()),
        changes.to_destroy@.to_set() == active@.to_set().difference(required@.to_set()),
        changes.to_create@.to_set().disjoint(changes.to_destroy@.to_set()),
        active@.to_set() == required@.to_set() ==> changes.to_create@.len() == 0
            && changes.to_destroy@.len() == 0,
{
    proof {
        law_reconcile_is_set_difference(active@, required@);
        if active@.to_set() == required@.to_set() {
            law_steady_state_needs_no_change(active@, required@);
        }
    }
    Reconciliation {
        to_create: difference(required, active),
        to_destroy: difference(active, required),
    }
}

/// The active chunks after `changes`: what `changes` destroys is taken out
/// of `active`, and what it creates is added at the end.
pub fn apply(active: &[ChunkCoordinate], changes: &Reconciliation) -> (next: Vec<ChunkCoordinate>)
    ensures
        next@ == applied(active@, changes.to_create@, changes.to_destroy@),
{
    let mut next = difference(active, changes.to_destroy.as_slice());
    let ghost kept = next@;
    let mut i: usize = 0;
    while i < changes.to_create.len()
        invariant
            i <= changes.to_create.len(),
            next@ == kept + changes.to_create@.take(i as int),
        decreases changes.to_create.len() - i,
    {
        next.push(changes.to_create[i]);
        i = i + 1;
    }
    next
}

} // verus!
