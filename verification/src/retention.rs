//! What a dispatch finds in a buffer: a logical buffer keeps its storage from one
//! dispatch that binds it to the next.
use vstd::prelude::*;
use crate::batch::aliased;
use crate::batch::binding_freed;
use crate::batch::binding_materialized;
use crate::batch::finished_with;
use crate::batch::inplace_eligible;
use crate::batch::preferred_at;
use crate::batch::resolved_binding;
use crate::batch::resolved_step;
use crate::batch::sole_reference;
use crate::batch::BatchState;
use crate::buffer::buffers_known;
use crate::buffer::record_buffers;
use crate::buffer::uses;
use crate::buffer::BufferReference;
use crate::cache::materialized;
use crate::cache::released;
use crate::flush::lemma_between_joins;
use crate::flush::state_between;
use crate::pool::CachedBuffer;
use crate::queue::BufferReferenceId;
use crate::queue::CachedBufferId;
use crate::queue::MlQueueDispatch;

verus! {

/// Giving the first `k` buffers of a binding storage keeps the number of logical buffers,
/// leaves every buffer that has storage as it is, and gives each of the `k` storage.
proof fn lemma_materialized_keeps(
    references: Seq<BufferReference>,
    pool: Seq<CachedBuffer>,
    buffers: Seq<BufferReferenceId>,
    preferred: Option<CachedBufferId>,
    k: int,
)
    requires
        0 <= k <= buffers.len(),
        forall|m: int| 0 <= m < buffers.len() ==> (#[trigger] buffers[m]) < references.len(),
    ensures
        binding_materialized(references, pool, buffers, preferred, k).0.len() == references.len(),
        forall|b: int|
            0 <= b < references.len() && (#[trigger] references[b]).storage is Some
                ==> binding_materialized(references, pool, buffers, preferred, k).0[b]
                == references[b],
        forall|m: int|
            0 <= m < k ==> binding_materialized(references, pool, buffers, preferred, k).0[(
            #[trigger] buffers[m]) as int].storage is Some,
    decreases k,
{
    if k > 0 {
        lemma_materialized_keeps(references, pool, buffers, preferred, k - 1);
        let before = binding_materialized(references, pool, buffers, preferred, k - 1);
        let buffer = buffers[k - 1] as int;
        let next = materialized(
            before.0,
            before.1,
            buffer,
            if k == 1 {
                preferred
            } else {
                None
            },
        );
        assert(binding_materialized(references, pool, buffers, preferred, k).0 == next.0);
        assert forall|m: int| 0 <= m < k implies next.0[(#[trigger] buffers[m]) as int].storage
            is Some by {
            if m < k - 1 {
                assert(before.0[buffers[m] as int].storage is Some);
            }
        }
    }
}

/// Putting back the storage of the buffers that are finished with the dispatch at place
/// `index` keeps the number of logical buffers, and leaves a buffer that a later
/// dispatch binds as it is.
proof fn lemma_freed_keeps(
    references: Seq<BufferReference>,
    pool: Seq<CachedBuffer>,
    records: Seq<MlQueueDispatch>,
    index: int,
    k: int,
    later: int,
    b: BufferReferenceId,
)
    requires
        0 <= index < records.len(),
        0 <= k <= record_buffers(records[index]).len(),
        forall|m: int|
            0 <= m < record_buffers(records[index]).len() ==> (#[trigger] record_buffers(
                records[index],
            )[m]) < references.len(),
        b < references.len(),
        later > index,
        uses(records, later, b),
    ensures
        binding_freed(references, pool, records, index, k).0.len() == references.len(),
        binding_freed(references, pool, records, index, k).0[b as int] == references[b as int],
    decreases k,
{
    if k > 0 {
        lemma_freed_keeps(references, pool, records, index, k - 1, later, b);
        let before = binding_freed(references, pool, records, index, k - 1);
        let buffer = record_buffers(records[index])[k - 1];
        if finished_with(before.0, records, index, buffer) {
            assert(!uses(records, later, buffer));
            assert(buffer != b);
            assert(released(before.0, before.1, buffer as int).0[b as int] == before.0[b as int]);
        }
    }
}

/// Resolving the dispatch at place `index` keeps the number of logical buffers. A buffer
/// that a later dispatch binds keeps the storage it has, and has storage afterwards if
/// this dispatch binds it.
proof fn lemma_step_keeps_storage(
    state: BatchState,
    records: Seq<MlQueueDispatch>,
    index: int,
    max_bindgroups: int,
    later: int,
    b: BufferReferenceId,
)
    requires
        0 <= index < later,
        index < records.len(),
        records[index].bindgroup is BindgroupReference,
        buffers_known(records, state.references.len() as int),
        uses(records, later, b),
    ensures
        resolved_step(state, records, index, max_bindgroups).0.references.len()
            == state.references.len(),
        state.references[b as int].storage is Some ==> resolved_step(
            state,
            records,
            index,
            max_bindgroups,
        ).0.references[b as int].storage == state.references[b as int].storage,
        uses(records, index, b) ==> resolved_step(
            state,
            records,
            index,
            max_bindgroups,
        ).0.references[b as int].storage is Some,
{
    reveal(resolved_step);
    let own = records[index].bindgroup->BindgroupReference_0;
    let inplace = inplace_eligible(state.references, records, index);
    let bound = resolved_binding(own, inplace);
    assert(record_buffers(records[index]) == own.buffers());
    assert forall|m: int| 0 <= m < own.buffers().len() implies (#[trigger] own.buffers()[m])
        < state.references.len() by {
        assert(uses(records, index, own.buffers()[m]));
    }
    assert forall|m: int| 0 <= m < bound.buffers().len() implies (#[trigger] bound.buffers()[m])
        < state.references.len() by {
        if inplace {
            assert(bound.buffers()[m] == own.buffers()[1]);
        }
    }
    let stored = binding_materialized(
        state.references,
        state.pool,
        bound.buffers(),
        preferred_at(state.storages, index),
        bound.buffers().len() as int,
    );
    lemma_materialized_keeps(
        state.references,
        state.pool,
        bound.buffers(),
        preferred_at(state.storages, index),
        bound.buffers().len() as int,
    );
    assert(b < state.references.len());
    let settled = if inplace {
        aliased(stored.0, own.buffers()[0] as int, own.buffers()[1] as int)
    } else {
        stored.0
    };
    if inplace {
        let dest = own.buffers()[0];
        let source = own.buffers()[1];
        assert(sole_reference(state.references, records, index, source));
        assert(!uses(records, later, source));
        assert(b != source);
        assert(bound.buffers()[0] == source);
        assert(stored.0[source as int].storage is Some);
        if uses(records, index, b) {
            assert(own.buffers().contains(b));
            assert(b == dest);
        }
    } else {
        if uses(records, index, b) {
            let m = choose|m: int| 0 <= m < own.buffers().len() && own.buffers()[m] == b;
            assert(stored.0[bound.buffers()[m] as int].storage is Some);
        }
    }
    assert(settled.len() == state.references.len());
    lemma_freed_keeps(
        settled,
        stored.1,
        records,
        index,
        own.buffers().len() as int,
        later,
        b,
    );
}

/// Resolving a stretch of the queue keeps the number of logical buffers, and a buffer
/// that a dispatch behind the stretch binds keeps the storage it has.
proof fn lemma_between_keeps_storage(
    state: BatchState,
    records: Seq<MlQueueDispatch>,
    max_bindgroups: int,
    from: int,
    to: int,
    later: int,
    b: BufferReferenceId,
)
    requires
        0 <= from <= to <= later,
        forall|k: int| from <= k < to ==> (#[trigger] records[k]).bindgroup is BindgroupReference,
        buffers_known(records, state.references.len() as int),
        uses(records, later, b),
    ensures
        state_between(state, records, max_bindgroups, from, to).references.len()
            == state.references.len(),
        state.references[b as int].storage is Some ==> state_between(
            state,
            records,
            max_bindgroups,
            from,
            to,
        ).references[b as int].storage == state.references[b as int].storage,
    decreases to - from,
{
    if to > from {
        lemma_between_keeps_storage(state, records, max_bindgroups, from, to - 1, later, b);
        lemma_step_keeps_storage(
            state_between(state, records, max_bindgroups, from, to - 1),
            records,
            to - 1,
            max_bindgroups,
            later,
            b,
        );
    }
}

/// A dispatch finds what earlier dispatches wrote: a logical buffer that the dispatches
/// at the places `i` and `j` bind, `i` before `j`, has storage once the dispatch at `i`
/// is resolved, and has that same storage when the dispatch at `j` is about to be
/// resolved.
pub proof fn lemma_storage_kept_between_uses(
    begin: BatchState,
    records: Seq<MlQueueDispatch>,
    max_bindgroups: int,
    i: int,
    j: int,
    b: BufferReferenceId,
)
    requires
        0 <= i < j < records.len(),
        forall|k: int| 0 <= k < j ==> (#[trigger] records[k]).bindgroup is BindgroupReference,
        buffers_known(records, begin.references.len() as int),
        uses(records, i, b),
        uses(records, j, b),
    ensures
        state_between(begin, records, max_bindgroups, 0, i + 1).references[b as int].storage
            is Some,
        state_between(begin, records, max_bindgroups, 0, j).references[b as int].storage
            == state_between(begin, records, max_bindgroups, 0, i + 1).references[b
            as int].storage,
    decreases j - i,
{
    let at_i = state_between(begin, records, max_bindgroups, 0, i);
    lemma_between_keeps_storage(begin, records, max_bindgroups, 0, i, j, b);
    lemma_step_keeps_storage(at_i, records, i, max_bindgroups, j, b);
    let after_i = state_between(begin, records, max_bindgroups, 0, i + 1);
    assert(after_i == resolved_step(at_i, records, i, max_bindgroups).0);
    lemma_between_joins(begin, records, max_bindgroups, 0, i + 1, j);
    lemma_between_keeps_storage(after_i, records, max_bindgroups, i + 1, j, j, b);
}

} // verus!
