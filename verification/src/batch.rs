//! Batching: how queued dispatches are resolved to device objects and packed into command
//! buffers.
use vstd::prelude::*;
use crate::buffer::record_buffers;
use crate::buffer::uses;
use crate::buffer::BufferReference;
use crate::cache::alive_upto;
use crate::cache::after_removal;
use crate::cache::found_key;
use crate::cache::key_live;
use crate::cache::materialized;
use crate::cache::released;
use crate::cache::with_key;
use crate::cache::lemma_alive_upto_prefix;
use crate::cache::without_dead;
use crate::cache::CachedBindGroup;
use crate::cache::ModelCache;
use crate::kernels::Pipelines;
use crate::kernels::UnaryFunctions;
use crate::liveness::among_first;
use crate::kernels::Shaders;
use crate::pipeline::found_pipeline;
use crate::pipeline::holds_pipeline;
use crate::pipeline::with_pipeline;
use crate::pipeline::CachedPipeline;
use crate::pipeline::PipelineLookup;
use crate::pipeline::ShaderModuleComputePipelines;
use crate::pattern::noted;
use crate::pool::is_preferred_fit;
use crate::pool::CachedBuffer;
use crate::queue::BindGroupReference;
use crate::queue::BindGroupReferenceBase;
use crate::queue::BindgroupId;
use crate::queue::BufferReferenceId;
use crate::queue::CachedBindGroupReference;
use crate::queue::CachedBufferId;
use crate::queue::DispatchedBindgroup;
use crate::queue::MlQueueDispatch;
use crate::queue::PipelineType;

verus! {

/// The kernel that does in place what `pipeline` does from one buffer into another, for
/// the kernels that have such a twin: the contiguous elementwise unary ones.
pub open spec fn inplace_variant(pipeline: Pipelines) -> Option<Pipelines> {
    match pipeline {
        Pipelines::Unary(typ, UnaryFunctions::UnaryFromBufferContiguous) => Some(
            Pipelines::Unary(typ, UnaryFunctions::UnaryInplaceContiguous),
        ),
        _ => None,
    }
}

/// The kernel that does in place what `pipeline` does from one buffer into another.
pub fn get_inplace_variant(pipeline: &Pipelines) -> (r: Option<Pipelines>)
    ensures
        r == inplace_variant(*pipeline),
{
    match pipeline {
        Pipelines::Unary(typ, UnaryFunctions::UnaryFromBufferContiguous) => Some(
            Pipelines::Unary(*typ, UnaryFunctions::UnaryInplaceContiguous),
        ),
        _ => None,
    }
}

/// Whether the dispatch at place `i` holds the only reference to the logical buffer
/// `source`: no tensor refers to the buffer, and no later dispatch binds it. (That the
/// dispatch itself binds it once only is for the caller to say.)
pub open spec fn sole_reference(
    references: Seq<BufferReference>,
    records: Seq<MlQueueDispatch>,
    i: int,
    source: BufferReferenceId,
) -> bool {
    &&& !references[source as int].referenced_by_storage
    &&& forall|j: int| j > i ==> !#[trigger] uses(records, j, source)
}

/// Whether the dispatch at place `i` is rewritten to run in place. It is, if and only if
/// its kernel has an in-place twin; it binds a destination and one source, two different
/// buffers; it holds the only reference to the source; the destination is no larger than
/// the source; and the destination has no storage yet.
pub open spec fn inplace_eligible(
    references: Seq<BufferReference>,
    records: Seq<MlQueueDispatch>,
    i: int,
) -> bool {
    &&& 0 <= i < records.len()
    &&& inplace_variant(records[i].pipeline.0) is Some
    &&& records[i].bindgroup matches DispatchedBindgroup::BindgroupReference(
        BindGroupReferenceBase::Bindgroup1(dest, source),
    )
    &&& dest != source
    &&& dest < references.len()
    &&& source < references.len()
    &&& sole_reference(references, records, i, source)
    &&& references[dest as int].size <= references[source as int].size
    &&& references[dest as int].storage is None
}

/// Whether `last` tells of every logical buffer that the dispatch at place `i` binds
/// whether a later dispatch binds it too: the buffer's entry is `i` if and only if none does.
pub open spec fn last_use_known(records: Seq<MlQueueDispatch>, i: int, last: Seq<usize>) -> bool {
    forall|b: usize| #[trigger]
        uses(records, i, b) ==> b < last.len() && (last[b as int] == i <==> forall|j: int|
            j > i ==> !#[trigger] uses(records, j, b))
}

/// A dispatch is rewritten to run in place only where it holds the only reference to its
/// source and its destination is no larger than its source: no tensor refers to the
/// source, no later dispatch binds it, and the dispatch itself binds it once.
pub proof fn lemma_inplace_needs_sole_reference(
    references: Seq<BufferReference>,
    records: Seq<MlQueueDispatch>,
    i: int,
)
    requires
        inplace_eligible(references, records, i),
    ensures
        record_buffers(records[i]).len() == 2,
        record_buffers(records[i])[0] != record_buffers(records[i])[1],
        references[record_buffers(records[i])[0] as int].size
            <= references[record_buffers(records[i])[1] as int].size,
        references[record_buffers(records[i])[0] as int].storage is None,
        !references[record_buffers(records[i])[1] as int].referenced_by_storage,
        forall|j: int| j > i ==> !#[trigger] uses(records, j, record_buffers(records[i])[1]),
        inplace_variant(records[i].pipeline.0) is Some,
{
}

/// How the pool may change while dispatches are resolved: storage buffers are added and
/// change between free and in use; none changes its size, and none is deleted.
pub open spec fn pool_evolves(before: Seq<CachedBuffer>, after: Seq<CachedBuffer>) -> bool {
    &&& before.len() <= after.len()
    &&& forall|s: int|
        0 <= s < before.len() ==> (#[trigger] after[s]).size == before[s].size && (
        after[s].state is Deleted <==> before[s].state is Deleted)
    &&& forall|s: int| before.len() <= s < after.len() ==> !((#[trigger] after[s]).state is Deleted)
}

/// How the logical buffers may change while dispatches are resolved: none is added, and
/// none changes its size or whether a tensor refers to it.
pub open spec fn references_evolve(
    before: Seq<BufferReference>,
    after: Seq<BufferReference>,
) -> bool {
    &&& before.len() == after.len()
    &&& forall|b: int|
        0 <= b < before.len() ==> (#[trigger] after[b]).size == before[b].size
            && after[b].referenced_by_storage == before[b].referenced_by_storage
}

/// The logical buffers and the pool after the first `k` buffers of a binding were given
/// storage in binding order, with their storage buffers: each as [`materialized`] says,
/// the first of them preferring the `preferred` storage buffer.
pub open spec fn binding_materialized(
    references: Seq<BufferReference>,
    pool: Seq<CachedBuffer>,
    buffers: Seq<BufferReferenceId>,
    preferred: Option<CachedBufferId>,
    k: int,
) -> (Seq<BufferReference>, Seq<CachedBuffer>, Seq<CachedBufferId>)
    decreases k,
{
    if k <= 0 {
        (references, pool, Seq::<CachedBufferId>::empty())
    } else {
        let before = binding_materialized(references, pool, buffers, preferred, k - 1);
        let next = materialized(
            before.0,
            before.1,
            buffers[k - 1] as int,
            if k == 1 {
                preferred
            } else {
                None
            },
        );
        (next.0, next.1, before.2.push(next.2))
    }
}

/// The binding that names the given storage buffers in order.
pub open spec fn key_for(storages: Seq<CachedBufferId>) -> CachedBindGroupReference {
    if storages.len() == 1 {
        BindGroupReferenceBase::Bindgroup0(storages[0])
    } else if storages.len() == 2 {
        BindGroupReferenceBase::Bindgroup1(storages[0], storages[1])
    } else if storages.len() == 3 {
        BindGroupReferenceBase::Bindgroup2(storages[0], storages[1], storages[2])
    } else {
        BindGroupReferenceBase::Bindgroup3(storages[0], storages[1], storages[2], storages[3])
    }
}

/// The logical buffers and the pool after the storage of each of the first `k` buffers of
/// a binding that is finished with the dispatch at place `index` was put back into the
/// pool: of each whose last use, as `last` tells, is this dispatch and to which no tensor
/// refers.
pub open spec fn binding_released(
    references: Seq<BufferReference>,
    pool: Seq<CachedBuffer>,
    buffers: Seq<BufferReferenceId>,
    last: Seq<usize>,
    index: int,
    k: int,
) -> (Seq<BufferReference>, Seq<CachedBuffer>)
    decreases k,
{
    if k <= 0 {
        (references, pool)
    } else {
        let before = binding_released(references, pool, buffers, last, index, k - 1);
        let buffer = buffers[k - 1] as int;
        if last[buffer] == index && !before.0[buffer].referenced_by_storage {
            released(before.0, before.1, buffer)
        } else {
            before
        }
    }
}

/// Whether a logical buffer is finished with the dispatch at place `index`: no tensor
/// refers to it, and no later dispatch binds it.
pub open spec fn finished_with(
    references: Seq<BufferReference>,
    records: Seq<MlQueueDispatch>,
    index: int,
    buffer: BufferReferenceId,
) -> bool {
    &&& !references[buffer as int].referenced_by_storage
    &&& forall|j: int| j > index ==> !#[trigger] uses(records, j, buffer)
}

/// The logical buffers and the pool after the storage of each of the first `k` buffers
/// that the dispatch at place `index` binds and that is finished with it (see
/// [`finished_with`]) was put back into the pool.
pub open spec fn binding_freed(
    references: Seq<BufferReference>,
    pool: Seq<CachedBuffer>,
    records: Seq<MlQueueDispatch>,
    index: int,
    k: int,
) -> (Seq<BufferReference>, Seq<CachedBuffer>)
    decreases k,
{
    if k <= 0 {
        (references, pool)
    } else {
        let before = binding_freed(references, pool, records, index, k - 1);
        let buffer = record_buffers(records[index])[k - 1];
        if finished_with(before.0, records, index, buffer) {
            released(before.0, before.1, buffer as int)
        } else {
            before
        }
    }
}

/// Where `last` tells the last uses of the buffers that the dispatch at place `index`
/// binds, putting back the storage of those whose last use it is gives what
/// [`binding_freed`] says.
pub proof fn lemma_released_is_freed(
    references: Seq<BufferReference>,
    pool: Seq<CachedBuffer>,
    records: Seq<MlQueueDispatch>,
    last: Seq<usize>,
    index: int,
    k: int,
)
    requires
        0 <= index < records.len(),
        last_use_known(records, index, last),
        0 <= k <= record_buffers(records[index]).len(),
    ensures
        binding_released(references, pool, record_buffers(records[index]), last, index, k)
            == binding_freed(references, pool, records, index, k),
    decreases k,
{
    if k > 0 {
        lemma_released_is_freed(references, pool, records, last, index, k - 1);
        let buffer = record_buffers(records[index])[k - 1];
        assert(record_buffers(records[index]).contains(buffer));
        assert(uses(records, index, buffer));
    }
}

/// The source and destination of the in-place rewrite of the dispatch at place `index`,
/// if the dispatch is eligible for it.
pub fn unary_inplace_operands(
    references: &Vec<BufferReference>,
    records: &Vec<MlQueueDispatch>,
    index: usize,
    last: &Vec<usize>,
) -> (r: Option<(BufferReferenceId, BufferReferenceId)>)
    requires
        index < records@.len(),
        last_use_known(records@, index as int, last@),
        forall|b: usize| #[trigger] uses(records@, index as int, b) ==> b < references@.len(),
    ensures
        r is Some <==> inplace_eligible(references@, records@, index as int),
        r matches Some((dest, source)) ==> records@[index as int].bindgroup
            == DispatchedBindgroup::BindgroupReference(
            BindGroupReferenceBase::Bindgroup1(dest, source),
        ),
{
    let record: MlQueueDispatch = records[index];
    if get_inplace_variant(&record.pipeline.0).is_none() {
        return None;
    }
    match record.bindgroup {
        DispatchedBindgroup::BindgroupReference(BindGroupReferenceBase::Bindgroup1(dest,
            source)) => {
            proof {
                let buffers = record_buffers(records@[index as int]);
                assert(buffers[0] == dest && buffers[1] == source);
                assert(buffers.contains(dest) && buffers.contains(source));
                assert(uses(records@, index as int, dest));
                assert(uses(records@, index as int, source));
            }
            if dest == source {
                return None;
            }
            let d: BufferReference = references[dest];
            let s: BufferReference = references[source];
            if !s.referenced_by_storage && last[source] == index && d.size <= s.size
                && d.storage.is_none() {
                Some((dest, source))
            } else {
                None
            }
        },
        _ => None,
    }
}

/// Gives every logical buffer of a binding its storage and names the storage buffers in
/// binding order. A buffer that has storage keeps it; one without takes the best fit
/// from the pool, or a new storage buffer. The first buffer of the binding takes the
/// `preferred` storage buffer instead, where that is free and large enough.
pub fn materialize_binding(
    cache: &mut ModelCache,
    binding: &BindGroupReference,
    preferred: Option<CachedBufferId>,
) -> (r: CachedBindGroupReference)
    requires
        old(cache).wf(),
        forall|k: int|
            0 <= k < binding.buffers().len() ==>
                (#[trigger] binding.buffers()[k]) < old(cache).references@.len(),
    ensures
        final(cache).wf(),
        r.buffers().len() == binding.buffers().len(),
        forall|k: int|
            0 <= k < binding.buffers().len() ==>
                final(cache).references@[binding.buffers()[k] as int].storage
                == Some(#[trigger] r.buffers()[k]),
        forall|b: usize|
            b < old(cache).references@.len() ==> (old(cache).references@[b as int].storage
                is Some || !binding.buffers().contains(b)) ==> (
            #[trigger] final(cache).references@[b as int]).storage ==
                old(cache).references@[b as int].storage,
        key_live(r, final(cache).pool()),
        old(cache).references@[binding.buffers()[0] as int].storage is None && is_preferred_fit(
            old(cache).pool(),
            preferred,
            old(cache).references@[binding.buffers()[0] as int].size,
        ) ==> r.buffers()[0] == preferred->0,
        references_evolve(old(cache).references@, final(cache).references@),
        pool_evolves(old(cache).pool(), final(cache).pool()),
        final(cache).buffers.max_memory_allowed == old(cache).buffers.max_memory_allowed,
        final(cache).bindgroups == old(cache).bindgroups,
        final(cache).max_bindgroups == old(cache).max_bindgroups,
        final(cache).mappings == old(cache).mappings,
        (final(cache).references@, final(cache).pool(), r.buffers()) == binding_materialized(
            old(cache).references@,
            old(cache).pool(),
            binding.buffers(),
            preferred,
            binding.buffers().len() as int,
        ),
        r == key_for(r.buffers()),
{
    let len: usize = binding.len();
    let mut storages: Vec<usize> = Vec::new();
    let mut k: usize = 0;
    while k < len
        invariant
            len == binding.buffers().len(),
            k <= len,
            storages@.len() == k,
            cache.wf(),
            forall|m: int|
                0 <= m < binding.buffers().len() ==>
                    (#[trigger] binding.buffers()[m]) < cache.references@.len(),
            forall|m: int|
                0 <= m < k ==> cache.references@[binding.buffers()[m] as int].storage == Some(
                    #[trigger] storages@[m],
                ),
            forall|b: usize|
                b < old(cache).references@.len() ==> (old(cache).references@[b as int].storage
                    is Some || !among_first(binding.buffers(), k as int, b)) ==> (
                #[trigger] cache.references@[b as int]).storage ==
                    old(cache).references@[b as int].storage,
            references_evolve(old(cache).references@, cache.references@),
            pool_evolves(old(cache).pool(), cache.pool()),
            cache.buffers.max_memory_allowed == old(cache).buffers.max_memory_allowed,
            cache.bindgroups == old(cache).bindgroups,
            cache.max_bindgroups == old(cache).max_bindgroups,
            cache.mappings == old(cache).mappings,
            k == 0 ==> cache.pool() == old(cache).pool() && cache.references@ ==
                old(cache).references@,
            (cache.references@, cache.pool(), storages@) == binding_materialized(
                old(cache).references@,
                old(cache).pool(),
                binding.buffers(),
                preferred,
                k as int,
            ),
            k > 0 && old(cache).references@[binding.buffers()[0] as int].storage is None
                && is_preferred_fit(
                old(cache).pool(),
                preferred,
                old(cache).references@[binding.buffers()[0] as int].size,
            ) ==> storages@[0] == preferred->0,
        decreases len - k,
    {
        let buffer: usize = binding.get(k);
        let ghost before = cache.references@;
        let (storage, _created) = if k == 0 {
            cache.materialize_preferring(buffer, preferred)
        } else {
            cache.materialize(buffer)
        };
        storages.push(storage);
        proof {
            assert forall|b: usize|
                b < old(cache).references@.len() && (old(cache).references@[b as int].storage
                    is Some || !among_first(binding.buffers(), k + 1, b)) implies (
            #[trigger] cache.references@[b as int]).storage ==
                old(cache).references@[b as int].storage by {
                if !among_first(binding.buffers(), k + 1, b) {
                    if among_first(binding.buffers(), k as int, b) {
                        let m = choose|m: int| 0 <= m < k && #[trigger] binding.buffers()[m] == b;
                        assert(0 <= m < k + 1 && binding.buffers()[m] == b);
                    }
                    assert(b != buffer) by {
                        if b == buffer {
                            assert(binding.buffers()[k as int] == b);
                        }
                    }
                }
            }
            assert forall|m: int| 0 <=
                m < k + 1 implies cache.references@[binding.buffers()[m] as int].storage
                == Some(#[trigger] storages@[m]) by {
                if m < k {
                    assert(before[binding.buffers()[m] as int].storage == Some(storages@[m]));
                }
            }
        }
        k = k + 1;
    }
    let key: CachedBindGroupReference = if len == 1 {
        BindGroupReferenceBase::Bindgroup0(storages[0])
    } else if len == 2 {
        BindGroupReferenceBase::Bindgroup1(storages[0], storages[1])
    } else if len == 3 {
        BindGroupReferenceBase::Bindgroup2(storages[0], storages[1], storages[2])
    } else {
        BindGroupReferenceBase::Bindgroup3(storages[0], storages[1], storages[2], storages[3])
    };
    proof {
        assert(key.buffers() =~= storages@);
        assert forall|b: usize|
            b < old(cache).references@.len() && (old(cache).references@[b as int].storage is Some
                || !binding.buffers().contains(b)) implies (
        #[trigger] cache.references@[b as int]).storage ==
            old(cache).references@[b as int].storage by {
            if among_first(binding.buffers(), len as int, b) {
                let m = choose|m: int| 0 <= m < len && #[trigger] binding.buffers()[m] == b;
                assert(binding.buffers().contains(b));
            }
        }
        assert forall|m: int| 0 <= m < key.buffers().len() implies (#[trigger] key.buffers()[m])
            < cache.pool().len() && !(cache.pool()[key.buffers()[m] as int].state is Deleted) by {
            assert(cache.references@[binding.buffers()[m] as int].storage == Some(storages@[m]));
        }
    }
    key
}

/// Puts the storage of every logical buffer of a binding that is finished with the
/// dispatch at place `index` back into the pool.
pub fn release_finished(
    cache: &mut ModelCache,
    binding: &BindGroupReference,
    index: usize,
    last: &Vec<usize>,
)
    requires
        old(cache).wf(),
        forall|k: int|
            0 <= k < binding.buffers().len() ==>
                (#[trigger] binding.buffers()[k]) < old(cache).references@.len() &&
                binding.buffers()[k] < last@.len(),
    ensures
        final(cache).wf(),
        forall|b: usize|
            b < old(cache).references@.len() ==>
                (#[trigger] final(cache).references@[b as int]).storage
                == if binding.buffers().contains(b) && last@[b as int] == index &&
                    !old(cache).references@[b as int].referenced_by_storage {
                None
            } else {
                old(cache).references@[b as int].storage
            },
        references_evolve(old(cache).references@, final(cache).references@),
        pool_evolves(old(cache).pool(), final(cache).pool()),
        final(cache).buffers.max_memory_allowed == old(cache).buffers.max_memory_allowed,
        final(cache).bindgroups == old(cache).bindgroups,
        final(cache).max_bindgroups == old(cache).max_bindgroups,
        final(cache).mappings == old(cache).mappings,
        (final(cache).references@, final(cache).pool()) == binding_released(
            old(cache).references@,
            old(cache).pool(),
            binding.buffers(),
            last@,
            index as int,
            binding.buffers().len() as int,
        ),
{
    let len: usize = binding.len();
    let mut k: usize = 0;
    while k < len
        invariant
            len == binding.buffers().len(),
            k <= len,
            cache.wf(),
            forall|m: int|
                0 <= m < binding.buffers().len() ==>
                    (#[trigger] binding.buffers()[m]) < cache.references@.len()
                    && binding.buffers()[m] < last@.len(),
            (cache.references@, cache.pool()) == binding_released(
                old(cache).references@,
                old(cache).pool(),
                binding.buffers(),
                last@,
                index as int,
                k as int,
            ),
            forall|b: usize|
                b < old(cache).references@.len() ==>
                    (#[trigger] cache.references@[b as int]).storage
                    == if among_first(binding.buffers(), k as int, b) && last@[b as int]
                    == index && !old(cache).references@[b as int].referenced_by_storage {
                    None
                } else {
                    old(cache).references@[b as int].storage
                },
            references_evolve(old(cache).references@, cache.references@),
            pool_evolves(old(cache).pool(), cache.pool()),
            cache.buffers.max_memory_allowed == old(cache).buffers.max_memory_allowed,
            cache.bindgroups == old(cache).bindgroups,
            cache.max_bindgroups == old(cache).max_bindgroups,
            cache.mappings == old(cache).mappings,
        decreases len - k,
    {
        let buffer: usize = binding.get(k);
        let ghost before = cache.references@;
        let finished: bool = last[buffer] == index &&
            !cache.references[buffer].referenced_by_storage;
        if finished {
            cache.release(buffer);
        }
        proof {
            assert forall|b: usize| b < old(cache).references@.len() implies (
            #[trigger] cache.references@[b as int]).storage == if among_first(
                binding.buffers(),
                k + 1,
                b,
            ) && last@[b as int] == index &&
                !old(cache).references@[b as int].referenced_by_storage {
                None
            } else {
                old(cache).references@[b as int].storage
            } by {
                if among_first(binding.buffers(), k as int, b) {
                    let m = choose|m: int| 0 <= m < k && #[trigger] binding.buffers()[m] == b;
                    assert(0 <= m < k + 1 && binding.buffers()[m] == b);
                    assert(among_first(binding.buffers(), k + 1, b));
                }
                if b == buffer {
                    assert(binding.buffers()[k as int] == b);
                    assert(among_first(binding.buffers(), k + 1, b));
                } else {
                    if among_first(binding.buffers(), k + 1, b) {
                        let m = choose|m: int|
                            0 <= m < k + 1 && #[trigger] binding.buffers()[m] == b;
                        assert(m < k);
                        assert(among_first(binding.buffers(), k as int, b));
                    }
                }
            }
        }
        k = k + 1;
    }
    proof {
        assert forall|b: usize| b < old(cache).references@.len() implies (
        #[trigger] cache.references@[b as int]).storage == if binding.buffers().contains(b)
            && last@[b as int] == index && !old(cache).references@[b as int].referenced_by_storage {
            None
        } else {
            old(cache).references@[b as int].storage
        } by {
            if binding.buffers().contains(b) {
                let m = choose|m: int|
                    0 <= m < binding.buffers().len() && binding.buffers()[m] == b;
                assert(among_first(binding.buffers(), len as int, b));
            }
            if among_first(binding.buffers(), len as int, b) {
                let m = choose|m: int| 0 <= m < len && #[trigger] binding.buffers()[m] == b;
                assert(binding.buffers().contains(b));
            }
        }
    }
}

/// How the binding objects may change while dispatches are resolved: objects are added
/// and dropped; none changes what it binds, and a dropped one stays dropped.
pub open spec fn bindgroups_evolve(
    before: Seq<CachedBindGroup>,
    after: Seq<CachedBindGroup>,
) -> bool {
    &&& before.len() <= after.len()
    &&& forall|g: int|
        0 <= g < before.len() ==> (#[trigger] after[g]).key == before[g].key && (after[g].alive
            ==> before[g].alive)
}

/// How the compiled programs may change while dispatches are resolved: pipelines and
/// shader modules are added behind those that are there.
pub open spec fn programs_evolve(
    before: ShaderModuleComputePipelines,
    after: ShaderModuleComputePipelines,
) -> bool {
    &&& before.pipelines@.len() <= after.pipelines@.len()
    &&& before.shaders@.len() <= after.shaders@.len()
    &&& forall|i: int|
        0 <= i < before.pipelines@.len() ==> #[trigger] after.pipelines@[i] == before.pipelines@[i]
    &&& forall|i: int|
        0 <= i < before.shaders@.len() ==> #[trigger] after.shaders@[i] == before.shaders@[i]
}

/// The pipeline identity that the dispatch runs with: its own, or where it is rewritten
/// to run in place that of the in-place twin of its kernel.
pub open spec fn resolved_pipeline(pipeline: PipelineType, inplace: bool) -> PipelineType {
    if inplace {
        PipelineType(inplace_variant(pipeline.0).unwrap(), pipeline.1, pipeline.2)
    } else {
        pipeline
    }
}

/// The binding that the dispatch runs with: its own, or where it is rewritten to run in
/// place its source alone.
pub open spec fn resolved_binding(binding: BindGroupReference,
    inplace: bool) -> BindGroupReference {
    if inplace {
        BindGroupReferenceBase::Bindgroup0(binding.buffers()[1])
    } else {
        binding
    }
}

/// Where every existing binding object binds only storage buffers that exist, the pass
/// that drops those with a storage buffer that no longer exists drops nothing.
pub proof fn lemma_without_dead_keeps(bindgroups: Seq<CachedBindGroup>, pool: Seq<CachedBuffer>)
    requires
        forall|g: int|
            0 <= g < bindgroups.len() && (#[trigger] bindgroups[g]).alive ==> key_live(
                bindgroups[g].key,
                pool,
            ),
    ensures
        without_dead(bindgroups, pool) == bindgroups,
{
    assert(without_dead(bindgroups, pool) =~= bindgroups);
}

/// What resolving the dispatches of a batch works on: the logical buffers, the pool, the
/// binding objects, what is noted of the storage buffers of the batch, and the compiled
/// programs.
pub struct BatchState {
    pub references: Seq<BufferReference>,
    pub pool: Seq<CachedBuffer>,
    pub bindgroups: Seq<CachedBindGroup>,
    pub storages: Seq<Option<CachedBufferId>>,
    pub shaders: Seq<Shaders>,
    pub pipelines: Seq<CachedPipeline>,
}

/// The state of a cache and of the compiled programs, as resolving works on it.
pub open spec fn batch_state(
    cache: ModelCache,
    shader: ShaderModuleComputePipelines,
) -> BatchState {
    BatchState {
        references: cache.references@,
        pool: cache.pool(),
        bindgroups: cache.bindgroups@,
        storages: cache.mappings.current_storages@,
        shaders: shader.shaders@,
        pipelines: shader.pipelines@,
    }
}

/// The storage buffer noted for the dispatch at `place`, if one is.
pub open spec fn preferred_at(
    storages: Seq<Option<CachedBufferId>>,
    place: int,
) -> Option<CachedBufferId> {
    if 0 <= place < storages.len() {
        storages[place]
    } else {
        None
    }
}

/// The logical buffers after the destination of an in-place rewrite took over the storage
/// of the source.
pub open spec fn aliased(
    references: Seq<BufferReference>,
    dest: int,
    source: int,
) -> Seq<BufferReference> {
    references.update(
        dest,
        BufferReference { storage: references[source].storage, ..references[dest] },
    ).update(source, BufferReference { storage: None, ..references[source] })
}

/// What resolving the dispatch at place `index` makes of the state: the state
/// afterwards, the resolved dispatch, and whether the cache of binding objects reported
/// pressure.
///
/// The dispatch runs in place if and only if it is eligible for it. The pipeline it runs
/// with is looked up, and added where it is missing. The buffers it binds are given
/// storage in binding order, the first of them preferring the storage buffer noted for
/// this place. The binding object for these storage buffers is looked up, and added where
/// it is missing; if more binding objects exist now than the cache may hold, there is
/// pressure, and all binding objects are dropped. After an in-place rewrite the
/// destination takes over the storage of the source. At last the storage of every bound
/// buffer that is finished with this dispatch goes back to the pool.
#[verifier::opaque]
pub open spec fn resolved_step(
    state: BatchState,
    records: Seq<MlQueueDispatch>,
    index: int,
    max_bindgroups: int,
) -> (BatchState, MlQueueDispatch, bool) {
    let record = records[index];
    let own = record.bindgroup->BindgroupReference_0;
    let inplace = inplace_eligible(state.references, records, index);
    let bound = resolved_binding(own, inplace);
    let pipeline = resolved_pipeline(record.pipeline, inplace);
    let programs = with_pipeline(state.shaders, state.pipelines, pipeline);
    let stored = binding_materialized(
        state.references,
        state.pool,
        bound.buffers(),
        preferred_at(state.storages, index),
        bound.buffers().len() as int,
    );
    let key = key_for(stored.2);
    let looked_up = with_key(state.bindgroups, key);
    let settled = if inplace {
        aliased(stored.0, own.buffers()[0] as int, own.buffers()[1] as int)
    } else {
        stored.0
    };
    let freed = binding_freed(settled, stored.1, records, index, own.buffers().len() as int);
    (
        BatchState {
            references: freed.0,
            pool: freed.1,
            bindgroups: after_removal(looked_up, stored.1, max_bindgroups),
            storages: noted(state.storages, index, key.buffers()[0]),
            shaders: programs.0,
            pipelines: programs.1,
        },
        MlQueueDispatch {
            pipeline,
            bindgroup: DispatchedBindgroup::CachedBindgroup(
                found_key(state.bindgroups, key) as usize,
            ),
            pipeline_cached: Some(found_pipeline(state.pipelines, pipeline) as usize),
            ..record
        },
        alive_upto(looked_up, looked_up.len() as int) > max_bindgroups,
    )
}

/// Resolves the dispatch at place `index` to device objects.
///
/// The dispatch is first rewritten to run in place, if and only if it is eligible for it
/// (see [`inplace_eligible`]): it then runs the in-place twin of its kernel on its source
/// alone. Every logical buffer it binds gets its storage, the first of them where it
/// lived the last time the pattern of the batch was run, if that storage buffer is free
/// and large enough; where it lives now is noted for the next time. The pipeline and the binding
/// object are looked up in their caches and made where they are missing; the cache of
/// binding objects is kept in bounds, which may report pressure. After an in-place
/// rewrite the destination takes over the storage of the source. At last the storage of
/// every bound buffer that is finished with this dispatch goes back to the pool.
///
/// The result is the resolved dispatch, whether it was rewritten to run in place, and
/// whether the cache of binding objects reported pressure. The binding objects dropped
/// on the way are appended to `dropped`.
pub fn resolve_dispatch(
    cache: &mut ModelCache,
    shader: &mut ShaderModuleComputePipelines,
    records: &Vec<MlQueueDispatch>,
    index: usize,
    last: &Vec<usize>,
    dropped: &mut Vec<BindgroupId>,
) -> (r: (MlQueueDispatch, bool, bool))
    requires
        old(cache).wf(),
        old(shader).wf(),
        index < records@.len(),
        records@[index as int].bindgroup is BindgroupReference,
        last_use_known(records@, index as int, last@),
        last@.len() == old(cache).references@.len(),
        old(cache).mappings.current is Some,
        forall|b: usize| #[trigger]
            uses(records@, index as int, b) ==> b < old(cache).references@.len(),
    ensures
        final(cache).wf(),
        final(shader).wf(),
        (batch_state(*final(cache), *final(shader)), r.0, r.2) == resolved_step(
            batch_state(*old(cache), *old(shader)),
            records@,
            index as int,
            old(cache).max_bindgroups as int,
        ),
        references_evolve(old(cache).references@, final(cache).references@),
        pool_evolves(old(cache).pool(), final(cache).pool()),
        bindgroups_evolve(old(cache).bindgroups@, final(cache).bindgroups@),
        programs_evolve(*old(shader), *final(shader)),
        final(cache).buffers.max_memory_allowed == old(cache).buffers.max_memory_allowed,
        final(cache).max_bindgroups == old(cache).max_bindgroups,
        final(cache).mappings.patterns == old(cache).mappings.patterns,
        final(cache).mappings.current == old(cache).mappings.current,
        r.1 == inplace_eligible(old(cache).references@, records@, index as int),
        r.0 == (MlQueueDispatch {
            pipeline: r.0.pipeline,
            bindgroup: r.0.bindgroup,
            pipeline_cached: r.0.pipeline_cached,
            ..records@[index as int]
        }),
        r.0.pipeline == resolved_pipeline(records@[index as int].pipeline, r.1),
        r.0.pipeline_cached matches Some(pid) && holds_pipeline(
            final(shader).pipelines@,
            pid as int,
            r.0.pipeline,
        ),
        r.0.bindgroup matches DispatchedBindgroup::CachedBindgroup(bid) &&
            bid < final(cache).bindgroups@.len() && ({
            let key = final(cache).bindgroups@[bid as int].key;
            let own = records@[index as int].bindgroup->BindgroupReference_0;
            let bound = resolved_binding(own, r.1);
            &&& key.buffers().len() == bound.buffers().len()
            &&& key_live(key, final(cache).pool())
            &&& final(cache).mappings.current_storages@ == noted(
                old(cache).mappings.current_storages@,
                index as int,
                key.buffers()[0],
            )
            &&& old(cache).references@[bound.buffers()[0] as int].storage is None
                && is_preferred_fit(
                old(cache).pool(),
                old(cache).mappings.spec_preferred(index as int),
                old(cache).references@[bound.buffers()[0] as int].size,
            ) ==> key.buffers()[0] == old(cache).mappings.spec_preferred(index as int)->0
            &&& forall|k: int|
                0 <= k < bound.buffers().len() ==>
                    (old(cache).references@[bound.buffers()[k] as int].storage matches Some(
                    s,
                ) ==> #[trigger] key.buffers()[k] == s)
            &&& forall|k: int|
                0 <= k < bound.buffers().len() ==>
                    old(cache).references@[bound.buffers()[k] as int].size
                    <= final(cache).pool()[(#[trigger] key.buffers()[k]) as int].size
            &&& forall|k: int|
                0 <= k < own.buffers().len() && !r.1 && !(last@[own.buffers()[k] as int] == index
                    && !old(cache).references@[own.buffers()[k] as int].referenced_by_storage)
                    ==> final(cache).references@[own.buffers()[k] as int].storage == Some(
                    #[trigger] key.buffers()[k],
                )
            &&& r.1 ==> final(cache).references@[own.buffers()[1] as int].storage is None && (!(
            last@[own.buffers()[0] as int] == index &&
                !old(cache).references@[own.buffers()[0] as int].referenced_by_storage)
                ==> final(cache).references@[own.buffers()[0] as int].storage == Some(
                key.buffers()[0],
            ))
            &&& (bid < old(cache).bindgroups@.len() ==> old(cache).bindgroups@[bid as int].alive)
            &&& r.2 == (alive_upto(old(cache).bindgroups@, old(cache).bindgroups@.len() as int)
                + if bid < old(cache).bindgroups@.len() {
                0int
            } else {
                1int
            } > old(cache).max_bindgroups)
            &&& !r.2 ==> final(cache).bindgroups@[bid as int].alive
        }),
        forall|b: usize|
            b < old(cache).references@.len() && !record_buffers(records@[index as int]).contains(b)
                ==> (#[trigger] final(cache).references@[b as int]).storage ==
                    old(cache).references@[b as int].storage,
        forall|b: usize|
            b < old(cache).references@.len() && record_buffers(records@[index as int]).contains(b)
                && last@[b as int] == index &&
                    !old(cache).references@[b as int].referenced_by_storage
                ==> (#[trigger] final(cache).references@[b as int]).storage is None,
        r.2 ==> forall|g: int|
            0 <= g < final(cache).bindgroups@.len() ==>
                !(#[trigger] final(cache).bindgroups@[g]).alive,
        !r.2 ==> forall|g: int|
            0 <= g < old(cache).bindgroups@.len() ==> (#[trigger] final(cache).bindgroups@[g]).alive
                == old(cache).bindgroups@[g].alive,
        old(dropped)@.len() <= final(dropped)@.len(),
        forall|k: int| 0 <= k < old(dropped)@.len() ==> final(dropped)@[k] == old(dropped)@[k],
        forall|k: int|
            old(dropped)@.len() <= k < final(dropped)@.len() ==> (#[trigger] final(dropped)@[k])
                < final(cache).bindgroups@.len() &&
                    !final(cache).bindgroups@[final(dropped)@[k] as int].alive,
        forall|g: BindgroupId|
            g < final(cache).bindgroups@.len() && !final(cache).bindgroups@[g as int].alive && (g
                < old(cache).bindgroups@.len() ==> old(cache).bindgroups@[g as int].alive)
                ==> #[trigger] final(dropped)@.contains(g),
{
    let record: MlQueueDispatch = records[index];
    let own: BindGroupReference = match record.bindgroup {
        DispatchedBindgroup::BindgroupReference(br) => br,
        _ => BindGroupReferenceBase::Bindgroup0(0),
    };
    proof {
        reveal(resolved_step);
        assert(record_buffers(records@[index as int]) == own.buffers());
        assert forall|k: int| 0 <= k < own.buffers().len() implies (#[trigger] own.buffers()[k])
            < cache.references@.len() by {
            assert(own.buffers().contains(own.buffers()[k]));
            assert(uses(records@, index as int, own.buffers()[k]));
        }
    }
    let operands: Option<(usize, usize)> = unary_inplace_operands(
        &cache.references,
        records,
        index,
        last,
    );
    let inplace: bool = operands.is_some();
    let (bound, pipeline): (BindGroupReference, PipelineType) = match operands {
        Some((_dest, source)) => {
            let twin: Pipelines = match get_inplace_variant(&record.pipeline.0) {
                Some(t) => t,
                None => record.pipeline.0,
            };
            (
                BindGroupReferenceBase::Bindgroup0(source),
                PipelineType(twin, record.pipeline.1, record.pipeline.2),
            )
        },
        None => (own, record.pipeline),
    };
    assert(bound == resolved_binding(own, inplace));
    proof {
        assert forall|k: int| 0 <= k < bound.buffers().len() implies (
        #[trigger] bound.buffers()[k]) < cache.references@.len() by {
            if inplace {
                assert(bound.buffers()[k] == own.buffers()[1]);
            }
        }
    }
    let lookup: PipelineLookup = shader.get_pipeline(&pipeline);
    let preferred: Option<CachedBufferId> = cache.mappings.preferred(index);
    let key: CachedBindGroupReference = materialize_binding(cache, &bound, preferred);
    cache.mappings.note(index, key.get(0));
    let ghost mid_references = cache.references@;
    let ghost mid_pool = cache.pool();
    let (bid, _fresh) = cache.get_bind_group(key);
    let ghost mid_bindgroups = cache.bindgroups@;
    proof {
        lemma_without_dead_keeps(cache.bindgroups@, cache.pool());
        if bid < old(cache).bindgroups@.len() {
            lemma_alive_upto_prefix(
                mid_bindgroups,
                old(cache).bindgroups@,
                old(cache).bindgroups@.len() as int,
            );
        } else {
            lemma_alive_upto_prefix(
                mid_bindgroups,
                old(cache).bindgroups@,
                old(cache).bindgroups@.len() as int,
            );
        }
    }
    let (cache_limit, mut gone) = cache.remove_unused();
    proof {
        assert forall|k: int| 0 <= k < gone@.len() implies (#[trigger] gone@[k])
            < cache.bindgroups@.len() && !cache.bindgroups@[gone@[k] as int].alive by {
            assert(gone@.contains(gone@[k]));
        }
    }
    let ghost dropped_before = dropped@;
    let ghost gone_before = gone@;
    dropped.append(&mut gone);
    proof {
        assert forall|g: BindgroupId|
            g < cache.bindgroups@.len() && !cache.bindgroups@[g as int].alive &&
                (g < old(cache).bindgroups@.len() ==>
                old(cache).bindgroups@[g as int].alive) implies #[trigger] dropped@.contains(
            g,
        ) by {
            assert(mid_bindgroups[g as int].alive);
            assert(gone_before.contains(g));
            let k = choose|k: int| 0 <= k < gone_before.len() && gone_before[k] == g;
            assert(dropped@[dropped_before.len() + k] == g);
        }
    }
    match operands {
        Some((dest, source)) => {
            proof {
                assert(own.buffers()[0] == dest && own.buffers()[1] == source);
                assert(!bound.buffers().contains(dest)) by {
                    if bound.buffers().contains(dest) {
                        let m = choose|m: int|
                            0 <= m < bound.buffers().len() && bound.buffers()[m] == dest;
                        assert(bound.buffers()[0] == source);
                    }
                }
            }
            cache.alias(dest, source);
        },
        None => {},
    }
    let ghost aliased_references = cache.references@;
    proof {
        lemma_released_is_freed(
            cache.references@,
            cache.pool(),
            records@,
            last@,
            index as int,
            own.buffers().len() as int,
        );
    }
    release_finished(cache, &own, index, last);
    proof {
        assert(cache.pool() == mid_pool || pool_evolves(mid_pool, cache.pool()));
        assert forall|k: int|
            0 <= k < bound.buffers().len() implies
                old(cache).references@[bound.buffers()[k] as int].size
            <= cache.pool()[(#[trigger] key.buffers()[k]) as int].size by {
            assert(mid_references[bound.buffers()[k] as int].storage == Some(key.buffers()[k]));
        }
        assert forall|b: usize|
            b < old(cache).references@.len() && !record_buffers(records@[index as int]).contains(
                b,
            ) implies (#[trigger] cache.references@[b as int]).storage ==
                old(cache).references@[b as int].storage by {
            if inplace {
                assert(own.buffers()[1] == bound.buffers()[0]);
                if bound.buffers().contains(b) {
                    let m = choose|m: int|
                        0 <= m < bound.buffers().len() && bound.buffers()[m] == b;
                    assert(own.buffers().contains(own.buffers()[1]));
                }
                assert(own.buffers().contains(own.buffers()[0]));
                assert(own.buffers().contains(own.buffers()[1]));
            }
        }
        assert forall|k: int|
            0 <= k < own.buffers().len() && !inplace && !(last@[own.buffers()[k] as int] == index
                && !old(cache).references@[own.buffers()[k] as int].referenced_by_storage) implies
                    cache.references@[own.buffers()[k] as int].storage
            == Some(#[trigger] key.buffers()[k]) by {
            assert(mid_references[bound.buffers()[k] as int].storage == Some(key.buffers()[k]));
        }
        if inplace {
            assert(mid_references[bound.buffers()[0] as int].storage == Some(key.buffers()[0]));
            assert(own.buffers().contains(own.buffers()[0]));
            assert(own.buffers().contains(own.buffers()[1]));
        }
    }
    (
        MlQueueDispatch {
            x: record.x,
            y: record.y,
            z: record.z,
            pipeline,
            bindgroup: DispatchedBindgroup::CachedBindgroup(bid),
            pipeline_cached: Some(lookup.id),
            meta: record.meta,
            workload_size: record.workload_size,
        },
        inplace,
        cache_limit,
    )
}

} // verus!

