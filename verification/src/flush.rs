//! The flush: packing the queue into windows and turning each window into a command buffer.
use vstd::prelude::*;
use crate::batch::batch_state;
use crate::batch::binding_freed;
use crate::batch::bindgroups_evolve;
use crate::batch::finished_with;
use crate::batch::inplace_eligible;
use crate::batch::resolved_step;
use crate::batch::sole_reference;
use crate::batch::BatchState;
use crate::batch::inplace_variant;
use crate::batch::last_use_known;
use crate::batch::pool_evolves;
use crate::batch::programs_evolve;
use crate::batch::references_evolve;
use crate::batch::resolve_dispatch;
use crate::batch::resolved_pipeline;
use crate::buffer::buffers_known;
use crate::buffer::BufferReference;
use crate::buffer::record_buffers;
use crate::buffer::uses;
use crate::bytes::in_memory;
use crate::bytes::words_to_bytes;
use crate::cache::after_removal;
use crate::cache::CachedBindGroup;
use crate::cache::ModelCache;
use crate::ceiling::next_ceiling;
use crate::ceiling::prepare;
use crate::device::WgpuDevice;
use crate::liveness::high_water_mark_spec;
use crate::liveness::is_use_ranges;
use crate::liveness::use_ranges;
use crate::pipeline::holds_pipeline;
use crate::pipeline::CachedPipeline;
use crate::pipeline::ShaderModuleComputePipelines;
use crate::plan::CommandBufferPlan;
use crate::plan::DispatchCommand;
use crate::plan::FlushPlan;
use crate::pattern::holds_hash;
use crate::pattern::lemma_remembered_at;
use crate::pattern::pattern_views;
use crate::pattern::remembered;
use crate::pattern::pattern_hash_spec;
use crate::pattern::started;
use crate::pool::in_use;
use crate::pool::reclaimed_upto;
use crate::pool::CachedBuffer;
use crate::queue::BindgroupId;
use crate::queue::CachedBufferId;
use crate::queue::DispatchedBindgroup;
use crate::queue::MlQueueDispatch;
use crate::queue::MAX_WORKLOAD_SIZE;
use crate::queue::META_BUFFER_SIZE;
use crate::wide::clamp_to_u64;

verus! {

/// The room, in bytes, that a window leaves at the end of the parameter buffer behind the
/// place where its last dispatch's parameters begin.
pub const META_MARGIN: u32 = 256 * 3;

/// The most parameter words that the device reads for one dispatch.
pub const META_WORDS_PER_DISPATCH: usize = 256 / 4;

/// The work declared by the dispatches from place `from` up to place `to`.
pub open spec fn workload_sum(records: Seq<MlQueueDispatch>, from: int, to: int) -> int
    decreases to - from,
{
    if to <= from {
        0
    } else {
        workload_sum(records, from, to - 1) + records[to - 1].workload_size
    }
}

/// Whether the parameters of the dispatch at place `i` begin early enough in the
/// parameter buffer of a window that begins at place `start`.
pub open spec fn meta_fits(records: Seq<MlQueueDispatch>, start: int, i: int) -> bool {
    (records[i].meta - records[start].meta) * 4 + META_MARGIN <= META_BUFFER_SIZE
}

/// Whether the dispatch at place `i` may join the window that began at place `start` and
/// holds the dispatches up to it: the work stays within the limit, and the parameters
/// fit the parameter buffer.
pub open spec fn may_join(records: Seq<MlQueueDispatch>, start: int, i: int) -> bool {
    &&& workload_sum(records, start, i) + records[i].workload_size <= MAX_WORKLOAD_SIZE
    &&& meta_fits(records, start, i)
}

/// Whether the dispatches from place `start` up to place `end` form a window: there is
/// at least one, and each but the first was allowed to join.
pub open spec fn is_window(records: Seq<MlQueueDispatch>, start: int, end: int) -> bool {
    &&& 0 <= start < end <= records.len()
    &&& forall|i: int| start < i < end ==> #[trigger] may_join(records, start, i)
}

/// A window keeps within the limit on work, unless it is one dispatch alone.
pub proof fn lemma_window_workload(records: Seq<MlQueueDispatch>, start: int, end: int)
    requires
        is_window(records, start, end),
    ensures
        workload_sum(records, start, end) <= MAX_WORKLOAD_SIZE || end == start + 1,
{
    if end > start + 1 {
        assert(may_join(records, start, end - 1));
    }
}

/// The parameters of every dispatch of a window begin within the parameter buffer, with
/// the margin to spare: a window is closed before its parameters overflow the buffer.
pub proof fn lemma_window_meta(records: Seq<MlQueueDispatch>, start: int, end: int, i: int)
    requires
        is_window(records, start, end),
        start <= i < end,
    ensures
        meta_fits(records, start, i),
{
    if i > start {
        assert(may_join(records, start, i));
    }
}

/// Whether `now` is what batching made of the queued dispatch `queued`: the same
/// dispatch, resolved to a pipeline and a binding object of the caches, running its own
/// kernel or the in-place twin of it.
pub open spec fn resolved(
    queued: MlQueueDispatch,
    now: MlQueueDispatch,
    bindgroups: Seq<CachedBindGroup>,
    pipelines: Seq<CachedPipeline>,
) -> bool {
    &&& now == (MlQueueDispatch {
        pipeline: now.pipeline,
        bindgroup: now.bindgroup,
        pipeline_cached: now.pipeline_cached,
        ..queued
    })
    &&& now.pipeline == queued.pipeline || (inplace_variant(queued.pipeline.0) is Some
        && now.pipeline == resolved_pipeline(queued.pipeline, true))
    &&& now.pipeline_cached matches Some(pid) && holds_pipeline(pipelines, pid as int, now.pipeline)
    &&& now.bindgroup matches DispatchedBindgroup::CachedBindgroup(bid) && bid < bindgroups.len()
}

/// Whether the dispatches from place `from` on are ready to be resolved: each is
/// unresolved and binds known logical buffers, for each `last` tells which of its buffers
/// no later dispatch binds, and their parameter offsets do not decrease.
pub open spec fn ready_from(
    records: Seq<MlQueueDispatch>,
    from: int,
    last: Seq<usize>,
) -> bool {
    &&& forall|i: int|
        from <= i < records.len() ==> (#[trigger] records[i]).bindgroup is BindgroupReference
    &&& forall|i: int| from <= i < records.len() ==> #[trigger] last_use_known(records, i, last)
    &&& forall|i: int, j: int|
        from <= i <= j < records.len() ==> (#[trigger] records[i]).meta <= (
        #[trigger] records[j]).meta
}

/// Readiness depends only on the dispatches from place `from` on.
pub proof fn lemma_ready_from_suffix(
    a: Seq<MlQueueDispatch>,
    b: Seq<MlQueueDispatch>,
    from: int,
    last: Seq<usize>,
)
    requires
        0 <= from,
        a.len() == b.len(),
        forall|i: int| from <= i < a.len() ==> a[i] == b[i],
        ready_from(a, from, last),
    ensures
        ready_from(b, from, last),
{
    assert forall|i: int| from <= i < b.len() implies #[trigger] last_use_known(b, i, last) by {
        assert(last_use_known(a, i, last));
        assert forall|x: usize| #[trigger] uses(b, i, x) implies x < last.len() && (last[x as int]
            == i <==> forall|j: int| j > i ==> !#[trigger] uses(b, j, x)) by {
            assert(uses(a, i, x));
            assert forall|j: int| j > i implies uses(a, j, x) == uses(b, j, x) by {}
            if last[x as int] == i {
                assert forall|j: int| j > i implies !#[trigger] uses(b, j, x) by {
                    assert(!uses(a, j, x));
                }
            }
            if forall|j: int| j > i ==> !#[trigger] uses(b, j, x) {
                assert forall|j: int| j > i implies !#[trigger] uses(a, j, x) by {
                    assert(!uses(b, j, x));
                }
            }
        }
    }
    assert forall|i: int| from <= i < b.len() implies (#[trigger] b[i]).bindgroup
        is BindgroupReference by {
        assert(a[i].bindgroup is BindgroupReference);
    }
    assert forall|i: int, j: int| from <= i <= j < b.len() implies (#[trigger] b[i]).meta <= (
    #[trigger] b[j]).meta by {
        assert(a[i].meta <= a[j].meta);
    }
}

/// The command of a resolved dispatch in a window whose parameters begin at word `origin`.
pub open spec fn command_of(record: MlQueueDispatch, origin: u32) -> DispatchCommand {
    DispatchCommand {
        pipeline: record.pipeline_cached.unwrap(),
        bindgroup: record.bindgroup->CachedBindgroup_0,
        dynamic_offset: ((record.meta - origin) * 4) as u32,
        x: record.x,
        y: record.y,
        z: record.z,
    }
}

/// What a list holds it still holds when the list grows at its end.
pub proof fn lemma_contains_grows(shorter: Seq<BindgroupId>, longer: Seq<BindgroupId>,
    g: BindgroupId)
    requires
        shorter.len() <= longer.len(),
        forall|k: int| 0 <= k < shorter.len() ==> longer[k] == shorter[k],
        shorter.contains(g),
    ensures
        longer.contains(g),
{
    let k = choose|k: int| 0 <= k < shorter.len() && shorter[k] == g;
    assert(longer[k] == g);
}

/// The state after the dispatches from place `from` up to place `to` were resolved in
/// queue order, each as [`resolved_step`] says.
pub open spec fn state_between(
    state: BatchState,
    records: Seq<MlQueueDispatch>,
    max_bindgroups: int,
    from: int,
    to: int,
) -> BatchState
    decreases to - from,
{
    if to <= from {
        state
    } else {
        resolved_step(
            state_between(state, records, max_bindgroups, from, to - 1),
            records,
            to - 1,
            max_bindgroups,
        ).0
    }
}

/// What resolving makes of the dispatch at place `i`, where resolving began at place
/// `from` in the given state.
pub open spec fn resolved_record(
    state: BatchState,
    records: Seq<MlQueueDispatch>,
    max_bindgroups: int,
    from: int,
    i: int,
) -> MlQueueDispatch {
    resolved_step(
        state_between(state, records, max_bindgroups, from, i),
        records,
        i,
        max_bindgroups,
    ).1
}

/// Whether resolving the dispatch at place `i` puts pressure on the cache of binding
/// objects, where resolving began at place `from` in the given state.
pub open spec fn pressure_at(
    state: BatchState,
    records: Seq<MlQueueDispatch>,
    max_bindgroups: int,
    from: int,
    i: int,
) -> bool {
    resolved_step(
        state_between(state, records, max_bindgroups, from, i),
        records,
        i,
        max_bindgroups,
    ).2
}

/// Giving back the storage of the buffers of a dispatch depends only on the dispatches
/// from its place on.
pub proof fn lemma_freed_needs_suffix(
    references: Seq<BufferReference>,
    pool: Seq<CachedBuffer>,
    a: Seq<MlQueueDispatch>,
    b: Seq<MlQueueDispatch>,
    index: int,
    k: int,
)
    requires
        a.len() == b.len(),
        0 <= index < a.len(),
        forall|j: int| index <= j < a.len() ==> a[j] == b[j],
    ensures
        binding_freed(references, pool, a, index, k) == binding_freed(references, pool, b, index,
            k),
    decreases k,
{
    if k > 0 {
        lemma_freed_needs_suffix(references, pool, a, b, index, k - 1);
        let before = binding_freed(references, pool, a, index, k - 1);
        let buffer = record_buffers(a[index])[k - 1];
        assert forall|j: int| j > index implies uses(a, j, buffer) == uses(b, j, buffer) by {}
        if finished_with(before.0, a, index, buffer) {
            assert forall|j: int| j > index implies !#[trigger] uses(b, j, buffer) by {
                assert(!uses(a, j, buffer));
            }
        }
        if finished_with(before.0, b, index, buffer) {
            assert forall|j: int| j > index implies !#[trigger] uses(a, j, buffer) by {
                assert(!uses(b, j, buffer));
            }
        }
    }
}

/// Resolving a dispatch depends only on the dispatches from its place on.
pub proof fn lemma_step_needs_suffix(
    state: BatchState,
    a: Seq<MlQueueDispatch>,
    b: Seq<MlQueueDispatch>,
    index: int,
    max_bindgroups: int,
)
    requires
        a.len() == b.len(),
        0 <= index < a.len(),
        forall|j: int| index <= j < a.len() ==> a[j] == b[j],
    ensures
        resolved_step(state, a, index, max_bindgroups) == resolved_step(
            state,
            b,
            index,
            max_bindgroups,
        ),
{
    reveal(resolved_step);
    assert(a[index] == b[index]);
    assert(inplace_eligible(state.references, a, index) == inplace_eligible(
        state.references,
        b,
        index,
    )) by {
        if a[index].bindgroup is BindgroupReference && record_buffers(a[index]).len() == 2 {
            let source = record_buffers(a[index])[1];
            assert forall|j: int| j > index implies uses(a, j, source) == uses(b, j, source) by {}
            if sole_reference(state.references, a, index, source) {
                assert forall|j: int| j > index implies !#[trigger] uses(b, j, source) by {
                    assert(!uses(a, j, source));
                }
            }
            if sole_reference(state.references, b, index, source) {
                assert forall|j: int| j > index implies !#[trigger] uses(a, j, source) by {
                    assert(!uses(b, j, source));
                }
            }
        }
    }
    assert forall|references: Seq<BufferReference>, pool: Seq<CachedBuffer>, k: int|
        #[trigger] binding_freed(references, pool, a, index, k) == binding_freed(
            references,
            pool,
            b,
            index,
            k,
        ) by {
        lemma_freed_needs_suffix(references, pool, a, b, index, k);
    }
}

/// Resolving a stretch of the queue depends only on the dispatches from its beginning on.
pub proof fn lemma_between_needs_suffix(
    state: BatchState,
    a: Seq<MlQueueDispatch>,
    b: Seq<MlQueueDispatch>,
    max_bindgroups: int,
    from: int,
    to: int,
)
    requires
        a.len() == b.len(),
        0 <= from,
        to <= a.len(),
        forall|j: int| from <= j < a.len() ==> a[j] == b[j],
    ensures
        state_between(state, a, max_bindgroups, from, to) == state_between(
            state,
            b,
            max_bindgroups,
            from,
            to,
        ),
    decreases to - from,
{
    if to > from {
        lemma_between_needs_suffix(state, a, b, max_bindgroups, from, to - 1);
        lemma_step_needs_suffix(
            state_between(state, a, max_bindgroups, from, to - 1),
            a,
            b,
            to - 1,
            max_bindgroups,
        );
    }
}

/// Resolving a stretch of the queue and then the stretch behind it is resolving both in
/// one go.
pub proof fn lemma_between_joins(
    state: BatchState,
    records: Seq<MlQueueDispatch>,
    max_bindgroups: int,
    from: int,
    mid: int,
    to: int,
)
    requires
        from <= mid <= to,
    ensures
        state_between(
            state_between(state, records, max_bindgroups, from, mid),
            records,
            max_bindgroups,
            mid,
            to,
        ) == state_between(state, records, max_bindgroups, from, to),
    decreases to - mid,
{
    if to > mid {
        lemma_between_joins(state, records, max_bindgroups, from, mid, to - 1);
    }
}

/// Resolves the next window of the queue: the dispatches from place `index` on, for as
/// long as each may join the window and the cache of binding objects reports no
/// pressure. The first dispatch always joins. On return `index` is the place behind the
/// window. The result is whether the window was closed for pressure on the cache.
pub fn set_buffers(
    cache: &mut ModelCache,
    shader: &mut ShaderModuleComputePipelines,
    queue: &mut Vec<MlQueueDispatch>,
    index: &mut usize,
    last: &Vec<usize>,
    dropped: &mut Vec<BindgroupId>,
) -> (cache_limit: bool)
    requires
        old(cache).wf(),
        old(shader).wf(),
        *old(index) < old(queue)@.len(),
        ready_from(old(queue)@, *old(index) as int, last@),
        last@.len() == old(cache).references@.len(),
        old(cache).mappings.current is Some,
        forall|i: int, b: usize|
            *old(index) <= i && #[trigger] uses(old(queue)@, i, b) ==>
                b < old(cache).references@.len(),
    ensures
        final(cache).wf(),
        final(shader).wf(),
        batch_state(*final(cache), *final(shader)) == state_between(
            batch_state(*old(cache), *old(shader)),
            old(queue)@,
            old(cache).max_bindgroups as int,
            *old(index) as int,
            *final(index) as int,
        ),
        forall|j: int|
            *old(index) <= j < *final(index) ==> #[trigger] final(queue)@[j] == resolved_record(
                batch_state(*old(cache), *old(shader)),
                old(queue)@,
                old(cache).max_bindgroups as int,
                *old(index) as int,
                j,
            ),
        forall|j: int|
            *old(index) <= j < *final(index) ==> (#[trigger] pressure_at(
                batch_state(*old(cache), *old(shader)),
                old(queue)@,
                old(cache).max_bindgroups as int,
                *old(index) as int,
                j,
            ) <==> cache_limit && j == *final(index) - 1),
        final(cache).mappings.patterns == old(cache).mappings.patterns,
        final(cache).mappings.current == old(cache).mappings.current,
        forall|g: BindgroupId|
            g < final(cache).bindgroups@.len() && !final(cache).bindgroups@[g as int].alive && (g
                < old(cache).bindgroups@.len() ==> old(cache).bindgroups@[g as int].alive)
                ==> #[trigger] final(dropped)@.contains(g),
        references_evolve(old(cache).references@, final(cache).references@),
        pool_evolves(old(cache).pool(), final(cache).pool()),
        bindgroups_evolve(old(cache).bindgroups@, final(cache).bindgroups@),
        programs_evolve(*old(shader), *final(shader)),
        final(cache).buffers.max_memory_allowed == old(cache).buffers.max_memory_allowed,
        final(cache).max_bindgroups == old(cache).max_bindgroups,
        final(queue)@.len() == old(queue)@.len(),
        *old(index) < *final(index) <= old(queue)@.len(),
        forall|j: int|
            0 <= j < old(queue)@.len() && !(*old(index) <= j < *final(index)) ==> final(queue)@[j]
                == old(queue)@[j],
        forall|j: int|
            *old(index) <= j < *final(index) ==> resolved(
                old(queue)@[j],
                #[trigger] final(queue)@[j],
                final(cache).bindgroups@,
                final(shader).pipelines@,
            ),
        is_window(old(queue)@, *old(index) as int, *final(index) as int),
        *final(index) == old(queue)@.len() || cache_limit || !may_join(
            old(queue)@,
            *old(index) as int,
            *final(index) as int,
        ),
        ready_from(final(queue)@, *final(index) as int, last@),
        old(dropped)@.len() <= final(dropped)@.len(),
        forall|k: int| 0 <= k < old(dropped)@.len() ==> final(dropped)@[k] == old(dropped)@[k],
        forall|k: int|
            old(dropped)@.len() <= k < final(dropped)@.len() ==> (#[trigger] final(dropped)@[k])
                < final(cache).bindgroups@.len() &&
                    !final(cache).bindgroups@[final(dropped)@[k] as int].alive,
{
    let ghost orig = queue@;
    let ghost dropped_before = dropped@;
    let start_index: usize = *index;
    let n: usize = queue.len();
    let origin: u32 = queue[start_index].meta;
    let mut total_workload: u128 = 0;
    let mut cache_limit: bool = false;
    let mut done: bool = false;
    while *index < n && !done
        invariant
            n == orig.len(),
            queue@.len() == n,
            start_index == *old(index),
            start_index < n,
            origin == orig[start_index as int].meta,
            start_index <= *index <= n,
            *index == start_index ==> !done && total_workload == 0,
            cache.wf(),
            shader.wf(),
            cache.mappings.patterns == old(cache).mappings.patterns,
            cache.mappings.current == old(cache).mappings.current,
            cache.mappings.current is Some,
            forall|g: BindgroupId|
                g < cache.bindgroups@.len() && !cache.bindgroups@[g as int].alive &&
                    (g < old(cache).bindgroups@.len() ==> old(cache).bindgroups@[g as int].alive)
                    ==> #[trigger] dropped@.contains(g),
            batch_state(*cache, *shader) == state_between(
                batch_state(*old(cache), *old(shader)),
                orig,
                old(cache).max_bindgroups as int,
                start_index as int,
                *index as int,
            ),
            forall|j: int|
                start_index <= j < *index ==> #[trigger] queue@[j] == resolved_record(
                    batch_state(*old(cache), *old(shader)),
                    orig,
                    old(cache).max_bindgroups as int,
                    start_index as int,
                    j,
                ),
            forall|j: int|
                start_index <= j < *index ==> (#[trigger] pressure_at(
                    batch_state(*old(cache), *old(shader)),
                    orig,
                    old(cache).max_bindgroups as int,
                    start_index as int,
                    j,
                ) <==> cache_limit && j == *index - 1),
            references_evolve(old(cache).references@, cache.references@),
            pool_evolves(old(cache).pool(), cache.pool()),
            bindgroups_evolve(old(cache).bindgroups@, cache.bindgroups@),
            programs_evolve(*old(shader), *shader),
            cache.buffers.max_memory_allowed == old(cache).buffers.max_memory_allowed,
            cache.max_bindgroups == old(cache).max_bindgroups,
            last@.len() == cache.references@.len(),
            ready_from(orig, start_index as int, last@),
            forall|i: int, b: usize|
                start_index <= i && #[trigger] uses(orig, i, b) ==> b < cache.references@.len(),
            forall|j: int|
                0 <= j < n && !(start_index <= j < *index) ==> queue@[j] == orig[j],
            forall|j: int|
                start_index <= j < *index ==> resolved(
                    orig[j],
                    #[trigger] queue@[j],
                    cache.bindgroups@,
                    shader.pipelines@,
                ),
            total_workload == workload_sum(orig, start_index as int, *index as int),
            total_workload <= MAX_WORKLOAD_SIZE + 0xffff_ffff_ffff_ffff,
            *index > start_index + 1 ==> total_workload <= MAX_WORKLOAD_SIZE,
            forall|i: int| start_index < i < *index ==> #[trigger] may_join(orig,
                start_index as int, i),
            done ==> cache_limit || !may_join(orig, start_index as int, *index as int),
            !done ==> !cache_limit,
            dropped_before.len() <= dropped@.len(),
            forall|k: int| 0 <= k < dropped_before.len() ==> dropped@[k] == dropped_before[k],
            forall|k: int|
                dropped_before.len() <= k < dropped@.len() ==> (#[trigger] dropped@[k])
                    < cache.bindgroups@.len() && !cache.bindgroups@[dropped@[k] as int].alive,
        decreases n - *index + if done { 0int } else { 1int },
    {
        let i: usize = *index;
        let record: MlQueueDispatch = queue[i];
        assert(record == orig[i as int]);
        assert(orig[start_index as int].meta <= orig[i as int].meta);
        let joins: bool = i == start_index || (total_workload + record.workload_size as u128
            <= MAX_WORKLOAD_SIZE as u128 && (record.meta - origin) as u64 * 4 + META_MARGIN as u64
            <= META_BUFFER_SIZE as u64);
        if !joins {
            done = true;
        } else {
            proof {
                lemma_ready_from_suffix(orig, queue@, i as int, last@);
                assert(last_use_known(queue@, i as int, last@));
                assert forall|b: usize| #[trigger] uses(queue@, i as int, b) implies b
                    < cache.references@.len() by {
                    assert(uses(orig, i as int, b));
                }
            }
            let ghost bindgroups_before = cache.bindgroups@;
            let ghost pipelines_before = shader.pipelines@;
            let ghost dropped_mid = dropped@;
            proof {
                lemma_step_needs_suffix(
                    batch_state(*cache, *shader),
                    queue@,
                    orig,
                    i as int,
                    cache.max_bindgroups as int,
                );
            }
            let (now, _inplace, limit) = resolve_dispatch(cache, shader, queue, i, last, dropped);
            queue.set(i, now);
            total_workload = total_workload + record.workload_size as u128;
            *index = i + 1;
            if limit {
                cache_limit = true;
                done = true;
            }
            proof {
                assert forall|g: BindgroupId|
                    g < cache.bindgroups@.len() && !cache.bindgroups@[g as int].alive &&
                        (g < old(cache).bindgroups@.len() ==>
                        old(cache).bindgroups@[g as int].alive) implies
                            #[trigger] dropped@.contains(
                    g,
                ) by {
                    if g < bindgroups_before.len() && !bindgroups_before[g as int].alive {
                        assert(dropped_mid.contains(g));
                        lemma_contains_grows(dropped_mid, dropped@, g);
                    }
                }
                assert forall|j: int| start_index <= j < i + 1 implies resolved(
                    orig[j],
                    #[trigger] queue@[j],
                    cache.bindgroups@,
                    shader.pipelines@,
                ) by {
                    if j < i {
                        assert(resolved(orig[j], queue@[j], bindgroups_before, pipelines_before));
                    }
                }
                assert forall|k: int| dropped_before.len() <= k < dropped@.len() implies (
                #[trigger] dropped@[k]) < cache.bindgroups@.len() &&
                    !cache.bindgroups@[dropped@[k] as int].alive by {
                    if k < dropped_mid.len() {
                        assert(dropped@[k] == dropped_mid[k]);
                        assert(!bindgroups_before[dropped_mid[k] as int].alive);
                    }
                }
            }
        }
    }
    proof {
        lemma_ready_from_suffix(orig, queue@, *index as int, last@);
    }
    cache_limit
}

/// The words that are written to the parameter buffer for a window whose dispatches begin
/// their parameters between word `origin` and word `last`: those from `origin` up to the
/// end of what the device reads for the last dispatch, or up to the end of the blob.
pub open spec fn window_words(meta: Seq<u32>, origin: int, last: int) -> Seq<u32> {
    meta.subrange(
        origin,
        if last + META_WORDS_PER_DISPATCH <= meta.len() {
            last + META_WORDS_PER_DISPATCH
        } else {
            meta.len() as int
        },
    )
}

/// Builds the command buffer of a resolved window: the bytes for the parameter buffer and
/// one command for each dispatch, in queue order, with the place of its parameters in the
/// parameter buffer as the dynamic offset.
pub fn get_command_buffer(
    cache: &ModelCache,
    shader: &ShaderModuleComputePipelines,
    meta_array: &Vec<u32>,
    command_queue: &Vec<MlQueueDispatch>,
    start: usize,
    end: usize,
    closed_by_cache: bool,
) -> (plan: CommandBufferPlan)
    requires
        start < end <= command_queue@.len(),
        forall|k: int|
            start <= k < end ==> (#[trigger] command_queue@[k]).bindgroup is CachedBindgroup
                && command_queue@[k].pipeline_cached is Some && command_queue@[start as int].meta
                <= command_queue@[k].meta && (command_queue@[k].meta
                - command_queue@[start as int].meta) * 4 + META_MARGIN <= META_BUFFER_SIZE,
        command_queue@[end - 1].meta <= meta_array@.len(),
    ensures
        plan.start == start,
        plan.end == end,
        plan.closed_by_cache == closed_by_cache,
        plan.storage_count == cache.pool().len(),
        plan.bindgroup_count == cache.bindgroups@.len(),
        plan.pipeline_count == shader.pipelines@.len(),
        plan.shader_count == shader.shaders@.len(),
        plan.dispatches@ == Seq::new(
            (end - start) as nat,
            |k: int| command_of(command_queue@[start + k], command_queue@[start as int].meta),
        ),
        in_memory(
            window_words(
                meta_array@,
                command_queue@[start as int].meta as int,
                command_queue@[end - 1].meta as int,
            ),
            plan.meta@,
        ),
        plan.meta@.len() + 256 <= META_BUFFER_SIZE,
{
    let origin: u32 = command_queue[start].meta;
    let last_meta: usize = command_queue[end - 1].meta as usize;
    let upper: usize = if meta_array.len() - last_meta >= META_WORDS_PER_DISPATCH {
        last_meta + META_WORDS_PER_DISPATCH
    } else {
        meta_array.len()
    };
    let data: Vec<u8> = words_to_bytes(
        vstd::slice::slice_subrange(meta_array.as_slice(), origin as usize, upper),
    );
    let mut dispatches: Vec<DispatchCommand> = Vec::new();
    let mut k: usize = start;
    while k < end
        invariant
            start <= k <= end <= command_queue@.len(),
            origin == command_queue@[start as int].meta,
            forall|j: int|
                start <= j < end ==> (#[trigger] command_queue@[j]).bindgroup is CachedBindgroup
                    && command_queue@[j].pipeline_cached is Some &&
                        command_queue@[start as int].meta
                    <= command_queue@[j].meta && (command_queue@[j].meta
                    - command_queue@[start as int].meta) * 4 + META_MARGIN <= META_BUFFER_SIZE,
            dispatches@.len() == k - start,
            forall|j: int|
                0 <= j < k - start ==> dispatches@[j] == command_of(
                    command_queue@[start + j],
                    origin,
                ),
        decreases end - k,
    {
        let q: MlQueueDispatch = command_queue[k];
        let bindgroup: usize = match q.bindgroup {
            DispatchedBindgroup::CachedBindgroup(b) => b,
            _ => 0,
        };
        let pipeline: usize = match q.pipeline_cached {
            Some(p) => p,
            None => 0,
        };
        let meta: u32 = q.meta - origin;
        dispatches.push(
            DispatchCommand {
                pipeline,
                bindgroup,
                dynamic_offset: meta * 4,
                x: q.x,
                y: q.y,
                z: q.z,
            },
        );
        k = k + 1;
    }
    assert(dispatches@ =~= Seq::new(
        (end - start) as nat,
        |k: int| command_of(command_queue@[start + k], command_queue@[start as int].meta),
    ));
    CommandBufferPlan {
        start,
        end,
        meta: data,
        dispatches,
        storage_count: cache.buffers.buffers.len(),
        bindgroup_count: cache.bindgroups.len(),
        pipeline_count: shader.pipelines.len(),
        shader_count: shader.shaders.len(),
        closed_by_cache,
    }
}

/// Whether a command buffer is the window of the queue that it names: its dispatches
/// form a window that was closed for a reason, it holds one command for each of them in
/// queue order with the workgroup counts and the parameter offset of that dispatch, and
/// its bytes are the window's part of the parameter blob.
pub open spec fn plan_matches(
    plan: CommandBufferPlan,
    records: Seq<MlQueueDispatch>,
    meta: Seq<u32>,
) -> bool {
    &&& is_window(records, plan.start as int, plan.end as int)
    &&& plan.end == records.len() || plan.closed_by_cache || !may_join(
        records,
        plan.start as int,
        plan.end as int,
    )
    &&& plan.dispatches@.len() == plan.end - plan.start
    &&& forall|k: int|
        0 <= k < plan.dispatches@.len() ==> {
            let command = #[trigger] plan.dispatches@[k];
            let queued = records[plan.start + k];
            &&& command.x == queued.x
            &&& command.y == queued.y
            &&& command.z == queued.z
            &&& command.dynamic_offset == (queued.meta - records[plan.start as int].meta) * 4
            &&& command.pipeline < plan.pipeline_count
            &&& command.bindgroup < plan.bindgroup_count
        }
    &&& in_memory(
        window_words(
            meta,
            records[plan.start as int].meta as int,
            records[plan.end - 1].meta as int,
        ),
        plan.meta@,
    )
}

/// Whether every command of a command buffer runs the kernel of its dispatch, or the
/// in-place twin of that kernel, with the dispatch's constants.
pub open spec fn plan_runs(
    plan: CommandBufferPlan,
    records: Seq<MlQueueDispatch>,
    pipelines: Seq<CachedPipeline>,
) -> bool {
    forall|k: int|
        0 <= k < plan.dispatches@.len() ==> {
            let command = #[trigger] plan.dispatches@[k];
            let queued = records[plan.start + k];
            ||| holds_pipeline(pipelines, command.pipeline as int, queued.pipeline)
            ||| (inplace_variant(queued.pipeline.0) is Some && holds_pipeline(
                pipelines,
                command.pipeline as int,
                resolved_pipeline(queued.pipeline, true),
            ))
        }
}

/// Whether the command buffers take the first `upto` dispatches of the queue in queue
/// order, each dispatch once: the first window begins at the front, each next one
/// begins where the one before it ended, and the last one ends at `upto`.
pub open spec fn plans_cover(
    plans: Seq<CommandBufferPlan>,
    records: Seq<MlQueueDispatch>,
    meta: Seq<u32>,
    upto: int,
) -> bool {
    &&& forall|w: int| 0 <= w < plans.len() ==> plan_matches(#[trigger] plans[w], records, meta)
    &&& plans.len() == 0 ==> upto == 0
    &&& plans.len() > 0 ==> plans[0].start == 0 && plans[plans.len() - 1].end == upto
    &&& forall|w: int|
        0 <= w < plans.len() - 1 ==> (#[trigger] plans[w]).end == plans[w + 1].start
}

/// Once the use ranges of a queue are known, they tell of every dispatch which of its
/// logical buffers no later dispatch binds.
pub proof fn lemma_use_ranges_known(
    records: Seq<MlQueueDispatch>,
    first: Seq<usize>,
    last: Seq<usize>,
    i: int,
)
    requires
        is_use_ranges(records, first, last, records.len() as int),
        buffers_known(records, first.len() as int),
        0 <= i < records.len(),
    ensures
        last_use_known(records, i, last),
{
    assert forall|b: usize| #[trigger] uses(records, i, b) implies b < last.len() && (last[b as int]
        == i <==> forall|j: int| j > i ==> !#[trigger] uses(records, j, b)) by {
        assert(b < first.len());
        assert(first[b as int] <= i <= last[b as int]);
        assert(last[b as int] < records.len());
        assert(first[b as int] < records.len());
        assert(uses(records, last[b as int] as int, b));
        if last[b as int] == i {
            assert forall|j: int| j > i implies !#[trigger] uses(records, j, b) by {
                if uses(records, j, b) {
                    assert(j <= last[b as int]);
                }
            }
        }
    }
}

/// The state in which resolving the queued batch begins: the caches as they are, and of
/// the storage buffers of the batch what is remembered with its pattern.
pub open spec fn batch_start(dev: WgpuDevice) -> BatchState {
    BatchState {
        references: dev.cache.references@,
        pool: dev.cache.pool(),
        bindgroups: dev.cache.bindgroups@,
        storages: started(
            dev.cache.mappings.patterns@,
            pattern_hash_spec(dev.command_queue.records()),
        ),
        shaders: dev.shader.shaders@,
        pipelines: dev.shader.pipelines@,
    }
}

/// Whether a command buffer holds what resolving the batch from the state `begin` on
/// makes of the dispatches of its window: each command is that of the resolved dispatch;
/// resolving put pressure on the cache of binding objects at the last dispatch of the
/// window if the window was closed for it, and nowhere else in the window; and the counts
/// are those of the state behind the window.
pub open spec fn plan_resolves(
    plan: CommandBufferPlan,
    begin: BatchState,
    records: Seq<MlQueueDispatch>,
    max_bindgroups: int,
) -> bool {
    let behind = state_between(begin, records, max_bindgroups, 0, plan.end as int);
    &&& forall|k: int|
        0 <= k < plan.dispatches@.len() ==> #[trigger] plan.dispatches@[k] == command_of(
            resolved_record(begin, records, max_bindgroups, 0, plan.start + k),
            records[plan.start as int].meta,
        )
    &&& forall|j: int|
        plan.start <= j < plan.end ==> (#[trigger] pressure_at(
            begin,
            records,
            max_bindgroups,
            0,
            j,
        ) <==> plan.closed_by_cache && j == plan.end - 1)
    &&& plan.storage_count == behind.pool.len()
    &&& plan.bindgroup_count == behind.bindgroups.len()
    &&& plan.pipeline_count == behind.pipelines.len()
    &&& plan.shader_count == behind.shaders.len()
}

/// What resolving a window says of itself, counted from the beginning of the window,
/// holds counted from the beginning of the batch.
pub proof fn lemma_plan_resolves(
    plan: CommandBufferPlan,
    begin: BatchState,
    behind: BatchState,
    orig: Seq<MlQueueDispatch>,
    before: Seq<MlQueueDispatch>,
    after: Seq<MlQueueDispatch>,
    max_bindgroups: int,
)
    requires
        0 <= plan.start < plan.end <= orig.len(),
        orig.len() == before.len(),
        orig.len() == after.len(),
        forall|j: int| plan.start <= j < orig.len() ==> before[j] == orig[j],
        behind == state_between(
            state_between(begin, orig, max_bindgroups, 0, plan.start as int),
            before,
            max_bindgroups,
            plan.start as int,
            plan.end as int,
        ),
        forall|j: int|
            plan.start <= j < plan.end ==> #[trigger] after[j] == resolved_record(
                state_between(begin, orig, max_bindgroups, 0, plan.start as int),
                before,
                max_bindgroups,
                plan.start as int,
                j,
            ),
        forall|j: int|
            plan.start <= j < plan.end ==> (#[trigger] pressure_at(
                state_between(begin, orig, max_bindgroups, 0, plan.start as int),
                before,
                max_bindgroups,
                plan.start as int,
                j,
            ) <==> plan.closed_by_cache && j == plan.end - 1),
        plan.dispatches@ == Seq::new(
            (plan.end - plan.start) as nat,
            |k: int| command_of(after[plan.start + k], after[plan.start as int].meta),
        ),
        after[plan.start as int].meta == orig[plan.start as int].meta,
        plan.storage_count == behind.pool.len(),
        plan.bindgroup_count == behind.bindgroups.len(),
        plan.pipeline_count == behind.pipelines.len(),
        plan.shader_count == behind.shaders.len(),
    ensures
        plan_resolves(plan, begin, orig, max_bindgroups),
        behind == state_between(begin, orig, max_bindgroups, 0, plan.end as int),
{
    let start = plan.start as int;
    let at_start = state_between(begin, orig, max_bindgroups, 0, start);
    assert forall|j: int| start <= j <= plan.end implies state_between(
        at_start,
        before,
        max_bindgroups,
        start,
        j,
    ) == #[trigger] state_between(begin, orig, max_bindgroups, 0, j) by {
        lemma_between_needs_suffix(at_start, before, orig, max_bindgroups, start, j);
        lemma_between_joins(begin, orig, max_bindgroups, 0, start, j);
    }
    assert forall|j: int| start <= j < plan.end implies resolved_step(
        state_between(begin, orig, max_bindgroups, 0, j),
        before,
        j,
        max_bindgroups,
    ) == resolved_step(state_between(begin, orig, max_bindgroups, 0, j), orig, j,
        max_bindgroups) by {
        lemma_step_needs_suffix(
            state_between(begin, orig, max_bindgroups, 0, j),
            before,
            orig,
            j,
            max_bindgroups,
        );
    }
    assert(behind == state_between(begin, orig, max_bindgroups, 0, plan.end as int));
    assert forall|k: int| 0 <= k < plan.dispatches@.len() implies #[trigger] plan.dispatches@[k]
        == command_of(
        resolved_record(begin, orig, max_bindgroups, 0, plan.start + k),
        orig[plan.start as int].meta,
    ) by {
        let j = start + k;
        assert(after[j] == resolved_record(at_start, before, max_bindgroups, start, j));
        assert(state_between(at_start, before, max_bindgroups, start, j) == state_between(
            begin,
            orig,
            max_bindgroups,
            0,
            j,
        ));
    }
    assert forall|j: int| plan.start <= j < plan.end implies (#[trigger] pressure_at(
        begin,
        orig,
        max_bindgroups,
        0,
        j,
    ) <==> plan.closed_by_cache && j == plan.end - 1) by {
        assert(state_between(at_start, before, max_bindgroups, start, j) == state_between(
            begin,
            orig,
            max_bindgroups,
            0,
            j,
        ));
        assert(pressure_at(at_start, before, max_bindgroups, start, j) <==> plan.closed_by_cache
            && j == plan.end - 1);
    }
}

/// How the pool may change over a whole flush: storage buffers are added, and none
/// changes its size.
pub open spec fn pool_ages(before: Seq<CachedBuffer>, after: Seq<CachedBuffer>) -> bool {
    &&& before.len() <= after.len()
    &&& forall|s: int| 0 <= s < before.len() ==> (#[trigger] after[s]).size == before[s].size
}

/// Whether `after` is the state of the caches that flushing the queue of `before` leaves:
/// every dispatch was resolved in queue order, from the state [`batch_start`] on; then free
/// storage buffers were given back while the pool held more than its ceiling, and the
/// binding objects made from them were dropped; and what was noted of the storage buffers
/// of the batch is remembered with the pattern of its hash, see [`remembered`].
pub open spec fn flushed(before: WgpuDevice, after: WgpuDevice) -> bool {
    let records = before.command_queue.records();
    let max_bindgroups = before.cache.max_bindgroups as int;
    let resolved = state_between(
        batch_start(before),
        records,
        max_bindgroups,
        0,
        records.len() as int,
    );
    &&& after.cache.references@ == resolved.references
    &&& after.cache.pool() == reclaimed_upto(
        resolved.pool,
        resolved.pool.len() as int,
        after.cache.buffers.max_memory_allowed,
    ).0
    &&& after.cache.bindgroups@ == after_removal(
        resolved.bindgroups,
        after.cache.pool(),
        max_bindgroups,
    )
    &&& after.shader.shaders@ == resolved.shaders
    &&& after.shader.pipelines@ == resolved.pipelines
    &&& pattern_views(after.cache.mappings.patterns@) == remembered(
        pattern_views(before.cache.mappings.patterns@),
        pattern_hash_spec(records),
        resolved.storages,
    )
}

/// Whether flushing the queue of `before` leaves `after` and gives `plan`.
///
/// An empty queue gives no command buffer and changes nothing. Otherwise the queue and
/// the parameter blob are emptied, and the constants of a dispatch under construction
/// stay; the command buffers cover the queue in order, window by window, and each holds
/// what resolving its window made; the caches are those of [`flushed`], under the ceiling
/// that follows the high-water mark of the batch; and the plan lists every binding object
/// and every storage buffer that was dropped.
pub open spec fn flush_sent(before: WgpuDevice, after: WgpuDevice, plan: FlushPlan) -> bool {
    &&& after.command_queue.records() =~= Seq::<MlQueueDispatch>::empty()
    &&& before.command_queue.records().len() > 0 ==> after.command_queue.meta()
        =~= Seq::<u32>::empty() && after.command_queue.current_meta == 0
    &&& before.command_queue.records().len() == 0 ==> after.command_queue.meta() ==
        before.command_queue.meta() && after.command_queue.current_meta ==
        before.command_queue.current_meta
    &&& after.command_queue.const_id_map == before.command_queue.const_id_map
    &&& after.command_queue.const_array == before.command_queue.const_array
    &&& after.device_limits == before.device_limits
    &&& after.use_cache == before.use_cache
    &&& after.matmul_alg == before.matmul_alg
    &&& after.cache.max_bindgroups == before.cache.max_bindgroups
    &&& before.command_queue.records().len() > 0 ==> after.cache.mappings.current is None
    &&& before.command_queue.records().len() == 0 ==> after.cache.mappings ==
        before.cache.mappings
    &&& plans_cover(
        plan.command_buffers@,
        before.command_queue.records(),
        before.command_queue.meta(),
        before.command_queue.records().len() as int,
    )
    &&& forall|w: int|
        0 <= w < plan.command_buffers@.len() ==> plan_runs(
            #[trigger] plan.command_buffers@[w],
            before.command_queue.records(),
            after.shader.pipelines@,
        )
    &&& forall|w: int|
        0 <= w < plan.command_buffers@.len() ==>
            (#[trigger] plan.command_buffers@[w]).storage_count
            <= after.cache.pool().len() && plan.command_buffers@[w].bindgroup_count
            <= after.cache.bindgroups@.len() && plan.command_buffers@[w].pipeline_count
            <= after.shader.pipelines@.len() && plan.command_buffers@[w].shader_count
            <= after.shader.shaders@.len()
    &&& references_evolve(before.cache.references@, after.cache.references@)
    &&& pool_ages(before.cache.pool(), after.cache.pool())
    &&& bindgroups_evolve(before.cache.bindgroups@, after.cache.bindgroups@)
    &&& programs_evolve(before.shader, after.shader)
    &&& before.command_queue.records().len() == 0 ==> after.cache.references@ ==
        before.cache.references@ && after.cache.pool() == before.cache.pool() &&
        after.cache.bindgroups@ == before.cache.bindgroups@ &&
        after.cache.buffers.max_memory_allowed == before.cache.buffers.max_memory_allowed
        && plan.dropped_bindgroups@.len() == 0 && plan.dropped_buffers@.len() == 0
    &&& before.command_queue.records().len() > 0 ==>
        after.cache.buffers.max_memory_allowed == next_ceiling(
        before.cache.buffers.max_memory_allowed,
        clamp_to_u64(
            high_water_mark_spec(
                before.command_queue.records(),
                before.cache.references@,
                in_use(before.cache.pool()),
            ),
        ),
    )
    &&& before.command_queue.records().len() > 0 ==> flushed(before, after)
    &&& forall|g: BindgroupId|
        g < after.cache.bindgroups@.len() && !after.cache.bindgroups@[g as int].alive
            && (g < before.cache.bindgroups@.len() ==>
                before.cache.bindgroups@[g as int].alive)
            ==> #[trigger] plan.dropped_bindgroups@.contains(g)
    &&& forall|b: CachedBufferId|
        b < after.cache.pool().len() && after.cache.pool()[b as int].state is Deleted
            && (b < before.cache.pool().len() ==> !(before.cache.pool()[b as int].state
            is Deleted)) ==> #[trigger] plan.dropped_buffers@.contains(b)
    &&& forall|w: int|
        0 <= w < plan.command_buffers@.len() ==> plan_resolves(
            #[trigger] plan.command_buffers@[w],
            batch_start(before),
            before.command_queue.records(),
            before.cache.max_bindgroups as int,
        )
    &&& forall|k: int|
        0 <= k < plan.dropped_bindgroups@.len() ==> (#[trigger] plan.dropped_bindgroups@[k])
            < after.cache.bindgroups@.len() &&
                !after.cache.bindgroups@[plan.dropped_bindgroups@[k] as int].alive
    &&& forall|k: int|
        0 <= k < plan.dropped_buffers@.len() ==>
            (#[trigger] plan.dropped_buffers@[k]) < after.cache.pool().len() &&
            after.cache.pool()[plan.dropped_buffers@[k] as int].state
            is Deleted
}

/// Sends everything that is queued to the device, as data: one command buffer for each
/// window of the queue, in queue order.
///
/// An empty queue gives no command buffer and changes nothing. Otherwise the pattern of
/// the batch becomes the pattern at hand, and the ceiling on pooled memory follows the
/// high-water mark of the batch. The queue is then cut
/// into windows from the front; every dispatch is resolved in queue order, and each
/// window becomes one command buffer. The queue and the parameter blob are emptied; the
/// constants of a dispatch under construction stay.
/// At last free storage buffers beyond the ceiling are given back, and the binding
/// objects made from them are dropped; both are listed in the result.
pub fn flush_gpu_command(dev: &mut WgpuDevice) -> (plan: FlushPlan)
    requires
        old(dev).wf(),
    ensures
        final(dev).wf(),
        flush_sent(*old(dev), *final(dev), plan),
{
    let mut command_buffers: Vec<CommandBufferPlan> = Vec::new();
    let mut dropped_bindgroups: Vec<BindgroupId> = Vec::new();
    let mut dropped_buffers: Vec<CachedBufferId> = Vec::new();
    let n: usize = dev.command_queue.command_queue.len();
    if n > 0 {
        let ghost orig = dev.command_queue.records();
        let ghost meta = dev.command_queue.meta();
        prepare(&mut dev.cache, &dev.command_queue.command_queue);
        let ghost begin = batch_state(dev.cache, dev.shader);
        let ghost max_bindgroups = dev.cache.max_bindgroups as int;
        let ghost patterns = dev.cache.mappings.patterns@;
        let ghost current = dev.cache.mappings.current;
        assert(begin == batch_start(*old(dev)));
        let (first, last) = use_ranges(&dev.command_queue.command_queue,
            dev.cache.references.len());
        proof {
            assert forall|i: int| 0 <= i < orig.len() implies #[trigger] last_use_known(
                orig,
                i,
                last@,
            ) by {
                lemma_use_ranges_known(orig, first@, last@, i);
            }
            assert(ready_from(orig, 0, last@));
        }
        let mut index: usize = 0;
        while index < n
            invariant
                n == orig.len(),
                n > 0,
                index <= n,
                dev.command_queue.command_queue@.len() == n,
                dev.command_queue.meta_array == old(dev).command_queue.meta_array,
                meta == old(dev).command_queue.meta(),
                orig == old(dev).command_queue.records(),
                old(dev).wf(),
                dev.command_queue.const_id_map == old(dev).command_queue.const_id_map,
                dev.command_queue.const_array == old(dev).command_queue.const_array,
                dev.command_queue.current_meta == old(dev).command_queue.current_meta,
                dev.device_limits == old(dev).device_limits,
                dev.use_cache == old(dev).use_cache,
                dev.matmul_alg == old(dev).matmul_alg,
                dev.cache.wf(),
                dev.shader.wf(),
                dev.cache.mappings.current is Some,
                forall|g: BindgroupId|
                    g < dev.cache.bindgroups@.len() && !dev.cache.bindgroups@[g as int].alive && (g
                        < old(dev).cache.bindgroups@.len() ==>
                            old(dev).cache.bindgroups@[g as int].alive)
                        ==> #[trigger] dropped_bindgroups@.contains(g),
                dev.cache.mappings.current == current,
                dev.cache.mappings.patterns@ == patterns,
                current matches Some(c) && holds_hash(patterns, c as int, pattern_hash_spec(orig)),
                begin == batch_start(*old(dev)),
                max_bindgroups == old(dev).cache.max_bindgroups,
                batch_state(dev.cache, dev.shader) == state_between(
                    begin,
                    orig,
                    max_bindgroups,
                    0,
                    index as int,
                ),
                forall|w: int|
                    0 <= w < command_buffers@.len() ==> plan_resolves(
                        #[trigger] command_buffers@[w],
                        begin,
                        orig,
                        max_bindgroups,
                    ),
                dev.cache.max_bindgroups == old(dev).cache.max_bindgroups,
                dev.cache.buffers.max_memory_allowed == next_ceiling(
                    old(dev).cache.buffers.max_memory_allowed,
                    clamp_to_u64(
                        high_water_mark_spec(
                            orig,
                            old(dev).cache.references@,
                            in_use(old(dev).cache.pool()),
                        ),
                    ),
                ),
                references_evolve(old(dev).cache.references@, dev.cache.references@),
                pool_evolves(old(dev).cache.pool(), dev.cache.pool()),
                bindgroups_evolve(old(dev).cache.bindgroups@, dev.cache.bindgroups@),
                programs_evolve(old(dev).shader, dev.shader),
                last@.len() == dev.cache.references@.len(),
                ready_from(dev.command_queue.command_queue@, index as int, last@),
                forall|j: int| index <= j < n ==> dev.command_queue.command_queue@[j] == orig[j],
                plans_cover(command_buffers@, orig, meta, index as int),
                forall|w: int|
                    0 <= w < command_buffers@.len() ==> plan_runs(
                        #[trigger] command_buffers@[w],
                        orig,
                        dev.shader.pipelines@,
                    ),
                forall|w: int|
                    0 <= w < command_buffers@.len() ==>
                        (#[trigger] command_buffers@[w]).storage_count
                        <= dev.cache.pool().len() && command_buffers@[w].bindgroup_count
                        <= dev.cache.bindgroups@.len() && command_buffers@[w].pipeline_count
                        <= dev.shader.pipelines@.len() && command_buffers@[w].shader_count
                        <= dev.shader.shaders@.len(),
                forall|k: int|
                    0 <= k < dropped_bindgroups@.len() ==> (#[trigger] dropped_bindgroups@[k])
                        < dev.cache.bindgroups@.len() &&
                            !dev.cache.bindgroups@[dropped_bindgroups@[k] as int].alive,
            decreases n - index,
        {
            let start_index: usize = index;
            let ghost queue_before = dev.command_queue.command_queue@;
            let ghost pipelines_before = dev.shader.pipelines@;
            let ghost bindgroups_before = dev.cache.bindgroups@;
            let ghost plans_before = command_buffers@;
            let ghost dropped_mid = dropped_bindgroups@;
            proof {
                assert forall|i: int, b: usize|
                    start_index <= i && #[trigger] uses(queue_before, i, b) implies b
                    < dev.cache.references@.len() by {
                    assert(uses(orig, i, b));
                }
            }
            let cache_limit: bool = set_buffers(
                &mut dev.cache,
                &mut dev.shader,
                &mut dev.command_queue.command_queue,
                &mut index,
                &last,
                &mut dropped_bindgroups,
            );
            proof {
                assert forall|k: int| start_index <= k < index implies (
                #[trigger] dev.command_queue.command_queue@[k]).bindgroup is CachedBindgroup
                    && dev.command_queue.command_queue@[k].pipeline_cached is Some
                    && dev.command_queue.command_queue@[start_index as int].meta
                    <= dev.command_queue.command_queue@[k].meta && (
                dev.command_queue.command_queue@[k].meta
                    - dev.command_queue.command_queue@[start_index as int].meta) * 4 + META_MARGIN
                    <= META_BUFFER_SIZE by {
                    assert(resolved(
                        queue_before[k],
                        dev.command_queue.command_queue@[k],
                        dev.cache.bindgroups@,
                        dev.shader.pipelines@,
                    ));
                    assert(resolved(
                        queue_before[start_index as int],
                        dev.command_queue.command_queue@[start_index as int],
                        dev.cache.bindgroups@,
                        dev.shader.pipelines@,
                    ));
                    lemma_window_meta(queue_before, start_index as int, index as int, k);
                    assert(orig[start_index as int].meta <= orig[k].meta);
                }
                assert(resolved(
                    queue_before[index - 1],
                    dev.command_queue.command_queue@[index - 1],
                    dev.cache.bindgroups@,
                    dev.shader.pipelines@,
                ));
                assert(orig[index - 1].meta <= old(dev).command_queue.current_meta);
            }
            let cb: CommandBufferPlan = get_command_buffer(
                &dev.cache,
                &dev.shader,
                &dev.command_queue.meta_array.0,
                &dev.command_queue.command_queue,
                start_index,
                index,
                cache_limit,
            );
            proof {
                assert(is_window(orig, start_index as int, index as int)) by {
                    assert forall|i: int| start_index < i < index implies #[trigger] may_join(
                        orig,
                        start_index as int,
                        i,
                    ) by {
                        assert(may_join(queue_before, start_index as int, i));
                        lemma_workload_sum_same(queue_before, orig, start_index as int, i);
                    }
                }
                if !(index == n || cache_limit) {
                    lemma_workload_sum_same(queue_before, orig, start_index as int, index as int);
                }
                assert forall|k: int| 0 <= k < cb.dispatches@.len() implies {
                    let command = #[trigger] cb.dispatches@[k];
                    let queued = orig[cb.start + k];
                    &&& command.x == queued.x
                    &&& command.y == queued.y
                    &&& command.z == queued.z
                    &&& command.dynamic_offset == (queued.meta - orig[cb.start as int].meta) * 4
                    &&& command.pipeline < cb.pipeline_count
                    &&& command.bindgroup < cb.bindgroup_count
                    &&& (holds_pipeline(dev.shader.pipelines@, command.pipeline as int,
                        queued.pipeline)
                        || (inplace_variant(queued.pipeline.0) is Some && holds_pipeline(
                        dev.shader.pipelines@,
                        command.pipeline as int,
                        resolved_pipeline(queued.pipeline, true),
                    )))
                } by {
                    assert(resolved(
                        queue_before[start_index + k],
                        dev.command_queue.command_queue@[start_index + k],
                        dev.cache.bindgroups@,
                        dev.shader.pipelines@,
                    ));
                    assert(resolved(
                        queue_before[start_index as int],
                        dev.command_queue.command_queue@[start_index as int],
                        dev.cache.bindgroups@,
                        dev.shader.pipelines@,
                    ));
                }
                assert(plan_matches(cb, orig, meta));
                assert(plan_runs(cb, orig, dev.shader.pipelines@));
            }
            proof {
                lemma_plan_resolves(
                    cb,
                    begin,
                    batch_state(dev.cache, dev.shader),
                    orig,
                    queue_before,
                    dev.command_queue.command_queue@,
                    max_bindgroups,
                );
            }
            command_buffers.push(cb);
            proof {
                assert forall|w: int| 0 <= w < command_buffers@.len() implies plan_resolves(
                    #[trigger] command_buffers@[w],
                    begin,
                    orig,
                    max_bindgroups,
                ) by {
                    if w < plans_before.len() {
                        assert(command_buffers@[w] == plans_before[w]);
                    }
                }
                assert forall|w: int| 0 <= w < command_buffers@.len() implies plan_matches(
                    #[trigger] command_buffers@[w],
                    orig,
                    meta,
                ) by {
                    if w < plans_before.len() {
                        assert(command_buffers@[w] == plans_before[w]);
                    }
                }
                assert forall|w: int| 0 <= w < command_buffers@.len() implies plan_runs(
                    #[trigger] command_buffers@[w],
                    orig,
                    dev.shader.pipelines@,
                ) by {
                    if w < plans_before.len() {
                        assert(command_buffers@[w] == plans_before[w]);
                        assert(plan_runs(plans_before[w], orig, pipelines_before));
                    }
                }
                assert forall|w: int| 0 <= w < command_buffers@.len() - 1 implies (
                #[trigger] command_buffers@[w]).end == command_buffers@[w + 1].start by {
                    if w + 1 < plans_before.len() {
                        assert(command_buffers@[w] == plans_before[w]);
                        assert(command_buffers@[w + 1] == plans_before[w + 1]);
                    }
                }
                assert forall|k: int| 0 <= k < dropped_bindgroups@.len() implies (
                #[trigger] dropped_bindgroups@[k]) < dev.cache.bindgroups@.len()
                    && !dev.cache.bindgroups@[dropped_bindgroups@[k] as int].alive by {
                    if k < dropped_mid.len() {
                        assert(dropped_bindgroups@[k] == dropped_mid[k]);
                        assert(!bindgroups_before[dropped_mid[k] as int].alive);
                    }
                }
                assert forall|g: BindgroupId|
                    g < dev.cache.bindgroups@.len() && !dev.cache.bindgroups@[g as int].alive && (g
                        < old(dev).cache.bindgroups@.len() ==>
                            old(dev).cache.bindgroups@[g as int].alive) implies
                                #[trigger] dropped_bindgroups@.contains(
                    g,
                ) by {
                    if g < bindgroups_before.len() && !bindgroups_before[g as int].alive {
                        assert(dropped_mid.contains(g));
                        lemma_contains_grows(dropped_mid, dropped_bindgroups@, g);
                    }
                }
            }
        }
        dev.command_queue.command_queue.clear();
        dev.command_queue.meta_array.0.clear();
        dev.command_queue.current_meta = 0;
        let ghost pool_before = dev.cache.pool();
        let ghost bindgroups_before = dev.cache.bindgroups@;
        let ghost dropped_mid = dropped_bindgroups@;
        let ghost resolved = batch_state(dev.cache, dev.shader);
        dev.cache.mappings.finish();
        proof {
            lemma_remembered_at(
                pattern_views(old(dev).cache.mappings.patterns@),
                pattern_hash_spec(orig),
                resolved.storages,
                current->0 as int,
            );
        }
        dropped_buffers = dev.cache.buffers.remove_unused();
        let (_pressure, mut gone) = dev.cache.remove_unused();
        proof {
            assert forall|k: int| 0 <= k < gone@.len() implies (#[trigger] gone@[k])
                < dev.cache.bindgroups@.len() && !dev.cache.bindgroups@[gone@[k] as int].alive by {
                assert(gone@.contains(gone@[k]));
            }
        }
        let ghost gone_before = gone@;
        dropped_bindgroups.append(&mut gone);
        proof {
            assert forall|g: BindgroupId|
                g < dev.cache.bindgroups@.len() && !dev.cache.bindgroups@[g as int].alive && (g
                    < old(dev).cache.bindgroups@.len() ==>
                        old(dev).cache.bindgroups@[g as int].alive) implies
                            #[trigger] dropped_bindgroups@.contains(
                g,
            ) by {
                if !bindgroups_before[g as int].alive {
                    assert(dropped_mid.contains(g));
                    lemma_contains_grows(dropped_mid, dropped_bindgroups@, g);
                } else {
                    assert(gone_before.contains(g));
                    let k = choose|k: int| 0 <= k < gone_before.len() && gone_before[k] == g;
                    assert(dropped_bindgroups@[dropped_mid.len() + k] == g);
                }
            }
            assert forall|k: int| 0 <= k < dropped_bindgroups@.len() implies (
            #[trigger] dropped_bindgroups@[k]) < dev.cache.bindgroups@.len()
                && !dev.cache.bindgroups@[dropped_bindgroups@[k] as int].alive by {
                if k < dropped_mid.len() {
                    assert(dropped_bindgroups@[k] == dropped_mid[k]);
                    assert(!bindgroups_before[dropped_mid[k] as int].alive);
                }
            }
        }
    }
    FlushPlan { command_buffers, dropped_bindgroups, dropped_buffers }
}

/// The declared work of a stretch of the queue depends only on the dispatches in it.
pub proof fn lemma_workload_sum_same(
    a: Seq<MlQueueDispatch>,
    b: Seq<MlQueueDispatch>,
    from: int,
    to: int,
)
    requires
        0 <= from <= to,
        to <= a.len(),
        to <= b.len(),
        forall|i: int| from <= i < to ==> a[i].workload_size == b[i].workload_size,
    ensures
        workload_sum(a, from, to) == workload_sum(b, from, to),
    decreases to - from,
{
    if to > from {
        lemma_workload_sum_same(a, b, from, to - 1);
    }
}

/// The command buffers of a flush follow each other in queue order: a window that comes
/// earlier ends before a later one begins, and no window is empty.
pub proof fn lemma_cover_in_order(
    plans: Seq<CommandBufferPlan>,
    records: Seq<MlQueueDispatch>,
    meta: Seq<u32>,
    upto: int,
    v: int,
    w: int,
)
    requires
        plans_cover(plans, records, meta, upto),
        0 <= v < w < plans.len(),
    ensures
        plans[v].start < plans[v].end <= plans[w].start < plans[w].end,
    decreases w - v,
{
    assert(plan_matches(plans[v], records, meta));
    assert(plan_matches(plans[w], records, meta));
    assert(plan_matches(plans[w - 1], records, meta));
    assert(plans[w - 1].end == plans[w].start);
    if w > v + 1 {
        lemma_cover_in_order(plans, records, meta, upto, v, w - 1);
    }
}

/// Every queued dispatch is in one of the command buffers of a flush.
pub proof fn lemma_cover_reaches_every_dispatch(
    plans: Seq<CommandBufferPlan>,
    records: Seq<MlQueueDispatch>,
    meta: Seq<u32>,
    upto: int,
    i: int,
)
    requires
        plans_cover(plans, records, meta, upto),
        0 <= i < upto,
    ensures
        exists|w: int| 0 <= w < plans.len() && (#[trigger] plans[w]).start <= i < plans[w].end,
{
    lemma_reached_before(plans, records, meta, upto, i, plans.len() as int);
}

proof fn lemma_reached_before(
    plans: Seq<CommandBufferPlan>,
    records: Seq<MlQueueDispatch>,
    meta: Seq<u32>,
    upto: int,
    i: int,
    k: int,
)
    requires
        plans_cover(plans, records, meta, upto),
        1 <= k <= plans.len(),
        0 <= i < plans[k - 1].end,
    ensures
        exists|w: int| 0 <= w < k && (#[trigger] plans[w]).start <= i < plans[w].end,
    decreases k,
{
    if plans[k - 1].start <= i {
        assert(plans[k - 1].start <= i < plans[k - 1].end);
    } else {
        assert(k >= 2);
        assert(plans[k - 2].end == plans[k - 1].start);
        lemma_reached_before(plans, records, meta, upto, i, k - 1);
    }
}

/// A batch of more than one dispatch whose declared work exceeds the limit is split into
/// at least two command buffers.
pub proof fn lemma_over_limit_is_split(
    plans: Seq<CommandBufferPlan>,
    records: Seq<MlQueueDispatch>,
    meta: Seq<u32>,
)
    requires
        plans_cover(plans, records, meta, records.len() as int),
        workload_sum(records, 0, records.len() as int) > MAX_WORKLOAD_SIZE,
        records.len() > 1,
    ensures
        plans.len() >= 2,
{
    if plans.len() == 1 {
        assert(plan_matches(plans[0], records, meta));
        lemma_window_workload(records, 0, records.len() as int);
    }
}

/// Every command buffer of a flush keeps within the limit on work, unless it holds one
/// dispatch alone; and the parameters of each of its dispatches begin within the parameter
/// buffer, with the margin to spare.
pub proof fn lemma_cover_keeps_limits(
    plans: Seq<CommandBufferPlan>,
    records: Seq<MlQueueDispatch>,
    meta: Seq<u32>,
    upto: int,
    w: int,
    i: int,
)
    requires
        plans_cover(plans, records, meta, upto),
        0 <= w < plans.len(),
        plans[w].start <= i < plans[w].end,
    ensures
        workload_sum(records, plans[w].start as int, plans[w].end as int) <= MAX_WORKLOAD_SIZE
            || plans[w].end == plans[w].start + 1,
        meta_fits(records, plans[w].start as int, i),
{
    assert(plan_matches(plans[w], records, meta));
    lemma_window_workload(records, plans[w].start as int, plans[w].end as int);
    lemma_window_meta(records, plans[w].start as int, plans[w].end as int, i);
}

} // verus!

