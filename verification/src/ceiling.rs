//! The ceiling on pooled memory: how it follows the high-water marks of the batches.
use vstd::prelude::*;
use crate::buffer::buffers_known;
use crate::cache::ModelCache;
use crate::liveness::high_water_mark;
use crate::liveness::high_water_mark_spec;
use crate::pattern::begun_patterns;
use crate::pattern::holds_hash;
use crate::pattern::is_first_place;
use crate::pattern::pattern_views;
use crate::pattern::pattern_hash;
use crate::pattern::pattern_hash_spec;
use crate::pattern::started;
use crate::pool::in_use;
use crate::queue::MlQueueDispatch;
use crate::wide::clamp_to_u64;

verus! {

/// A high-water mark with a safety margin of a fifth on top, in the range of a `u64`.
pub open spec fn with_margin(mark: u64) -> u64 {
    clamp_to_u64(mark as int * 6 / 5)
}

/// The ceiling after a batch with the given high-water mark. A mark that with its margin
/// exceeds the ceiling raises the ceiling to it at once. Otherwise the ceiling moves a
/// tenth of the way down towards it: nine parts of the old ceiling and one part of the
/// mark with its margin, rounded down.
pub open spec fn next_ceiling(ceiling: u64, mark: u64) -> u64 {
    let target = with_margin(mark);
    if target > ceiling {
        target
    } else {
        ((9 * ceiling as int + target as int) / 10) as u64
    }
}

/// The ceiling after a batch with the given high-water mark; see [`next_ceiling`]. The new
/// ceiling is never below the mark.
pub fn next_memory_ceiling(ceiling: u64, mark: u64) -> (r: u64)
    ensures
        r == next_ceiling(ceiling, mark),
        r >= with_margin(mark) >= mark,
        with_margin(mark) <= ceiling ==> r <= ceiling,
{
    let wide: u128 = mark as u128 * 6 / 5;
    let target: u64 = if wide >= u64::MAX as u128 {
        u64::MAX
    } else {
        wide as u64
    };
    if target > ceiling {
        target
    } else {
        ((9 * ceiling as u128 + target as u128) / 10) as u64
    }
}

/// Gets the cache ready for a batch: makes the pattern of the batch, by its hash, the
/// pattern at hand; finds the batch's high-water mark, counting from the storage in use
/// now; and moves the ceiling on pooled memory after it.
pub fn prepare(cache: &mut ModelCache, records: &Vec<MlQueueDispatch>)
    requires
        old(cache).wf(),
        buffers_known(records@, old(cache).references@.len() as int),
    ensures
        final(cache).buffers.max_memory_allowed == next_ceiling(
            old(cache).buffers.max_memory_allowed,
            clamp_to_u64(
                high_water_mark_spec(
                    records@,
                    old(cache).references@,
                    in_use(old(cache).pool()),
                ),
            ),
        ),
        final(cache).buffers.buffers == old(cache).buffers.buffers,
        final(cache).references == old(cache).references,
        final(cache).bindgroups == old(cache).bindgroups,
        final(cache).max_bindgroups == old(cache).max_bindgroups,
        final(cache).wf(),
        final(cache).mappings.current_storages@ == started(
            old(cache).mappings.patterns@,
            pattern_hash_spec(records@),
        ),
        final(cache).mappings.current matches Some(c) && holds_hash(
            final(cache).mappings.patterns@,
            c as int,
            pattern_hash_spec(records@),
        ),
        pattern_views(final(cache).mappings.patterns@) == begun_patterns(
            pattern_views(old(cache).mappings.patterns@),
            pattern_hash_spec(records@),
        ),
        final(cache).mappings.current matches Some(c) && is_first_place(
            pattern_views(final(cache).mappings.patterns@),
            c as int,
            pattern_hash_spec(records@),
        ),
{
    let current_hash: u64 = pattern_hash(records);
    cache.mappings.set_current_buffer_mapping(current_hash);
    let base: u128 = cache.buffers.memory_in_use();
    let most_needed_storage: u64 = high_water_mark(records, &cache.references, base);
    cache.buffers.max_memory_allowed = next_memory_ceiling(
        cache.buffers.max_memory_allowed,
        most_needed_storage,
    );
}

} // verus!
