//! How much storage a batch of dispatches needs at once: the high-water mark.
use vstd::prelude::*;
use crate::buffer::buffers_known;
use crate::buffer::record_buffers;
use crate::buffer::uses;
use crate::buffer::BufferReference;
use crate::queue::BufferReferenceId;
use crate::queue::DispatchedBindgroup;
use crate::queue::MlQueueDispatch;
use crate::wide::clamp_to_u64;
use crate::wide::WideCount;

verus! {

/// Whether the logical buffer `b` is bound by the dispatch at place `i` or by an earlier one.
pub open spec fn touched_by(records: Seq<MlQueueDispatch>, b: BufferReferenceId, i: int) -> bool {
    exists|j: int| 0 <= j <= i && #[trigger] uses(records, j, b)
}

/// Whether the logical buffer `b` is bound by a dispatch before place `i` and by none from
/// place `i` on: its last use lies behind.
pub open spec fn done_before(records: Seq<MlQueueDispatch>, b: BufferReferenceId, i: int) -> bool {
    &&& exists|j: int| 0 <= j < i && #[trigger] uses(records, j, b)
    &&& forall|j: int| i <= j ==> !#[trigger] uses(records, j, b)
}

/// The bytes that the dispatches up to place `i` make necessary among the first `k`
/// logical buffers: the sizes of those without storage that one of them binds.
pub open spec fn added_upto(
    records: Seq<MlQueueDispatch>,
    references: Seq<BufferReference>,
    i: int,
    k: int,
) -> int
    decreases k,
{
    if k <= 0 {
        0
    } else {
        added_upto(records, references, i, k - 1) + if references[k - 1].storage is None
            && touched_by(records, (k - 1) as usize, i) {
            references[k - 1].size as int
        } else {
            0
        }
    }
}

/// The bytes that have become free before the dispatch at place `i` among the first `k`
/// logical buffers: the sizes of those no tensor refers to whose last use lies behind.
pub open spec fn released_upto(
    records: Seq<MlQueueDispatch>,
    references: Seq<BufferReference>,
    i: int,
    k: int,
) -> int
    decreases k,
{
    if k <= 0 {
        0
    } else {
        released_upto(records, references, i, k - 1) + if !references[k
            - 1].referenced_by_storage && done_before(records, (k - 1) as usize, i) {
            references[k - 1].size as int
        } else {
            0
        }
    }
}

/// The bytes of storage that are live while the dispatch at place `i` runs: the `base`
/// in use before the batch, with what the dispatches so far have made necessary and
/// without what has become free.
pub open spec fn demand_at(
    records: Seq<MlQueueDispatch>,
    references: Seq<BufferReference>,
    base: int,
    i: int,
) -> int {
    base + added_upto(records, references, i, references.len() as int) - released_upto(
        records,
        references,
        i,
        references.len() as int,
    )
}

/// The most storage live at once over the first `k` dispatches, and `base` at the least.
pub open spec fn peak_upto(
    records: Seq<MlQueueDispatch>,
    references: Seq<BufferReference>,
    base: int,
    k: int,
) -> int
    decreases k,
{
    if k <= 0 {
        base
    } else {
        let before = peak_upto(records, references, base, k - 1);
        let here = demand_at(records, references, base, k - 1);
        if here > before {
            here
        } else {
            before
        }
    }
}

/// The high-water mark of a batch: the most storage live at once over all its dispatches.
pub open spec fn high_water_mark_spec(
    records: Seq<MlQueueDispatch>,
    references: Seq<BufferReference>,
    base: int,
) -> int {
    peak_upto(records, references, base, records.len() as int)
}

/// The high-water mark never undercounts: it is at least the storage live during any one
/// dispatch of the batch, and at least what was in use before the batch.
pub proof fn lemma_high_water_mark_covers(
    records: Seq<MlQueueDispatch>,
    references: Seq<BufferReference>,
    base: int,
    i: int,
)
    requires
        0 <= i < records.len(),
    ensures
        high_water_mark_spec(records, references, base) >= demand_at(records, references, base, i),
        high_water_mark_spec(records, references, base) >= base,
{
    lemma_peak_covers(records, references, base, records.len() as int, i);
}

/// The peak over the first `k` dispatches covers each of them.
pub proof fn lemma_peak_covers(
    records: Seq<MlQueueDispatch>,
    references: Seq<BufferReference>,
    base: int,
    k: int,
    i: int,
)
    requires
        0 <= i < k,
    ensures
        peak_upto(records, references, base, k) >= demand_at(records, references, base, i),
        peak_upto(records, references, base, k) >= base,
    decreases k,
{
    if k - 1 > i {
        lemma_peak_covers(records, references, base, k - 1, i);
    } else {
        lemma_peak_at_least_base(records, references, base, k - 1);
    }
}

/// The peak is never below what was in use before the batch.
pub proof fn lemma_peak_at_least_base(
    records: Seq<MlQueueDispatch>,
    references: Seq<BufferReference>,
    base: int,
    k: int,
)
    ensures
        peak_upto(records, references, base, k) >= base,
    decreases k,
{
    if k > 0 {
        lemma_peak_at_least_base(records, references, base, k - 1);
    }
}

/// Whether `b` stands among the first `k` entries of `buffers`.
pub open spec fn among_first(buffers: Seq<BufferReferenceId>, k: int,
    b: BufferReferenceId) -> bool {
    exists|m: int| 0 <= m < k && #[trigger] buffers[m] == b
}

/// Whether `first` and `last` hold, for every logical buffer, the places of the first and
/// of the last dispatch among the first `upto` that binds it, and the number of all
/// dispatches where none of them does.
pub open spec fn is_use_ranges(
    records: Seq<MlQueueDispatch>,
    first: Seq<usize>,
    last: Seq<usize>,
    upto: int,
) -> bool {
    &&& first.len() == last.len()
    &&& forall|b: usize|
        b < first.len() ==> (#[trigger] first[b as int]) <= records.len() && last[b as int]
            <= records.len() && (first[b as int] < records.len() <==> last[b as int]
            < records.len())
    &&& forall|b: usize|
        b < first.len() && (#[trigger] first[b as int]) < records.len() ==> first[b as int]
            <= last[b as int] < upto && uses(records, first[b as int] as int, b) && uses(
            records,
            last[b as int] as int,
            b,
        )
    &&& forall|b: usize, j: int|
        b < first.len() && 0 <= j < upto && #[trigger] uses(records, j, b) ==> first[b as int]
            <= j <= last[b as int] && last[b as int] < records.len()
}

/// The places of the first and of the last dispatch that binds each logical buffer; for a
/// buffer that no dispatch binds, the number of the dispatches in both places.
pub fn use_ranges(records: &Vec<MlQueueDispatch>, count: usize) -> (r: (Vec<usize>, Vec<usize>))
    requires
        buffers_known(records@, count as int),
    ensures
        r.0@.len() == count,
        is_use_ranges(records@, r.0@, r.1@, records@.len() as int),
{
    let n: usize = records.len();
    let mut first: Vec<usize> = Vec::new();
    let mut last: Vec<usize> = Vec::new();
    let mut b: usize = 0;
    while b < count
        invariant
            b <= count,
            first@.len() == b,
            last@.len() == b,
            forall|c: int| 0 <= c < b ==> first@[c] == n && last@[c] == n,
        decreases count - b,
    {
        first.push(n);
        last.push(n);
        b = b + 1;
    }
    let mut i: usize = 0;
    while i < n
        invariant
            n == records@.len(),
            i <= n,
            first@.len() == count,
            buffers_known(records@, count as int),
            is_use_ranges(records@, first@, last@, i as int),
        decreases n - i,
    {
        let record: MlQueueDispatch = records[i];
        match record.bindgroup {
            DispatchedBindgroup::BindgroupReference(br) => {
                let len: usize = br.len();
                let ghost buffers = record_buffers(records@[i as int]);
                assert(buffers == br.buffers());
                let mut k: usize = 0;
                while k < len
                    invariant
                        n == records@.len(),
                        i < n,
                        k <= len,
                        len == buffers.len(),
                        buffers == br.buffers(),
                        buffers == record_buffers(records@[i as int]),
                        first@.len() == count,
                        first@.len() == last@.len(),
                        buffers_known(records@, count as int),
                        forall|c: usize|
                            c < first@.len() ==> (#[trigger] first@[c as int]) <= n &&
                                last@[c as int]
                                <= n && (first@[c as int] < n <==> last@[c as int] < n),
                        forall|c: usize|
                            c < first@.len() && (#[trigger] first@[c as int]) < n ==>
                                first@[c as int]
                                <= last@[c as int] <= i && uses(
                                records@,
                                first@[c as int] as int,
                                c,
                            ) && uses(records@, last@[c as int] as int, c),
                        forall|c: usize, j: int|
                            c < first@.len() && 0 <= j < i && #[trigger] uses(records@, j, c)
                                ==> first@[c as int] <= j <= last@[c as int] && last@[c as int]
                                < n,
                        forall|c: usize|
                            c < first@.len() && among_first(buffers, k as int, c) ==> (
                            #[trigger] last@[c as int]) == i,
                    decreases len - k,
                {
                    let buffer: usize = br.get(k);
                    assert(buffers.contains(buffer));
                    assert(uses(records@, i as int, buffer));
                    if first[buffer] == n {
                        first.set(buffer, i);
                    }
                    last.set(buffer, i);
                    assert forall|c: usize|
                        c < first@.len() && among_first(buffers, k + 1, c) implies (
                    #[trigger] last@[c as int]) == i by {
                        let m = choose|m: int| 0 <= m < k + 1 && #[trigger] buffers[m] == c;
                        if m < k {
                            assert(among_first(buffers, k as int, c));
                        }
                    }
                    k = k + 1;
                }
                assert forall|c: usize, j: int|
                    c < first@.len() && 0 <= j < i + 1 && #[trigger] uses(
                        records@,
                        j,
                        c,
                    ) implies first@[c as int] <= j <= last@[c as int] && last@[c as int] < n by {
                    if j == i {
                        let m = choose|m: int|
                            0 <= m < buffers.len() && #[trigger] buffers[m] == c;
                        assert(among_first(buffers, len as int, c));
                    }
                }
            },
            _ => {
                assert(record_buffers(records@[i as int]).len() == 0);
            },
        }
        i = i + 1;
    }
    (first, last)
}

/// Of the first `k` logical buffers, the bytes of those without storage whose first use
/// is the dispatch at place `j`.
pub open spec fn add_at(first: Seq<usize>, references: Seq<BufferReference>, j: int, k: int) -> int
    decreases k,
{
    if k <= 0 {
        0
    } else {
        add_at(first, references, j, k - 1) + if first[k - 1] == j && references[k
            - 1].storage is None {
            references[k - 1].size as int
        } else {
            0
        }
    }
}

/// Of the first `k` logical buffers, the bytes of those no tensor refers to whose last use
/// is the dispatch at place `j`.
pub open spec fn rel_at(last: Seq<usize>, references: Seq<BufferReference>, j: int, k: int) -> int
    decreases k,
{
    if k <= 0 {
        0
    } else {
        rel_at(last, references, j, k - 1) + if last[k - 1] == j && !references[k
            - 1].referenced_by_storage {
            references[k - 1].size as int
        } else {
            0
        }
    }
}

/// Of the first `k` logical buffers, the bytes of those without storage whose first use
/// is at place `i` or before.
pub open spec fn cum_add(first: Seq<usize>, references: Seq<BufferReference>, i: int, k: int) -> int
    decreases k,
{
    if k <= 0 {
        0
    } else {
        cum_add(first, references, i, k - 1) + if first[k - 1] <= i && references[k
            - 1].storage is None {
            references[k - 1].size as int
        } else {
            0
        }
    }
}

/// Of the first `k` logical buffers, the bytes of those no tensor refers to whose last use
/// is before place `i`.
pub open spec fn cum_rel(last: Seq<usize>, references: Seq<BufferReference>, i: int, k: int) -> int
    decreases k,
{
    if k <= 0 {
        0
    } else {
        cum_rel(last, references, i, k - 1) + if last[k - 1] < i && !references[k
            - 1].referenced_by_storage {
            references[k - 1].size as int
        } else {
            0
        }
    }
}

proof fn lemma_cum_add_step(first: Seq<usize>, references: Seq<BufferReference>, i: int, k: int)
    ensures
        cum_add(first, references, i, k) == cum_add(first, references, i - 1, k) + add_at(
            first,
            references,
            i,
            k,
        ),
        i < 0 ==> cum_add(first, references, i, k) == 0,
        add_at(first, references, i, k) >= 0,
    decreases k,
{
    if k > 0 {
        lemma_cum_add_step(first, references, i, k - 1);
    }
}

proof fn lemma_cum_rel_step(last: Seq<usize>, references: Seq<BufferReference>, i: int, k: int)
    ensures
        cum_rel(last, references, i + 1, k) == cum_rel(last, references, i, k) + rel_at(
            last,
            references,
            i,
            k,
        ),
        i <= 0 ==> cum_rel(last, references, i, k) == 0,
        rel_at(last, references, i, k) >= 0,
    decreases k,
{
    if k > 0 {
        lemma_cum_rel_step(last, references, i, k - 1);
    }
}

proof fn lemma_cum_add_is_added(
    records: Seq<MlQueueDispatch>,
    references: Seq<BufferReference>,
    first: Seq<usize>,
    last: Seq<usize>,
    i: int,
    k: int,
)
    requires
        is_use_ranges(records, first, last, records.len() as int),
        first.len() == references.len(),
        references.len() <= usize::MAX,
        0 <= i < records.len(),
        0 <= k <= references.len(),
    ensures
        cum_add(first, references, i, k) == added_upto(records, references, i, k),
    decreases k,
{
    if k > 0 {
        lemma_cum_add_is_added(records, references, first, last, i, k - 1);
        let b: usize = (k - 1) as usize;
        if first[b as int] <= i {
            assert(first[b as int] < records.len());
            assert(uses(records, first[b as int] as int, b));
            assert(touched_by(records, b, i));
        }
        if touched_by(records, b, i) {
            let j = choose|j: int| 0 <= j <= i && #[trigger] uses(records, j, b);
            assert(uses(records, j, b));
            assert(first[b as int] <= j);
        }
    }
}

proof fn lemma_cum_rel_is_released(
    records: Seq<MlQueueDispatch>,
    references: Seq<BufferReference>,
    first: Seq<usize>,
    last: Seq<usize>,
    i: int,
    k: int,
)
    requires
        is_use_ranges(records, first, last, records.len() as int),
        first.len() == references.len(),
        references.len() <= usize::MAX,
        0 <= i <= records.len(),
        0 <= k <= references.len(),
    ensures
        cum_rel(last, references, i, k) == released_upto(records, references, i, k),
    decreases k,
{
    if k > 0 {
        lemma_cum_rel_is_released(records, references, first, last, i, k - 1);
        let b: usize = (k - 1) as usize;
        if last[b as int] < i {
            assert(last[b as int] < records.len());
            assert(first[b as int] < records.len());
            assert(uses(records, last[b as int] as int, b));
            assert forall|j: int| i <= j implies !#[trigger] uses(records, j, b) by {
                if uses(records, j, b) {
                    assert(j <= last[b as int]);
                }
            }
            assert(done_before(records, b, i));
        }
        if done_before(records, b, i) {
            let j = choose|j: int| 0 <= j < i && #[trigger] uses(records, j, b);
            assert(uses(records, j, b));
            assert(last[b as int] < records.len());
            assert(first[b as int] < records.len());
            assert(uses(records, last[b as int] as int, b));
            assert(last[b as int] < i);
        }
    }
}

/// The high-water mark of a batch, in the range of a `u64`: the most storage live at once
/// over all its dispatches, where `base` bytes are in use before the batch.
pub fn high_water_mark(
    records: &Vec<MlQueueDispatch>,
    references: &Vec<BufferReference>,
    base: u128,
) -> (r: u64)
    requires
        buffers_known(records@, references@.len() as int),
    ensures
        r == clamp_to_u64(high_water_mark_spec(records@, references@, base as int)),
{
    let n: usize = records.len();
    let count: usize = references.len();
    let (first, last) = use_ranges(records, count);
    let mut add: Vec<u128> = Vec::new();
    let mut rel: Vec<u128> = Vec::new();
    let mut j: usize = 0;
    while j < n
        invariant
            j <= n,
            add@.len() == j,
            rel@.len() == j,
            forall|c: int| 0 <= c < j ==> add@[c] == 0 && rel@[c] == 0,
        decreases n - j,
    {
        add.push(0);
        rel.push(0);
        j = j + 1;
    }
    let mut b: usize = 0;
    while b < count
        invariant
            n == records@.len(),
            count == references@.len(),
            b <= count,
            first@.len() == count,
            is_use_ranges(records@, first@, last@, n as int),
            add@.len() == n,
            rel@.len() == n,
            forall|c: int|
                0 <= c < n ==> (#[trigger] add@[c]) == add_at(first@, references@, c, b as int)
                    && add@[c] <= b * 0xffff_ffff_ffff_ffff,
            forall|c: int|
                0 <= c < n ==> (#[trigger] rel@[c]) == rel_at(last@, references@, c, b as int)
                    && rel@[c] <= b * 0xffff_ffff_ffff_ffff,
        decreases count - b,
    {
        let reference: BufferReference = references[b];
        let f: usize = first[b];
        let l: usize = last[b];
        assert((b + 1) * 0xffff_ffff_ffff_ffff <= u128::MAX) by (nonlinear_arith)
            requires
                b < 0x1_0000_0000_0000_0000,
        ;
        if f < n {
            assert(l < n);
            if reference.storage.is_none() {
                let sum: u128 = add[f] + reference.size as u128;
                add.set(f, sum);
            }
            if !reference.referenced_by_storage {
                let sum: u128 = rel[l] + reference.size as u128;
                rel.set(l, sum);
            }
        }
        b = b + 1;
    }
    let mut pos: WideCount = WideCount::new(base);
    let mut neg: WideCount = WideCount::new(0);
    let mut most: u64 = if base >= u64::MAX as u128 {
        u64::MAX
    } else {
        base as u64
    };
    let mut i: usize = 0;
    proof {
        lemma_cum_add_step(first@, references@, -1, count as int);
        lemma_cum_rel_step(last@, references@, 0, count as int);
    }
    while i < n
        invariant
            n == records@.len(),
            count == references@.len(),
            i <= n,
            first@.len() == count,
            is_use_ranges(records@, first@, last@, n as int),
            add@.len() == n,
            rel@.len() == n,
            forall|c: int|
                0 <= c < n ==> (#[trigger] add@[c]) == add_at(first@, references@, c, count as int),
            forall|c: int|
                0 <= c < n ==> (#[trigger] rel@[c]) == rel_at(last@, references@, c, count as int),
            pos.value() == base + cum_add(first@, references@, i - 1, count as int),
            neg.value() == cum_rel(last@, references@, i as int, count as int),
            pos.carry <= i,
            neg.carry <= i,
            most == clamp_to_u64(peak_upto(records@, references@, base as int, i as int)),
        decreases n - i,
    {
        proof {
            lemma_cum_add_step(first@, references@, i as int, count as int);
            lemma_cum_rel_step(last@, references@, i as int, count as int);
            lemma_cum_add_is_added(records@, references@, first@, last@, i as int, count as int);
            lemma_cum_rel_is_released(
                records@,
                references@,
                first@,
                last@,
                i as int,
                count as int,
            );
        }
        pos.add(add[i]);
        let here: u64 = pos.clamped_excess(&neg);
        assert(here == clamp_to_u64(demand_at(records@, references@, base as int, i as int)));
        if here > most {
            most = here;
        }
        neg.add(rel[i]);
        i = i + 1;
    }
    most
}

} // verus!

