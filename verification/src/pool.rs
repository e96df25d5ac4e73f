//! The pool of storage buffers: physical device memory that logical buffers borrow.
use vstd::prelude::*;
use crate::queue::CachedBufferId;

verus! {

/// What a pooled storage buffer is doing.
#[derive(Clone, Copy, Debug, PartialEq, Eq, Hash, Structural)]
pub enum StorageState {
    /// It backs a logical buffer.
    InUse,
    /// It waits in the pool for its next use.
    Free,
    /// It was given back to the device; its number is never used again.
    Deleted,
}

/// A storage buffer of the pool.
#[derive(Clone, Copy, Debug, PartialEq, Eq, Hash, Structural)]
pub struct CachedBuffer {
    /// Its size in bytes.
    pub size: u64,
    pub state: StorageState,
}

/// Whether the storage buffer at place `i` is free and large enough for `size` bytes.
pub open spec fn fits(pool: Seq<CachedBuffer>, i: int, size: u64) -> bool {
    &&& 0 <= i < pool.len()
    &&& pool[i].state is Free
    &&& pool[i].size >= size
}

/// Whether the storage buffer at place `i` is the best fit for `size` bytes: it fits, no
/// fitting one is smaller, and of the fitting ones of its size it comes first.
pub open spec fn is_best_fit(pool: Seq<CachedBuffer>, i: int, size: u64) -> bool {
    &&& fits(pool, i, size)
    &&& forall|j: int| #[trigger]
        fits(pool, j, size) ==> pool[i].size < pool[j].size || (pool[i].size == pool[j].size && i
            <= j)
}

/// Whether the preferred storage buffer, if there is one, is free and large enough for
/// `size` bytes.
pub open spec fn is_preferred_fit(
    pool: Seq<CachedBuffer>,
    preferred: Option<CachedBufferId>,
    size: u64,
) -> bool {
    preferred matches Some(s) && fits(pool, s as int, size)
}

/// No two storage buffers are the best fit for the same size.
pub proof fn lemma_best_fit_unique(pool: Seq<CachedBuffer>, size: u64, i: int, j: int)
    requires
        is_best_fit(pool, i, size),
        is_best_fit(pool, j, size),
    ensures
        i == j,
{
    assert(fits(pool, i, size));
    assert(fits(pool, j, size));
}

/// The best fit for `size` bytes among the free storage buffers, if any fits.
pub open spec fn best_fit(pool: Seq<CachedBuffer>, size: u64) -> Option<int> {
    if exists|i: int| is_best_fit(pool, i, size) {
        Some(choose|i: int| is_best_fit(pool, i, size))
    } else {
        None
    }
}

/// The storage buffer `id` of the pool, taken into use.
pub open spec fn taken(pool: Seq<CachedBuffer>, id: int) -> Seq<CachedBuffer> {
    pool.update(id, CachedBuffer { size: pool[id].size, state: StorageState::InUse })
}

/// The pool after a storage buffer of at least `size` bytes was taken out of it, with the
/// number of that buffer: the preferred one where that is free and large enough, else
/// the best fit among the free ones, else a new one of exactly `size` bytes at the end.
pub open spec fn acquired(
    pool: Seq<CachedBuffer>,
    size: u64,
    preferred: Option<CachedBufferId>,
) -> (Seq<CachedBuffer>, int) {
    if is_preferred_fit(pool, preferred, size) {
        (taken(pool, preferred->0 as int), preferred->0 as int)
    } else {
        match best_fit(pool, size) {
            Some(i) => (taken(pool, i), i),
            None => (
                pool.push(CachedBuffer { size, state: StorageState::InUse }),
                pool.len() as int,
            ),
        }
    }
}

/// The bytes held by the first `k` storage buffers that are not deleted.
pub open spec fn allocated_upto(pool: Seq<CachedBuffer>, k: int) -> int
    decreases k,
{
    if k <= 0 {
        0
    } else {
        allocated_upto(pool, k - 1) + if pool[k - 1].state is Deleted {
            0
        } else {
            pool[k - 1].size as int
        }
    }
}

/// The bytes held by the first `k` storage buffers that back a logical buffer.
pub open spec fn in_use_upto(pool: Seq<CachedBuffer>, k: int) -> int
    decreases k,
{
    if k <= 0 {
        0
    } else {
        in_use_upto(pool, k - 1) + if pool[k - 1].state is InUse {
            pool[k - 1].size as int
        } else {
            0
        }
    }
}

/// The bytes of device memory that the pool holds.
pub open spec fn allocated(pool: Seq<CachedBuffer>) -> int {
    allocated_upto(pool, pool.len() as int)
}

/// The bytes of device memory that back logical buffers.
pub open spec fn in_use(pool: Seq<CachedBuffer>) -> int {
    in_use_upto(pool, pool.len() as int)
}

/// The pool after the free storage buffers at the first `k` places were looked at in
/// turn, each being deleted if the pool still held more than `ceiling` bytes; with the
/// bytes that the pool holds afterwards.
pub open spec fn reclaimed_upto(pool: Seq<CachedBuffer>, k: int, ceiling: u64) -> (
    Seq<CachedBuffer>,
    int,
)
    decreases k,
{
    if k <= 0 {
        (pool, allocated(pool))
    } else {
        let (p, total) = reclaimed_upto(pool, k - 1, ceiling);
        if p[k - 1].state is Free && total > ceiling {
            (
                p.update(k - 1, CachedBuffer { size: p[k - 1].size, state: StorageState::Deleted }),
                total - p[k - 1].size,
            )
        } else {
            (p, total)
        }
    }
}

/// Deleting one storage buffer takes its bytes, and nothing else, from what the pool holds.
pub proof fn lemma_allocated_delete(pool: Seq<CachedBuffer>, i: int, k: int)
    requires
        0 <= i < pool.len(),
        0 <= k <= pool.len(),
        !(pool[i].state is Deleted),
    ensures
        allocated_upto(
            pool.update(i, CachedBuffer { size: pool[i].size, state: StorageState::Deleted }),
            k,
        ) == allocated_upto(pool, k) - if i < k {
            pool[i].size as int
        } else {
            0
        },
        allocated_upto(pool, k) >= if i < k {
            pool[i].size as int
        } else {
            0
        },
        allocated_upto(pool, k) >= 0,
    decreases k,
{
    if k > 0 {
        lemma_allocated_delete(pool, i, k - 1);
    }
}

/// The pool of storage buffers, with the ceiling on the memory it should hold.
#[derive(Debug)]
pub struct BufferCache {
    /// Every storage buffer ever made, by number.
    pub buffers: Vec<CachedBuffer>,
    /// The ceiling: free storage buffers are given back while the pool holds more.
    pub max_memory_allowed: u64,
}

impl BufferCache {
    /// An empty pool with a ceiling of zero.
    pub fn new() -> (r: BufferCache)
        ensures
            r.buffers@ == Seq::<CachedBuffer>::empty(),
            r.max_memory_allowed == 0,
    {
        BufferCache { buffers: Vec::new(), max_memory_allowed: 0 }
    }

    /// The bytes of device memory that the pool holds.
    pub fn memory_allocated(&self) -> (r: u128)
        ensures
            r == allocated(self.buffers@),
    {
        let mut total: u128 = 0;
        let mut i: usize = 0;
        while i < self.buffers.len()
            invariant
                i <= self.buffers@.len(),
                total == allocated_upto(self.buffers@, i as int),
                total <= i * 0xffff_ffff_ffff_ffff,
            decreases self.buffers@.len() - i,
        {
            let b: CachedBuffer = self.buffers[i];
            assert((i + 1) * 0xffff_ffff_ffff_ffff <= u128::MAX) by (nonlinear_arith)
                requires
                    i < 0x1_0000_0000_0000_0000,
            ;
            match b.state {
                StorageState::Deleted => {},
                _ => {
                    total = total + b.size as u128;
                },
            }
            i = i + 1;
        }
        total
    }

    /// The bytes of device memory that back logical buffers.
    pub fn memory_in_use(&self) -> (r: u128)
        ensures
            r == in_use(self.buffers@),
    {
        let mut total: u128 = 0;
        let mut i: usize = 0;
        while i < self.buffers.len()
            invariant
                i <= self.buffers@.len(),
                total == in_use_upto(self.buffers@, i as int),
                total <= i * 0xffff_ffff_ffff_ffff,
            decreases self.buffers@.len() - i,
        {
            let b: CachedBuffer = self.buffers[i];
            assert((i + 1) * 0xffff_ffff_ffff_ffff <= u128::MAX) by (nonlinear_arith)
                requires
                    i < 0x1_0000_0000_0000_0000,
            ;
            match b.state {
                StorageState::InUse => {
                    total = total + b.size as u128;
                },
                _ => {},
            }
            i = i + 1;
        }
        total
    }

    /// Takes a storage buffer of at least `size` bytes out of the pool: the best fit among
    /// the free ones, or where none fits a new one of exactly `size` bytes. The result is
    /// the buffer's number, and whether the buffer is new.
    pub fn acquire(&mut self, size: u64) -> (r: (CachedBufferId, bool))
        ensures
            !r.1 ==> is_best_fit(old(self).buffers@, r.0 as int, size) && final(self).buffers@
                == old(self).buffers@.update(
                r.0 as int,
                CachedBuffer { size: old(self).buffers@[r.0 as int].size,
                    state: StorageState::InUse },
            ),
            r.1 ==> (forall|j: int| !fits(old(self).buffers@, j, size)) && r.0 ==
                old(self).buffers@.len() && final(self).buffers@ == old(self).buffers@.push(
                CachedBuffer { size, state: StorageState::InUse },
            ),
            r.0 < final(self).buffers@.len(),
            final(self).buffers@[r.0 as int].state is InUse,
            final(self).buffers@[r.0 as int].size >= size,
            final(self).max_memory_allowed == old(self).max_memory_allowed,
            (final(self).buffers@, r.0 as int) == acquired(old(self).buffers@, size, None),
            r.1 == (r.0 == old(self).buffers@.len()),
    {
        let n: usize = self.buffers.len();
        let mut best: Option<usize> = None;
        let mut i: usize = 0;
        while i < n
            invariant
                n == self.buffers@.len(),
                i <= n,
                self.buffers@ == old(self).buffers@,
                best matches Some(b) ==> b < i && fits(self.buffers@, b as int, size) && forall|
                    j: int,
                |
                    0 <= j < i && #[trigger] fits(self.buffers@, j, size) ==>
                        self.buffers@[b as int].size
                        < self.buffers@[j].size || (self.buffers@[b as int].size
                        == self.buffers@[j].size && b <= j),
                best is None ==> forall|j: int| 0 <= j < i ==> !fits(self.buffers@, j, size),
            decreases n - i,
        {
            let b: CachedBuffer = self.buffers[i];
            let free: bool = match b.state {
                StorageState::Free => true,
                _ => false,
            };
            if free && b.size >= size {
                let better: bool = match best {
                    Some(k) => b.size < self.buffers[k].size,
                    None => true,
                };
                if better {
                    best = Some(i);
                }
            }
            i = i + 1;
        }
        match best {
            Some(b) => {
                proof {
                    assert(is_best_fit(self.buffers@, b as int, size));
                    let chosen = choose|i: int| is_best_fit(self.buffers@, i, size);
                    lemma_best_fit_unique(self.buffers@, size, chosen, b as int);
                }
                let found: CachedBuffer = self.buffers[b];
                self.buffers.set(b, CachedBuffer { size: found.size, state: StorageState::InUse });
                (b, false)
            },
            None => {
                proof {
                    assert forall|i: int| !is_best_fit(self.buffers@, i, size) by {
                        assert(!fits(self.buffers@, i, size));
                    }
                }
                self.buffers.push(CachedBuffer { size, state: StorageState::InUse });
                (n, true)
            },
        }
    }

    /// Takes a storage buffer of at least `size` bytes out of the pool, as [`acquire`]
    /// does, but takes the `preferred` one where that is free and large enough.
    ///
    /// [`acquire`]: BufferCache::acquire
    pub fn acquire_preferring(&mut self, size: u64, preferred: Option<CachedBufferId>) -> (r: (
        CachedBufferId,
        bool,
    ))
        ensures
            is_preferred_fit(old(self).buffers@, preferred, size) ==> r == (preferred->0, false)
                && final(self).buffers@ == old(self).buffers@.update(
                r.0 as int,
                CachedBuffer { size: old(self).buffers@[r.0 as int].size,
                    state: StorageState::InUse },
            ),
            !is_preferred_fit(old(self).buffers@, preferred, size) && !r.1 ==> is_best_fit(
                old(self).buffers@,
                r.0 as int,
                size,
            ) && final(self).buffers@ == old(self).buffers@.update(
                r.0 as int,
                CachedBuffer { size: old(self).buffers@[r.0 as int].size,
                    state: StorageState::InUse },
            ),
            r.1 ==> (forall|j: int| !fits(old(self).buffers@, j, size)) && r.0 ==
                old(self).buffers@.len() && final(self).buffers@ == old(self).buffers@.push(
                CachedBuffer { size, state: StorageState::InUse },
            ),
            r.0 < final(self).buffers@.len(),
            final(self).buffers@[r.0 as int].state is InUse,
            final(self).buffers@[r.0 as int].size >= size,
            final(self).max_memory_allowed == old(self).max_memory_allowed,
            (final(self).buffers@, r.0 as int) == acquired(old(self).buffers@, size, preferred),
            r.1 == (r.0 == old(self).buffers@.len()),
    {
        match preferred {
            Some(s) => {
                if s < self.buffers.len() {
                    let found: CachedBuffer = self.buffers[s];
                    let free: bool = match found.state {
                        StorageState::Free => true,
                        _ => false,
                    };
                    if free && found.size >= size {
                        self.buffers.set(
                            s,
                            CachedBuffer { size: found.size, state: StorageState::InUse },
                        );
                        return (s, false);
                    }
                }
            },
            None => {},
        }
        self.acquire(size)
    }

    /// Puts a storage buffer back into the pool.
    pub fn free(&mut self, id: CachedBufferId)
        requires
            id < old(self).buffers@.len(),
            old(self).buffers@[id as int].state is InUse,
        ensures
            final(self).buffers@ == old(self).buffers@.update(
                id as int,
                CachedBuffer { size: old(self).buffers@[id as int].size,
                    state: StorageState::Free },
            ),
            final(self).max_memory_allowed == old(self).max_memory_allowed,
    {
        let b: CachedBuffer = self.buffers[id];
        self.buffers.set(id, CachedBuffer { size: b.size, state: StorageState::Free });
    }

    /// Gives free storage buffers back to the device while the pool holds more than its
    /// ceiling, looking at them in the order of their numbers. The result lists the
    /// buffers given back.
    pub fn remove_unused(&mut self) -> (r: Vec<CachedBufferId>)
        ensures
            final(self).buffers@ == reclaimed_upto(
                old(self).buffers@,
                old(self).buffers@.len() as int,
                old(self).max_memory_allowed,
            ).0,
            final(self).max_memory_allowed == old(self).max_memory_allowed,
            final(self).buffers@.len() == old(self).buffers@.len(),
            forall|i: int|
                0 <= i < old(self).buffers@.len() ==> (#[trigger] final(self).buffers@[i]).size
                    == old(self).buffers@[i].size &&
                        (final(self).buffers@[i].state != old(self).buffers@[i].state ==>
                        old(self).buffers@[i].state is Free &&
                        final(self).buffers@[i].state is Deleted && r@.contains(i as usize)),
            forall|k: int|
                0 <= k < r@.len() ==> (#[trigger] r@[k]) < old(self).buffers@.len() &&
                    old(self).buffers@[r@[k] as int].state is Free &&
                    final(self).buffers@[r@[k] as int].state
                    is Deleted,
    {
        let ghost before = self.buffers@;
        let ceiling: u64 = self.max_memory_allowed;
        let mut removed: Vec<CachedBufferId> = Vec::new();
        let mut total: u128 = self.memory_allocated();
        let n: usize = self.buffers.len();
        let mut i: usize = 0;
        while i < n
            invariant
                n == before.len(),
                i <= n,
                self.buffers@.len() == n,
                ceiling == self.max_memory_allowed,
                self.max_memory_allowed == old(self).max_memory_allowed,
                (self.buffers@, total as int) == reclaimed_upto(before, i as int, ceiling),
                total == allocated(self.buffers@),
                forall|j: int| i <= j < n ==> self.buffers@[j] == before[j],
                forall|j: int|
                    0 <= j < n ==> (#[trigger] self.buffers@[j]).size == before[j].size && (
                    self.buffers@[j].state != before[j].state ==> before[j].state is Free
                        && self.buffers@[j].state is Deleted && removed@.contains(j as usize)),
                forall|k: int|
                    0 <= k < removed@.len() ==> (#[trigger] removed@[k]) < n &&
                        before[removed@[k] as int].state
                        is Free && self.buffers@[removed@[k] as int].state is Deleted,
            decreases n - i,
        {
            let b: CachedBuffer = self.buffers[i];
            let free: bool = match b.state {
                StorageState::Free => true,
                _ => false,
            };
            if free && total > ceiling as u128 {
                proof {
                    lemma_allocated_delete(self.buffers@, i as int, n as int);
                }
                self.buffers.set(i, CachedBuffer { size: b.size, state: StorageState::Deleted });
                total = total - b.size as u128;
                let ghost earlier = removed@;
                removed.push(i);
                assert(removed@[earlier.len() as int] == i);
                assert forall|j: int| 0 <= j < earlier.len() implies removed@[j] == earlier[j] by {}
                assert forall|j: usize| earlier.contains(j) implies removed@.contains(j) by {
                    let k = choose|k: int| 0 <= k < earlier.len() && earlier[k] == j;
                    assert(removed@[k] == j);
                }
            }
            i = i + 1;
        }
        removed
    }
}

} // verus!
