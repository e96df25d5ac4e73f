//! The device-wide cache: logical buffers, the storage pool behind them, and the binding
//! objects made from storage buffers.
use vstd::prelude::*;
use crate::buffer::BufferReference;
use crate::pool::acquired;
use crate::pool::fits;
use crate::pattern::BufferMappingCache;
use crate::pool::is_best_fit;
use crate::pool::is_preferred_fit;
use crate::pool::BufferCache;
use crate::pool::CachedBuffer;
use crate::pool::StorageState;
use crate::queue::BindgroupId;
use crate::queue::BufferReferenceId;
use crate::queue::CachedBindGroupReference;
use crate::queue::CachedBufferId;

verus! {

/// A cached binding object: the storage buffers it binds, and whether it still exists.
#[derive(Clone, Copy, Debug, PartialEq, Eq, Hash, Structural)]
pub struct CachedBindGroup {
    pub key: CachedBindGroupReference,
    pub alive: bool,
}

/// Whether every storage buffer of a binding still exists in the pool.
pub open spec fn key_live(key: CachedBindGroupReference, pool: Seq<CachedBuffer>) -> bool {
    forall|k: int|
        0 <= k < key.buffers().len() ==> (#[trigger] key.buffers()[k]) < pool.len() && !(
        pool[key.buffers()[k] as int].state is Deleted)
}

/// The number of binding objects among the first `k` that still exist.
pub open spec fn alive_upto(bindgroups: Seq<CachedBindGroup>, k: int) -> int
    decreases k,
{
    if k <= 0 {
        0
    } else {
        alive_upto(bindgroups, k - 1) + if bindgroups[k - 1].alive {
            1int
        } else {
            0int
        }
    }
}

/// Whether the binding object at place `i` exists and binds exactly the storage buffers
/// of `key`.
pub open spec fn holds_key(
    bindgroups: Seq<CachedBindGroup>,
    i: int,
    key: CachedBindGroupReference,
) -> bool {
    0 <= i < bindgroups.len() && bindgroups[i].alive && bindgroups[i].key == key
}

/// The binding objects after a pass that drops those with a storage buffer that no longer
/// exists and then, if more than `limit` are left, all of them.
pub open spec fn after_removal(
    bindgroups: Seq<CachedBindGroup>,
    pool: Seq<CachedBuffer>,
    limit: int,
) -> Seq<CachedBindGroup> {
    let kept = without_dead(bindgroups, pool);
    if alive_upto(kept, kept.len() as int) > limit {
        Seq::new(kept.len(), |i: int| CachedBindGroup { key: kept[i].key, alive: false })
    } else {
        kept
    }
}

/// The binding objects after those with a storage buffer that no longer exists were dropped.
pub open spec fn without_dead(bindgroups: Seq<CachedBindGroup>, pool: Seq<CachedBuffer>) -> Seq<
    CachedBindGroup,
> {
    Seq::new(
        bindgroups.len(),
        |i: int|
            CachedBindGroup {
                key: bindgroups[i].key,
                alive: bindgroups[i].alive && key_live(bindgroups[i].key, pool),
            },
    )
}

/// The count of existing binding objects does not depend on what lies behind the counted
/// ones.
pub proof fn lemma_alive_upto_prefix(a: Seq<CachedBindGroup>, b: Seq<CachedBindGroup>, k: int)
    requires
        0 <= k <= a.len(),
        k <= b.len(),
        forall|i: int| 0 <= i < k ==> a[i].alive == b[i].alive,
    ensures
        alive_upto(a, k) == alive_upto(b, k),
        0 <= alive_upto(a, k) <= k,
    decreases k,
{
    if k > 0 {
        lemma_alive_upto_prefix(a, b, k - 1);
    }
}

/// Whether a logical buffer is without storage, or has a storage buffer of the pool that
/// is in use and large enough.
pub open spec fn backed(reference: BufferReference, pool: Seq<CachedBuffer>) -> bool {
    reference.storage matches Some(s) ==> s < pool.len() && pool[s as int].state is InUse
        && reference.size <= pool[s as int].size
}

/// The logical buffers and the pool after the logical buffer `buffer` was given storage,
/// with the storage buffer that backs it: the one it has, or else one taken out of the
/// pool as [`acquired`] says.
pub open spec fn materialized(
    references: Seq<BufferReference>,
    pool: Seq<CachedBuffer>,
    buffer: int,
    preferred: Option<CachedBufferId>,
) -> (Seq<BufferReference>, Seq<CachedBuffer>, CachedBufferId) {
    match references[buffer].storage {
        Some(s) => (references, pool, s),
        None => {
            let (taken, s) = acquired(pool, references[buffer].size, preferred);
            (
                references.update(
                    buffer,
                    BufferReference { storage: Some(s as usize), ..references[buffer] },
                ),
                taken,
                s as usize,
            )
        },
    }
}

/// The logical buffers and the pool after the storage of the logical buffer `buffer`, if
/// it has any, was put back into the pool.
pub open spec fn released(
    references: Seq<BufferReference>,
    pool: Seq<CachedBuffer>,
    buffer: int,
) -> (Seq<BufferReference>, Seq<CachedBuffer>) {
    match references[buffer].storage {
        Some(s) => (
            references.update(buffer, BufferReference { storage: None, ..references[buffer] }),
            pool.update(
                s as int,
                CachedBuffer { size: pool[s as int].size, state: StorageState::Free },
            ),
        ),
        None => (references, pool),
    }
}

/// Whether the binding object at place `i` is the first that exists and binds exactly the
/// storage buffers of `key`.
pub open spec fn is_first_key(
    bindgroups: Seq<CachedBindGroup>,
    i: int,
    key: CachedBindGroupReference,
) -> bool {
    holds_key(bindgroups, i, key) && forall|j: int| 0 <= j < i ==> !holds_key(bindgroups, j, key)
}

/// The number of the binding object for `key`: that of the first existing one that binds
/// exactly these storage buffers, or where there is none the number that a new one gets.
pub open spec fn found_key(bindgroups: Seq<CachedBindGroup>, key: CachedBindGroupReference) -> int {
    if exists|i: int| is_first_key(bindgroups, i, key) {
        choose|i: int| is_first_key(bindgroups, i, key)
    } else {
        bindgroups.len() as int
    }
}

/// The binding objects after the one for `key` was looked up, and made where it was
/// missing.
pub open spec fn with_key(
    bindgroups: Seq<CachedBindGroup>,
    key: CachedBindGroupReference,
) -> Seq<CachedBindGroup> {
    if found_key(bindgroups, key) == bindgroups.len() {
        bindgroups.push(CachedBindGroup { key, alive: true })
    } else {
        bindgroups
    }
}

/// The state shared by all batches of a device.
#[derive(Debug)]
pub struct ModelCache {
    /// The logical buffers, by number.
    pub references: Vec<BufferReference>,
    /// The pool of storage buffers.
    pub buffers: BufferCache,
    /// Every binding object ever made, by number.
    pub bindgroups: Vec<CachedBindGroup>,
    /// How many binding objects may exist before the cache reports pressure.
    pub max_bindgroups: usize,
    /// The patterns of earlier batches, and where their buffers lived.
    pub mappings: BufferMappingCache,
}

impl ModelCache {
    /// The storage pool, by number.
    pub open spec fn pool(&self) -> Seq<CachedBuffer> {
        self.buffers.buffers@
    }

    /// The invariant of the cache. A logical buffer with storage has a storage buffer of
    /// the pool that is in use and large enough; no two logical buffers share one; and an
    /// existing binding object binds only storage buffers that still exist.
    pub open spec fn wf(&self) -> bool {
        &&& forall|b: int|
            0 <= b < self.references@.len() ==> backed(#[trigger] self.references@[b], self.pool())
        &&& forall|a: int, b: int|
            0 <= a < self.references@.len() && 0 <= b < self.references@.len() && a != b && (
            #[trigger] self.references@[a]).storage is Some ==> self.references@[a].storage != (
            #[trigger] self.references@[b]).storage
        &&& forall|g: int|
            0 <= g < self.bindgroups@.len() && (#[trigger] self.bindgroups@[g]).alive ==> key_live(
                self.bindgroups@[g].key,
                self.pool(),
            )
    }

    /// An empty cache that reports pressure once more than `max_bindgroups` binding
    /// objects exist.
    pub fn new(max_bindgroups: usize) -> (r: ModelCache)
        ensures
            r.wf(),
            r.references@.len() == 0,
            r.pool().len() == 0,
            r.bindgroups@.len() == 0,
            r.max_bindgroups == max_bindgroups,
            r.buffers.max_memory_allowed == 0,
            r.mappings.patterns@.len() == 0,
            r.mappings.current is None,
    {
        ModelCache {
            references: Vec::new(),
            buffers: BufferCache::new(),
            bindgroups: Vec::new(),
            max_bindgroups,
            mappings: BufferMappingCache::new(),
        }
    }

    /// A new logical buffer of `size` bytes, without storage and without a tensor that
    /// refers to it.
    pub fn create_reference(&mut self, size: u64) -> (r: BufferReferenceId)
        requires
            old(self).wf(),
            size > 0,
        ensures
            final(self).wf(),
            r == old(self).references@.len(),
            final(self).references@ == old(self).references@.push(
                BufferReference { size, storage: None, referenced_by_storage: false },
            ),
            final(self).buffers == old(self).buffers,
            final(self).bindgroups == old(self).bindgroups,
            final(self).max_bindgroups == old(self).max_bindgroups,
            final(self).mappings == old(self).mappings,
    {
        let id: usize = self.references.len();
        self.references.push(BufferReference { size, storage: None, referenced_by_storage: false });
        id
    }

    /// A new logical buffer of `size` bytes with storage from the pool: the best fit among
    /// the free storage buffers, or a new one. The result is the buffer, its storage
    /// buffer, and whether the storage buffer is new.
    pub fn create_reference_init(&mut self, size: u64) -> (r: (BufferReferenceId, CachedBufferId,
        bool))
        requires
            old(self).wf(),
        ensures
            final(self).wf(),
            r.0 == old(self).references@.len(),
            final(self).references@ == old(self).references@.push(
                BufferReference { size, storage: Some(r.1), referenced_by_storage: false },
            ),
            !r.2 ==> is_best_fit(old(self).pool(), r.1 as int, size) && final(self).pool() ==
                old(self).pool().update(
                r.1 as int,
                CachedBuffer { size: old(self).pool()[r.1 as int].size,
                    state: StorageState::InUse },
            ),
            r.2 ==> (forall|j: int| !fits(old(self).pool(), j, size)) && r.1 ==
                old(self).pool().len() && final(self).pool() == old(self).pool().push(
                CachedBuffer { size, state: StorageState::InUse },
            ),
            final(self).buffers.max_memory_allowed == old(self).buffers.max_memory_allowed,
            final(self).bindgroups == old(self).bindgroups,
            final(self).max_bindgroups == old(self).max_bindgroups,
            final(self).mappings == old(self).mappings,
    {
        let id: usize = self.references.len();
        self.references.push(BufferReference { size, storage: None, referenced_by_storage: false });
        let (storage, created) = self.materialize(id);
        assert(self.references@ =~= old(self).references@.push(
            BufferReference { size, storage: Some(storage), referenced_by_storage: false },
        ));
        (id, storage, created)
    }

    /// Empties the cache of everything that is not in use: every binding object is
    /// dropped, and every free storage buffer is given back to the device. The result
    /// lists the binding objects and the storage buffers that went.
    pub fn clear(&mut self) -> (r: (Vec<BindgroupId>, Vec<CachedBufferId>))
        requires
            old(self).wf(),
        ensures
            final(self).wf(),
            final(self).references == old(self).references,
            final(self).max_bindgroups == old(self).max_bindgroups,
            final(self).mappings == old(self).mappings,
            final(self).buffers.max_memory_allowed == old(self).buffers.max_memory_allowed,
            final(self).bindgroups@.len() == old(self).bindgroups@.len(),
            forall|g: int|
                0 <= g < old(self).bindgroups@.len() ==> (#[trigger] final(self).bindgroups@[g])
                    == (CachedBindGroup { key: old(self).bindgroups@[g].key, alive: false }),
            final(self).pool().len() == old(self).pool().len(),
            forall|s: int|
                0 <= s < old(self).pool().len() ==> (#[trigger] final(self).pool()[s]) == (
                if old(self).pool()[s].state is Free {
                    CachedBuffer { size: old(self).pool()[s].size, state: StorageState::Deleted }
                } else {
                    old(self).pool()[s]
                }),
            forall|g: BindgroupId|
                r.0@.contains(g) <==> g < old(self).bindgroups@.len() &&
                    old(self).bindgroups@[g as int].alive,
            forall|s: CachedBufferId|
                r.1@.contains(s) <==> s < old(self).pool().len() && old(self).pool()[s as int].state
                    is Free,
    {
        let mut gone: Vec<BindgroupId> = Vec::new();
        let n: usize = self.bindgroups.len();
        let mut g: usize = 0;
        while g < n
            invariant
                n == old(self).bindgroups@.len(),
                self.bindgroups@.len() == n,
                g <= n,
                self.references == old(self).references,
                self.buffers == old(self).buffers,
                self.max_bindgroups == old(self).max_bindgroups,
                self.mappings == old(self).mappings,
                forall|c: int|
                    0 <= c < g ==> (#[trigger] self.bindgroups@[c]) == (CachedBindGroup {
                        key: old(self).bindgroups@[c].key,
                        alive: false,
                    }),
                forall|c: int| g <= c < n ==> self.bindgroups@[c] == old(self).bindgroups@[c],
                forall|c: BindgroupId|
                    gone@.contains(c) <==> c < g && old(self).bindgroups@[c as int].alive,
            decreases n - g,
        {
            let entry: CachedBindGroup = self.bindgroups[g];
            self.bindgroups.set(g, CachedBindGroup { key: entry.key, alive: false });
            if entry.alive {
                let ghost earlier = gone@;
                gone.push(g);
                assert forall|c: BindgroupId| gone@.contains(c) <==> c < g + 1 &&
                    old(self).bindgroups@[c as int].alive by {
                    if gone@.contains(c) {
                        let k = choose|k: int| 0 <= k < gone@.len() && gone@[k] == c;
                        if k < earlier.len() {
                            assert(earlier[k] == c);
                            assert(earlier.contains(c));
                        }
                    }
                    if c < g + 1 && old(self).bindgroups@[c as int].alive {
                        if c < g {
                            assert(earlier.contains(c));
                            let k = choose|k: int| 0 <= k < earlier.len() && earlier[k] == c;
                            assert(gone@[k] == c);
                        } else {
                            assert(gone@[earlier.len() as int] == c);
                        }
                    }
                }
            }
            g = g + 1;
        }
        let mut freed: Vec<CachedBufferId> = Vec::new();
        let count: usize = self.buffers.buffers.len();
        let mut s: usize = 0;
        while s < count
            invariant
                count == old(self).pool().len(),
                self.pool().len() == count,
                s <= count,
                old(self).wf(),
                self.references == old(self).references,
                self.max_bindgroups == old(self).max_bindgroups,
                self.mappings == old(self).mappings,
                self.buffers.max_memory_allowed == old(self).buffers.max_memory_allowed,
                self.bindgroups@.len() == old(self).bindgroups@.len(),
                forall|c: int|
                    0 <= c < self.bindgroups@.len() ==> (#[trigger] self.bindgroups@[c]) == (
                    CachedBindGroup { key: old(self).bindgroups@[c].key, alive: false }),
                forall|c: int|
                    0 <= c < s ==> (#[trigger] self.pool()[c]) == (if old(self).pool()[c].state
                        is Free {
                        CachedBuffer { size: old(self).pool()[c].size,
                            state: StorageState::Deleted }
                    } else {
                        old(self).pool()[c]
                    }),
                forall|c: int| s <= c < count ==> self.pool()[c] == old(self).pool()[c],
                forall|c: CachedBufferId|
                    freed@.contains(c) <==> c < s && old(self).pool()[c as int].state is Free,
            decreases count - s,
        {
            let buffer: CachedBuffer = self.buffers.buffers[s];
            let free: bool = match buffer.state {
                StorageState::Free => true,
                _ => false,
            };
            if free {
                self.buffers.buffers.set(
                    s,
                    CachedBuffer { size: buffer.size, state: StorageState::Deleted },
                );
                let ghost earlier = freed@;
                freed.push(s);
                assert forall|c: CachedBufferId| freed@.contains(c) <==> c < s + 1 &&
                    old(self).pool()[c as int].state is Free by {
                    if freed@.contains(c) {
                        let k = choose|k: int| 0 <= k < freed@.len() && freed@[k] == c;
                        if k < earlier.len() {
                            assert(earlier[k] == c);
                            assert(earlier.contains(c));
                        }
                    }
                    if c < s + 1 && old(self).pool()[c as int].state is Free {
                        if c < s {
                            assert(earlier.contains(c));
                            let k = choose|k: int| 0 <= k < earlier.len() && earlier[k] == c;
                            assert(freed@[k] == c);
                        } else {
                            assert(freed@[earlier.len() as int] == c);
                        }
                    }
                }
            }
            s = s + 1;
        }
        proof {
            assert forall|b: int| 0 <= b < self.references@.len() implies backed(
                #[trigger] self.references@[b],
                self.pool(),
            ) by {
                assert(backed(old(self).references@[b], old(self).pool()));
            }
        }
        (gone, freed)
    }

    /// Records whether a tensor refers to a logical buffer.
    pub fn set_referenced(&mut self, buffer: BufferReferenceId, referenced: bool)
        requires
            old(self).wf(),
            buffer < old(self).references@.len(),
        ensures
            final(self).wf(),
            final(self).references@ == old(self).references@.update(
                buffer as int,
                BufferReference {
                    referenced_by_storage: referenced,
                    ..old(self).references@[buffer as int]
                },
            ),
            final(self).buffers == old(self).buffers,
            final(self).bindgroups == old(self).bindgroups,
            final(self).max_bindgroups == old(self).max_bindgroups,
            final(self).mappings == old(self).mappings,
    {
        let r: BufferReference = self.references[buffer];
        self.references.set(
            buffer,
            BufferReference { size: r.size, storage: r.storage, referenced_by_storage: referenced },
        );
    }

    /// Gives a logical buffer storage if it has none: the best fit among the free storage
    /// buffers of the pool, or a new one of the buffer's size. The result is the storage
    /// buffer, and whether it is new.
    pub fn materialize(&mut self, buffer: BufferReferenceId) -> (r: (CachedBufferId, bool))
        requires
            old(self).wf(),
            buffer < old(self).references@.len(),
        ensures
            final(self).wf(),
            final(self).references@ == old(self).references@.update(
                buffer as int,
                BufferReference { storage: Some(r.0), ..old(self).references@[buffer as int] },
            ),
            old(self).references@[buffer as int].storage matches Some(s) ==> r == (s, false)
                && final(self).pool() == old(self).pool(),
            old(self).references@[buffer as int].storage is None ==> {
                let size = old(self).references@[buffer as int].size;
                &&& !r.1 ==> is_best_fit(old(self).pool(), r.0 as int, size) && final(self).pool()
                    == old(self).pool().update(
                    r.0 as int,
                    CachedBuffer { size: old(self).pool()[r.0 as int].size,
                        state: StorageState::InUse },
                )
                &&& r.1 ==> (forall|j: int| !fits(old(self).pool(), j, size)) && r.0 ==
                    old(self).pool().len() && final(self).pool() == old(self).pool().push(
                    CachedBuffer { size, state: StorageState::InUse },
                )
            },
            final(self).buffers.max_memory_allowed == old(self).buffers.max_memory_allowed,
            final(self).bindgroups == old(self).bindgroups,
            final(self).max_bindgroups == old(self).max_bindgroups,
            final(self).mappings == old(self).mappings,
            (final(self).references@, final(self).pool(), r.0) == materialized(
                old(self).references@,
                old(self).pool(),
                buffer as int,
                None,
            ),
    {
        self.materialize_preferring(buffer, None)
    }

    /// Gives a logical buffer storage if it has none: the `preferred` storage buffer where
    /// that is free and large enough, else the best fit among the free storage buffers of
    /// the pool, or a new one of the buffer's size. The result is the storage buffer, and
    /// whether it is new.
    pub fn materialize_preferring(
        &mut self,
        buffer: BufferReferenceId,
        preferred: Option<CachedBufferId>,
    ) -> (r: (CachedBufferId, bool))
        requires
            old(self).wf(),
            buffer < old(self).references@.len(),
        ensures
            final(self).wf(),
            final(self).references@ == old(self).references@.update(
                buffer as int,
                BufferReference { storage: Some(r.0), ..old(self).references@[buffer as int] },
            ),
            old(self).references@[buffer as int].storage matches Some(s) ==> r == (s, false)
                && final(self).pool() == old(self).pool(),
            old(self).references@[buffer as int].storage is None ==> {
                let size = old(self).references@[buffer as int].size;
                &&& is_preferred_fit(old(self).pool(), preferred, size) ==> r == (
                    preferred->0,
                    false,
                )
                &&& !is_preferred_fit(old(self).pool(), preferred, size) && !r.1 ==> is_best_fit(
                    old(self).pool(),
                    r.0 as int,
                    size,
                )
                &&& !r.1 ==> fits(old(self).pool(), r.0 as int, size) && final(self).pool() ==
                    old(self).pool().update(
                    r.0 as int,
                    CachedBuffer { size: old(self).pool()[r.0 as int].size,
                        state: StorageState::InUse },
                )
                &&& r.1 ==> (forall|j: int| !fits(old(self).pool(), j, size)) && r.0 ==
                    old(self).pool().len() && final(self).pool() == old(self).pool().push(
                    CachedBuffer { size, state: StorageState::InUse },
                )
            },
            final(self).buffers.max_memory_allowed == old(self).buffers.max_memory_allowed,
            final(self).bindgroups == old(self).bindgroups,
            final(self).max_bindgroups == old(self).max_bindgroups,
            final(self).mappings == old(self).mappings,
            (final(self).references@, final(self).pool(), r.0) == materialized(
                old(self).references@,
                old(self).pool(),
                buffer as int,
                preferred,
            ),
    {
        let reference: BufferReference = self.references[buffer];
        match reference.storage {
            Some(s) => {
                assert(self.references@ =~= old(self).references@.update(
                    buffer as int,
                    BufferReference { storage: Some(s), ..old(self).references@[buffer as int] },
                ));
                assert(self.references@ =~= old(self).references@);
                (s, false)
            },
            None => {
                let (s, created) = self.buffers.acquire_preferring(reference.size, preferred);
                self.references.set(
                    buffer,
                    BufferReference {
                        size: reference.size,
                        storage: Some(s),
                        referenced_by_storage: reference.referenced_by_storage,
                    },
                );
                assert forall|g: int|
                    0 <= g < self.bindgroups@.len() && (
                    #[trigger] self.bindgroups@[g]).alive implies key_live(
                    self.bindgroups@[g].key,
                    self.pool(),
                ) by {
                    assert(key_live(old(self).bindgroups@[g].key, old(self).pool()));
                }
                (s, created)
            },
        }
    }

    /// Takes the storage from a logical buffer and puts it back into the pool. A buffer
    /// without storage stays as it is.
    pub fn release(&mut self, buffer: BufferReferenceId)
        requires
            old(self).wf(),
            buffer < old(self).references@.len(),
        ensures
            final(self).wf(),
            final(self).references@ == old(self).references@.update(
                buffer as int,
                BufferReference { storage: None, ..old(self).references@[buffer as int] },
            ),
            old(self).references@[buffer as int].storage matches Some(s) ==> final(self).pool()
                == old(self).pool().update(
                s as int,
                CachedBuffer { size: old(self).pool()[s as int].size, state: StorageState::Free },
            ),
            old(self).references@[buffer as int].storage is None ==> final(self).pool() ==
                old(self).pool(),
            final(self).buffers.max_memory_allowed == old(self).buffers.max_memory_allowed,
            final(self).bindgroups == old(self).bindgroups,
            final(self).max_bindgroups == old(self).max_bindgroups,
            final(self).mappings == old(self).mappings,
            (final(self).references@, final(self).pool()) == released(
                old(self).references@,
                old(self).pool(),
                buffer as int,
            ),
    {
        let reference: BufferReference = self.references[buffer];
        match reference.storage {
            Some(s) => {
                self.buffers.free(s);
                self.references.set(
                    buffer,
                    BufferReference {
                        size: reference.size,
                        storage: None,
                        referenced_by_storage: reference.referenced_by_storage,
                    },
                );
                assert forall|g: int|
                    0 <= g < self.bindgroups@.len() && (
                    #[trigger] self.bindgroups@[g]).alive implies key_live(
                    self.bindgroups@[g].key,
                    self.pool(),
                ) by {
                    assert(key_live(old(self).bindgroups@[g].key, old(self).pool()));
                }
            },
            None => {
                assert(self.references@ =~= old(self).references@.update(
                    buffer as int,
                    BufferReference { storage: None, ..old(self).references@[buffer as int] },
                ));
                assert(self.references@ =~= old(self).references@);
            },
        }
    }

    /// Hands the storage of `source` over to `dest`, which has none and is no larger:
    /// from now on `dest` lives where `source` lived, and `source` has no storage.
    pub fn alias(&mut self, dest: BufferReferenceId, source: BufferReferenceId)
        requires
            old(self).wf(),
            dest < old(self).references@.len(),
            source < old(self).references@.len(),
            dest != source,
            old(self).references@[dest as int].storage is None,
            old(self).references@[dest as int].size <= old(self).references@[source as int].size,
        ensures
            final(self).wf(),
            final(self).references@ == old(self).references@.update(
                dest as int,
                BufferReference {
                    storage: old(self).references@[source as int].storage,
                    ..old(self).references@[dest as int]
                },
            ).update(
                source as int,
                BufferReference { storage: None, ..old(self).references@[source as int] },
            ),
            final(self).buffers == old(self).buffers,
            final(self).bindgroups == old(self).bindgroups,
            final(self).max_bindgroups == old(self).max_bindgroups,
            final(self).mappings == old(self).mappings,
    {
        let d: BufferReference = self.references[dest];
        let s: BufferReference = self.references[source];
        self.references.set(
            dest,
            BufferReference {
                size: d.size,
                storage: s.storage,
                referenced_by_storage: d.referenced_by_storage,
            },
        );
        self.references.set(
            source,
            BufferReference {
                size: s.size,
                storage: None,
                referenced_by_storage: s.referenced_by_storage,
            },
        );
    }

    /// The binding object for the given storage buffers: the first existing one that
    /// binds exactly these, or where there is none a new one. The result is the object's
    /// number, and whether the object is new.
    pub fn get_bind_group(&mut self, key: CachedBindGroupReference) -> (r: (BindgroupId, bool))
        requires
            old(self).wf(),
            key_live(key, old(self).pool()),
        ensures
            final(self).wf(),
            !r.1 ==> holds_key(old(self).bindgroups@, r.0 as int, key) && (forall|j: int|
                0 <= j < r.0 ==> !holds_key(old(self).bindgroups@, j, key)) &&
                    final(self).bindgroups@ == old(self).bindgroups@,
            r.1 ==> (forall|j: int| !holds_key(old(self).bindgroups@, j, key)) && r.0 ==
                old(self).bindgroups@.len() && final(self).bindgroups@ ==
                old(self).bindgroups@.push(
                CachedBindGroup { key, alive: true },
            ),
            holds_key(final(self).bindgroups@, r.0 as int, key),
            r.0 == found_key(old(self).bindgroups@, key),
            r.1 == (r.0 == old(self).bindgroups@.len()),
            final(self).bindgroups@ == with_key(old(self).bindgroups@, key),
            final(self).references == old(self).references,
            final(self).buffers == old(self).buffers,
            final(self).max_bindgroups == old(self).max_bindgroups,
            final(self).mappings == old(self).mappings,
    {
        let n: usize = self.bindgroups.len();
        let mut i: usize = 0;
        while i < n
            invariant
                n == self.bindgroups@.len(),
                i <= n,
                self.bindgroups@ == old(self).bindgroups@,
                self.references == old(self).references,
                self.buffers == old(self).buffers,
                self.max_bindgroups == old(self).max_bindgroups,
                self.mappings == old(self).mappings,
                self.wf(),
                forall|j: int| 0 <= j < i ==> !holds_key(self.bindgroups@, j, key),
            decreases n - i,
        {
            let g: CachedBindGroup = self.bindgroups[i];
            if g.alive && g.key == key {
                proof {
                    assert(is_first_key(self.bindgroups@, i as int, key));
                    let chosen = choose|c: int| is_first_key(self.bindgroups@, c, key);
                    assert(holds_key(self.bindgroups@, chosen, key));
                    assert(holds_key(self.bindgroups@, i as int, key));
                }
                return (i, false);
            }
            i = i + 1;
        }
        proof {
            assert forall|c: int| !is_first_key(self.bindgroups@, c, key) by {
                assert(!holds_key(self.bindgroups@, c, key));
            }
        }
        self.bindgroups.push(CachedBindGroup { key, alive: true });
        (n, true)
    }

    /// The number of binding objects that exist.
    pub fn count_bind_groups(&self) -> (r: usize)
        ensures
            r == alive_upto(self.bindgroups@, self.bindgroups@.len() as int),
    {
        let n: usize = self.bindgroups.len();
        let mut count: usize = 0;
        let mut i: usize = 0;
        while i < n
            invariant
                n == self.bindgroups@.len(),
                i <= n,
                count == alive_upto(self.bindgroups@, i as int),
                count <= i,
            decreases n - i,
        {
            if self.bindgroups[i].alive {
                count = count + 1;
            }
            i = i + 1;
        }
        count
    }

    /// The pass that keeps the cache of binding objects in bounds. It drops every binding
    /// object with a storage buffer that no longer exists; if more binding objects are
    /// left than the cache may hold, it drops all of them and reports pressure. The
    /// result is whether there was pressure, and the objects dropped.
    pub fn remove_unused(&mut self) -> (r: (bool, Vec<BindgroupId>))
        ensures
            final(self).bindgroups@ == after_removal(
                old(self).bindgroups@,
                old(self).pool(),
                old(self).max_bindgroups as int,
            ),
            r.0 == (alive_upto(
                without_dead(old(self).bindgroups@, old(self).pool()),
                old(self).bindgroups@.len() as int,
            ) > old(self).max_bindgroups),
            forall|g: BindgroupId|
                r.1@.contains(g) <==> g < old(self).bindgroups@.len() &&
                    old(self).bindgroups@[g as int].alive &&
                    !final(self).bindgroups@[g as int].alive,
            final(self).references == old(self).references,
            final(self).buffers == old(self).buffers,
            final(self).max_bindgroups == old(self).max_bindgroups,
            final(self).mappings == old(self).mappings,
            forall|g: int|
                0 <= g < final(self).bindgroups@.len() && (
                #[trigger] final(self).bindgroups@[g]).alive ==> key_live(
                    final(self).bindgroups@[g].key,
                    final(self).pool(),
                ),
    {
        let ghost before = self.bindgroups@;
        let ghost kept = without_dead(before, self.pool());
        let n: usize = self.bindgroups.len();
        let mut dropped: Vec<BindgroupId> = Vec::new();
        let mut count: usize = 0;
        let mut i: usize = 0;
        while i < n
            invariant
                n == before.len(),
                i <= n,
                self.bindgroups@.len() == n,
                kept == without_dead(before, self.pool()),
                self.references == old(self).references,
                self.buffers == old(self).buffers,
                self.max_bindgroups == old(self).max_bindgroups,
                self.mappings == old(self).mappings,
                forall|j: int| 0 <= j < i ==> self.bindgroups@[j] == kept[j],
                forall|j: int| i <= j < n ==> self.bindgroups@[j] == before[j],
                count == alive_upto(kept, i as int),
                count <= i,
                forall|g: BindgroupId|
                    dropped@.contains(g) <==> g < i && before[g as int].alive &&
                        !kept[g as int].alive,
            decreases n - i,
        {
            let g: CachedBindGroup = self.bindgroups[i];
            let live: bool = self.key_is_live(&g.key);
            if g.alive && !live {
                self.bindgroups.set(i, CachedBindGroup { key: g.key, alive: false });
                let ghost earlier = dropped@;
                dropped.push(i);
                assert forall|h: BindgroupId| dropped@.contains(h) <==> h < i + 1 &&
                    before[h as int].alive
                    && !kept[h as int].alive by {
                    if dropped@.contains(h) {
                        let k = choose|k: int| 0 <= k < dropped@.len() && dropped@[k] == h;
                        if k < earlier.len() {
                            assert(earlier[k] == h);
                            assert(earlier.contains(h));
                        }
                    }
                    if h < i + 1 && before[h as int].alive && !kept[h as int].alive {
                        if h < i {
                            assert(earlier.contains(h));
                            let k = choose|k: int| 0 <= k < earlier.len() && earlier[k] == h;
                            assert(dropped@[k] == h);
                        } else {
                            assert(dropped@[earlier.len() as int] == h);
                        }
                    }
                }
            } else {
                if g.alive {
                    count = count + 1;
                }
            }
            i = i + 1;
        }
        assert(self.bindgroups@ =~= kept);
        if count > self.max_bindgroups {
            let mut j: usize = 0;
            while j < n
                invariant
                    n == before.len(),
                    n == kept.len(),
                    j <= n,
                    self.bindgroups@.len() == n,
                    self.references == old(self).references,
                    self.buffers == old(self).buffers,
                    self.max_bindgroups == old(self).max_bindgroups,
                    self.mappings == old(self).mappings,
                self.mappings == old(self).mappings,
                    forall|c: int|
                        0 <= c < j ==> self.bindgroups@[c] == (CachedBindGroup {
                            key: kept[c].key,
                            alive: false,
                        }),
                    forall|c: int| j <= c < n ==> self.bindgroups@[c] == kept[c],
                    forall|c: int| 0 <= c < n ==> kept[c].alive ==> before[c].alive,
                    forall|g: BindgroupId|
                        dropped@.contains(g) <==> g < n && before[g as int].alive && !(j <= g
                            && kept[g as int].alive),
                decreases n - j,
            {
                let g: CachedBindGroup = self.bindgroups[j];
                self.bindgroups.set(j, CachedBindGroup { key: g.key, alive: false });
                if g.alive {
                    let ghost earlier = dropped@;
                    dropped.push(j);
                    assert forall|h: BindgroupId| dropped@.contains(h) <==> h < n &&
                        before[h as int].alive
                        && !(j + 1 <= h && kept[h as int].alive) by {
                        if dropped@.contains(h) {
                            let k = choose|k: int| 0 <= k < dropped@.len() && dropped@[k] == h;
                            if k < earlier.len() {
                                assert(earlier[k] == h);
                                assert(earlier.contains(h));
                            }
                        }
                        if h < n && before[h as int].alive && !(j + 1 <= h &&
                            kept[h as int].alive) {
                            if h == j {
                                assert(dropped@[earlier.len() as int] == h);
                            } else {
                                assert(earlier.contains(h));
                                let k = choose|k: int| 0 <= k < earlier.len() && earlier[k] == h;
                                assert(dropped@[k] == h);
                            }
                        }
                    }
                }
                j = j + 1;
            }
            assert(self.bindgroups@ =~= after_removal(
                before,
                self.pool(),
                self.max_bindgroups as int,
            ));
            (true, dropped)
        } else {
            (false, dropped)
        }
    }

    /// Whether every storage buffer of a binding still exists in the pool.
    pub fn key_is_live(&self, key: &CachedBindGroupReference) -> (r: bool)
        ensures
            r == key_live(*key, self.pool()),
    {
        let len: usize = key.len();
        let mut k: usize = 0;
        while k < len
            invariant
                len == key.buffers().len(),
                k <= len,
                forall|c: int|
                    0 <= c < k ==> (#[trigger] key.buffers()[c]) < self.pool().len() && !(
                    self.pool()[key.buffers()[c] as int].state is Deleted),
            decreases len - k,
        {
            let s: usize = key.get(k);
            if s >= self.buffers.buffers.len() {
                return false;
            }
            match self.buffers.buffers[s].state {
                StorageState::Deleted => {
                    return false;
                },
                _ => {},
            }
            k = k + 1;
        }
        true
    }
}

} // verus!
