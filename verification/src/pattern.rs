//! Patterns of dispatches: recognising a batch that was run before, and where its
//! buffers lived then.
use std::collections::hash_map::DefaultHasher;
use std::hash::Hasher;
use vstd::bytes::spec_u64_to_le_bytes;
use vstd::bytes::u64_to_le_bytes;
use vstd::prelude::*;
use vstd::std_specs::hash::DefaultHasherAdditionalSpecFns;
use crate::queue::CachedBufferId;
use crate::queue::MlQueueDispatch;
use crate::queue::OpIsInplaceable;
use crate::queue::PipelineType;

verus! {

/// Which inputs may be overwritten, as one byte: one for the first input, two for the
/// second.
pub open spec fn inplaceable_code(flags: OpIsInplaceable) -> u8 {
    if flags.input1_inplaceable {
        if flags.input2_inplaceable {
            3
        } else {
            1
        }
    } else {
        if flags.input2_inplaceable {
            2
        } else {
            0
        }
    }
}

/// The bytes that stand for a pipeline identity in a pattern: the numbers of the kernel's
/// family, element type and entry point, the number of the constant set as eight bytes,
/// the least significant first, and which inputs may be overwritten.
pub open spec fn pipeline_bytes(pipeline: PipelineType) -> Seq<u8> {
    seq![pipeline.0.codes().0, pipeline.0.codes().1, pipeline.0.codes().2]
        + spec_u64_to_le_bytes(pipeline.1 as u64).push(inplaceable_code(pipeline.2))
}

/// What is written to the hasher for a batch: the bytes of each dispatch's pipeline
/// identity, in queue order.
pub open spec fn pattern_writes(records: Seq<MlQueueDispatch>) -> Seq<Seq<u8>> {
    Seq::new(records.len(), |i: int| pipeline_bytes(records[i].pipeline))
}

/// The hash of a batch: that of the standard hasher over the pipeline identities of its
/// dispatches. Batches with the same sequence of pipeline identities have the same hash.
pub open spec fn pattern_hash_spec(records: Seq<MlQueueDispatch>) -> u64 {
    DefaultHasher::spec_finish(pattern_writes(records))
}

/// The bytes of [`pipeline_bytes`].
pub fn get_pipeline_bytes(pipeline: &PipelineType) -> (r: Vec<u8>)
    ensures
        r@ == pipeline_bytes(*pipeline),
{
    let (family, typ, function) = pipeline.0.get_codes();
    let mut bytes: Vec<u8> = Vec::new();
    bytes.push(family);
    bytes.push(typ);
    bytes.push(function);
    let mut number: Vec<u8> = u64_to_le_bytes(pipeline.1 as u64);
    let flags: u8 = if pipeline.2.input1_inplaceable {
        if pipeline.2.input2_inplaceable {
            3
        } else {
            1
        }
    } else {
        if pipeline.2.input2_inplaceable {
            2
        } else {
            0
        }
    };
    number.push(flags);
    bytes.append(&mut number);
    assert(bytes@ =~= pipeline_bytes(*pipeline));
    bytes
}

/// The hash of a batch; see [`pattern_hash_spec`].
pub fn pattern_hash(records: &Vec<MlQueueDispatch>) -> (r: u64)
    ensures
        r == pattern_hash_spec(records@),
{
    let mut hasher: DefaultHasher = DefaultHasher::new();
    let mut i: usize = 0;
    while i < records.len()
        invariant
            i <= records@.len(),
            hasher@ == pattern_writes(records@).subrange(0, i as int),
        decreases records@.len() - i,
    {
        let bytes: Vec<u8> = get_pipeline_bytes(&records[i].pipeline);
        hasher.write(bytes.as_slice());
        assert(hasher@ =~= pattern_writes(records@).subrange(0, i + 1));
        i = i + 1;
    }
    assert(hasher@ =~= pattern_writes(records@));
    hasher.finish()
}

/// How many patterns are remembered before all of them are forgotten.
pub const MAX_BUFFER_MAPPINGS: usize = 32;

/// What is remembered of a pattern: its hash, and for each place of the batch the
/// storage buffer that its first bound buffer took there the last time, where that is
/// known.
#[derive(Debug)]
pub struct CachedBufferMapping {
    pub hash: u64,
    pub storages: Vec<Option<CachedBufferId>>,
}

/// The patterns remembered, and the one that the batch at hand follows.
#[derive(Debug)]
pub struct BufferMappingCache {
    /// The patterns remembered, in the order in which they were first seen.
    pub patterns: Vec<CachedBufferMapping>,
    /// The place among the patterns of the pattern of the batch at hand, if a batch is at
    /// hand.
    pub current: Option<usize>,
    /// The storage buffers of the batch at hand, as far as they are known: those of the
    /// last time, overwritten place by place with those of this time.
    pub current_storages: Vec<Option<CachedBufferId>>,
}

/// Whether the pattern at place `i` has the given hash.
pub open spec fn holds_hash(patterns: Seq<CachedBufferMapping>, i: int, hash: u64) -> bool {
    0 <= i < patterns.len() && patterns[i].hash == hash
}

/// Whether the pattern at place `i` is the first with the given hash.
pub open spec fn is_first_hash(patterns: Seq<CachedBufferMapping>, i: int, hash: u64) -> bool {
    holds_hash(patterns, i, hash) && forall|j: int| 0 <= j < i ==> !holds_hash(patterns, j, hash)
}

/// The patterns as plain values: each hash with its storage buffers.
pub open spec fn pattern_views(patterns: Seq<CachedBufferMapping>) -> Seq<
    (u64, Seq<Option<CachedBufferId>>),
> {
    Seq::new(patterns.len(), |i: int| (patterns[i].hash, patterns[i].storages@))
}

/// Whether the pattern at place `i` is the first with the given hash.
pub open spec fn is_first_place(
    patterns: Seq<(u64, Seq<Option<CachedBufferId>>)>,
    i: int,
    hash: u64,
) -> bool {
    0 <= i < patterns.len() && patterns[i].0 == hash && forall|j: int|
        0 <= j < i ==> (#[trigger] patterns[j]).0 != hash
}

/// The patterns once a batch with the given hash has begun: as they were where one of
/// them has the hash; else with a new pattern at the end, of which nothing is known,
/// alone where [`MAX_BUFFER_MAPPINGS`] patterns were remembered already.
pub open spec fn begun_patterns(
    patterns: Seq<(u64, Seq<Option<CachedBufferId>>)>,
    hash: u64,
) -> Seq<(u64, Seq<Option<CachedBufferId>>)> {
    if exists|i: int| 0 <= i < patterns.len() && (#[trigger] patterns[i]).0 == hash {
        patterns
    } else if patterns.len() >= MAX_BUFFER_MAPPINGS {
        seq![(hash, Seq::<Option<CachedBufferId>>::empty())]
    } else {
        patterns.push((hash, Seq::<Option<CachedBufferId>>::empty()))
    }
}

/// The patterns once a batch with the given hash has begun and ended with `storages`
/// noted: they are remembered with the first pattern of the hash.
pub open spec fn remembered(
    patterns: Seq<(u64, Seq<Option<CachedBufferId>>)>,
    hash: u64,
    storages: Seq<Option<CachedBufferId>>,
) -> Seq<(u64, Seq<Option<CachedBufferId>>)> {
    let begun = begun_patterns(patterns, hash);
    begun.update(choose|c: int| is_first_place(begun, c, hash), (hash, storages))
}

/// Storage buffers noted for a batch are remembered at the place of the pattern at hand,
/// which is the first pattern with the hash of the batch.
pub proof fn lemma_remembered_at(
    patterns: Seq<(u64, Seq<Option<CachedBufferId>>)>,
    hash: u64,
    storages: Seq<Option<CachedBufferId>>,
    c: int,
)
    requires
        is_first_place(begun_patterns(patterns, hash), c, hash),
    ensures
        remembered(patterns, hash, storages) == begun_patterns(patterns, hash).update(
            c,
            (hash, storages),
        ),
{
    let begun = begun_patterns(patterns, hash);
    let chosen = choose|c: int| is_first_place(begun, c, hash);
    if chosen < c {
        assert(begun[chosen].0 != hash);
    } else if c < chosen {
        assert(begun[c].0 != hash);
    }
}

/// What is known of the storage buffers of a batch with the given hash when it begins:
/// what is remembered with the first pattern of this hash, and nothing where no pattern
/// has it.
pub open spec fn started(patterns: Seq<CachedBufferMapping>, hash: u64) -> Seq<
    Option<CachedBufferId>,
> {
    if exists|i: int| is_first_hash(patterns, i, hash) {
        patterns[choose|i: int| is_first_hash(patterns, i, hash)].storages@
    } else {
        Seq::<Option<CachedBufferId>>::empty()
    }
}

/// The storage buffers of a batch after the one at `place` was noted: the list is
/// lengthened with unknown entries as far as needed.
pub open spec fn noted(
    storages: Seq<Option<CachedBufferId>>,
    place: int,
    storage: CachedBufferId,
) -> Seq<Option<CachedBufferId>> {
    Seq::new(
        if place < storages.len() {
            storages.len()
        } else {
            (place + 1) as nat
        },
        |i: int|
            if i == place {
                Some(storage)
            } else if i < storages.len() {
                storages[i]
            } else {
                None
            },
    )
}

impl BufferMappingCache {
    /// The storage buffer that the first bound buffer of the dispatch at `place` took the
    /// last time the pattern of the batch at hand was run, where that is known.
    pub open spec fn spec_preferred(&self, place: int) -> Option<CachedBufferId> {
        if self.current is Some && 0 <= place < self.current_storages@.len() {
            self.current_storages@[place]
        } else {
            None
        }
    }

    /// No pattern is remembered, and no batch is at hand.
    pub fn new() -> (r: BufferMappingCache)
        ensures
            r.patterns@.len() == 0,
            r.current is None,
            r.current_storages@.len() == 0,
    {
        BufferMappingCache { patterns: Vec::new(), current: None, current_storages: Vec::new() }
    }

    /// Begins a batch with the given hash. A pattern with this hash that is remembered
    /// becomes the pattern at hand, with what is known of its storage buffers. Otherwise
    /// a new pattern is remembered, of which nothing is known; if that would be more than
    /// [`MAX_BUFFER_MAPPINGS`], all others are forgotten first.
    pub fn set_current_buffer_mapping(&mut self, hash: u64)
        ensures
            final(self).current matches Some(c) && holds_hash(final(self).patterns@, c as int,
                hash),
            pattern_views(final(self).patterns@) == begun_patterns(
                pattern_views(old(self).patterns@),
                hash,
            ),
            final(self).current matches Some(c) && is_first_place(
                pattern_views(final(self).patterns@),
                c as int,
                hash,
            ),
            final(self).current_storages@ == started(old(self).patterns@, hash),
            (exists|i: int| holds_hash(old(self).patterns@, i, hash)) ==> {
                let c = final(self).current->0 as int;
                &&& final(self).patterns@ == old(self).patterns@
                &&& forall|j: int| 0 <= j < c ==> !holds_hash(old(self).patterns@, j, hash)
                &&& final(self).current_storages@ == old(self).patterns@[c].storages@
            },
            !(exists|i: int| holds_hash(old(self).patterns@, i, hash)) ==> {
                &&& final(self).current_storages@.len() == 0
                &&& final(self).patterns@.len() == if old(self).patterns@.len()
                    >= MAX_BUFFER_MAPPINGS {
                    1
                } else {
                    old(self).patterns@.len() + 1
                }
                &&& final(self).current->0 == final(self).patterns@.len() - 1
                &&& final(self).patterns@[final(self).current->0 as int].storages@.len() == 0
                &&& old(self).patterns@.len() < MAX_BUFFER_MAPPINGS ==> forall|j: int|
                    0 <= j < old(self).patterns@.len() ==> final(self).patterns@[j] ==
                        old(self).patterns@[j]
            },
    {
        let n: usize = self.patterns.len();
        let mut i: usize = 0;
        while i < n
            invariant
                n == self.patterns@.len(),
                i <= n,
                self.patterns@ == old(self).patterns@,
                forall|j: int| 0 <= j < i ==> !holds_hash(self.patterns@, j, hash),
            decreases n - i,
        {
            if self.patterns[i].hash == hash {
                proof {
                    assert(holds_hash(old(self).patterns@, i as int, hash));
                    assert(is_first_hash(old(self).patterns@, i as int, hash));
                    let chosen = choose|c: int| is_first_hash(old(self).patterns@, c, hash);
                    assert(holds_hash(old(self).patterns@, chosen, hash));
                }
                self.current = Some(i);
                self.current_storages = copy_storages(&self.patterns[i].storages);
                proof {
                    let views = pattern_views(old(self).patterns@);
                    assert(views[i as int].0 == hash);
                    assert forall|j: int| 0 <= j < i implies (#[trigger] views[j]).0 != hash by {
                        assert(!holds_hash(old(self).patterns@, j, hash));
                    }
                    assert(is_first_place(views, i as int, hash));
                }
                return ;
            }
            i = i + 1;
        }
        proof {
            assert forall|c: int| !is_first_hash(old(self).patterns@, c, hash) by {
                assert(!holds_hash(old(self).patterns@, c, hash));
            }
        }
        if n >= MAX_BUFFER_MAPPINGS {
            self.patterns.clear();
        }
        self.patterns.push(CachedBufferMapping { hash, storages: Vec::new() });
        self.current = Some(self.patterns.len() - 1);
        self.current_storages = Vec::new();
        proof {
            let views = pattern_views(old(self).patterns@);
            assert forall|i: int| 0 <= i < views.len() implies (#[trigger] views[i]).0 != hash by {
                assert(!holds_hash(old(self).patterns@, i, hash));
            }
            assert(pattern_views(self.patterns@) =~= begun_patterns(views, hash));
        }
    }

    /// The storage buffer that the first bound buffer of the dispatch at `place` took the
    /// last time the pattern of the batch at hand was run, where that is known.
    pub fn preferred(&self, place: usize) -> (r: Option<CachedBufferId>)
        ensures
            r == self.spec_preferred(place as int),
    {
        if self.current.is_some() && place < self.current_storages.len() {
            self.current_storages[place]
        } else {
            None
        }
    }

    /// Notes the storage buffer that the first bound buffer of the dispatch at `place`
    /// took this time.
    pub fn note(&mut self, place: usize, storage: CachedBufferId)
        ensures
            final(self).current_storages@ == noted(
                old(self).current_storages@,
                place as int,
                storage,
            ),
            final(self).patterns == old(self).patterns,
            final(self).current == old(self).current,
    {
        let ghost before = self.current_storages@;
        while self.current_storages.len() <= place
            invariant
                before.len() <= self.current_storages@.len(),
                self.current_storages@.len() <= place + 1 || self.current_storages@.len()
                    == before.len(),
                forall|i: int| 0 <= i < before.len() ==> self.current_storages@[i] == before[i],
                forall|i: int|
                    before.len() <= i < self.current_storages@.len()
                        ==> self.current_storages@[i] is None,
                self.patterns == old(self).patterns,
                self.current == old(self).current,
            decreases place + 1 - self.current_storages@.len(),
        {
            self.current_storages.push(None);
        }
        self.current_storages.set(place, Some(storage));
        assert(self.current_storages@ =~= noted(before, place as int, storage));
    }

    /// Ends the batch at hand: what was noted of its storage buffers is remembered with
    /// its pattern, and no batch is at hand any more.
    pub fn finish(&mut self)
        ensures
            final(self).current is None,
            final(self).current_storages@.len() == 0,
            final(self).patterns@.len() == old(self).patterns@.len(),
            pattern_views(final(self).patterns@) == match old(self).current {
                Some(c) if c < old(self).patterns@.len() => pattern_views(
                    old(self).patterns@,
                ).update(c as int, (old(self).patterns@[c as int].hash, old(self).current_storages@)),
                _ => pattern_views(old(self).patterns@),
            },
            forall|j: int|
                0 <= j < old(self).patterns@.len() ==> (#[trigger] final(self).patterns@[j]).hash
                    == old(self).patterns@[j].hash && final(self).patterns@[j].storages@ ==
                        if old(self).current == Some(j as usize) {
                    old(self).current_storages@
                } else {
                    old(self).patterns@[j].storages@
                },
    {
        match self.current {
            Some(c) => {
                if c < self.patterns.len() {
                    let hash: u64 = self.patterns[c].hash;
                    let storages: Vec<Option<CachedBufferId>> = copy_storages(
                        &self.current_storages,
                    );
                    self.patterns.set(c, CachedBufferMapping { hash, storages });
                }
            },
            None => {},
        }
        proof {
            match old(self).current {
                Some(c) if c < old(self).patterns@.len() => {
                    assert(pattern_views(self.patterns@) =~= pattern_views(
                        old(self).patterns@,
                    ).update(
                        c as int,
                        (old(self).patterns@[c as int].hash, old(self).current_storages@),
                    ));
                },
                _ => {
                    assert(pattern_views(self.patterns@) =~= pattern_views(old(self).patterns@));
                },
            }
        }
        self.current = None;
        self.current_storages = Vec::new();
    }
}

/// A copy of a list of storage buffers.
pub fn copy_storages(storages: &Vec<Option<CachedBufferId>>) -> (r: Vec<Option<CachedBufferId>>)
    ensures
        r@ == storages@,
{
    let mut r: Vec<Option<CachedBufferId>> = Vec::new();
    let mut i: usize = 0;
    while i < storages.len()
        invariant
            i <= storages@.len(),
            r@ == storages@.subrange(0, i as int),
        decreases storages@.len() - i,
    {
        r.push(storages[i]);
        assert(r@ =~= storages@.subrange(0, i + 1));
        i = i + 1;
    }
    assert(r@ =~= storages@);
    r
}

} // verus!

