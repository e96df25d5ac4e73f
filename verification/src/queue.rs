//! The log of pending dispatches, their parameter blob and the table of constant sets.
use vstd::prelude::*;
use crate::kernels::Constants;
use crate::kernels::Pipelines;
use crate::kernels::GENERAL_CONSTANTS;
use crate::layout::low_word;
use crate::layout::to_word;
use crate::layout::Layout;
use crate::meta::extend_words;
use crate::meta::next_divisible_by_n;
use crate::meta::next_divisible_spec;
use crate::meta::words_of;
use crate::meta::MetaArray;

verus! {

/// The number of a logical buffer: its place in the device's buffer table.
pub type BufferReferenceId = usize;

/// The number of a pooled storage buffer: its place in the device's pool.
pub type CachedBufferId = usize;

/// The number of a cached binding object.
pub type BindgroupId = usize;

/// The number of a compiled pipeline.
pub type PipelineId = usize;

/// The capacity of the device buffer that holds the parameter blob, in bytes.
pub const META_BUFFER_SIZE: u32 = 10 * 1024 * 1024;

/// The most work, in elements, that one command buffer takes on.
pub const MAX_WORKLOAD_SIZE: u64 = 1024u64 * 1024 * 1024 * 10;

/// The largest workgroup count a dispatch may carry in one dimension.
pub const MAX_DISPATCH_SIZE: u32 = 65535;

/// The number of invocations in one workgroup of the elementwise kernels.
pub const WORKGROUP_SIZE: u32 = 64;

/// Which inputs of an operation may be overwritten with its result.
#[derive(Clone, Copy, Debug, PartialEq, Eq, Hash, Structural)]
pub struct OpIsInplaceable {
    pub input1_inplaceable: bool,
    pub input2_inplaceable: bool,
}

impl OpIsInplaceable {
    /// No input may be overwritten.
    pub fn new() -> (r: Self)
        ensures
            r == (OpIsInplaceable { input1_inplaceable: false, input2_inplaceable: false }),
    {
        Self { input1_inplaceable: false, input2_inplaceable: false }
    }
}

/// The identity of a compiled program: the kernel, the number of its set of
/// specialization constants, and which inputs it may overwrite.
#[derive(Clone, Copy, Debug, PartialEq, Eq, Hash, Structural)]
pub struct PipelineType(pub Pipelines, pub usize, pub OpIsInplaceable);

/// The buffers of one dispatch: the destination, then up to three inputs.
#[derive(Clone, Copy, Debug, PartialEq, Eq, Hash, Structural)]
pub enum BindGroupReferenceBase<T> {
    Bindgroup0(T),
    Bindgroup1(T, T),
    Bindgroup2(T, T, T),
    Bindgroup3(T, T, T, T),
}

/// A binding that names logical buffers.
pub type BindGroupReference = BindGroupReferenceBase<BufferReferenceId>;

/// A binding that names pooled storage buffers.
pub type CachedBindGroupReference = BindGroupReferenceBase<CachedBufferId>;

impl<T> BindGroupReferenceBase<T> {
    /// The buffers in binding order, the destination first.
    pub open spec fn buffers(self) -> Seq<T> {
        match self {
            BindGroupReferenceBase::Bindgroup0(v0) => seq![v0],
            BindGroupReferenceBase::Bindgroup1(v0, v1) => seq![v0, v1],
            BindGroupReferenceBase::Bindgroup2(v0, v1, v2) => seq![v0, v1, v2],
            BindGroupReferenceBase::Bindgroup3(v0, v1, v2, v3) => seq![v0, v1, v2, v3],
        }
    }

    /// The number of inputs, which selects the pipeline layout.
    pub open spec fn arity(self) -> int {
        self.buffers().len() - 1
    }
}

impl<T: Copy> BindGroupReferenceBase<T> {
    /// The number of buffers, the destination included.
    pub fn len(&self) -> (r: usize)
        ensures
            r == self.buffers().len(),
            1 <= r <= 4,
    {
        match self {
            BindGroupReferenceBase::Bindgroup0(_) => 1,
            BindGroupReferenceBase::Bindgroup1(_, _) => 2,
            BindGroupReferenceBase::Bindgroup2(_, _, _) => 3,
            BindGroupReferenceBase::Bindgroup3(_, _, _, _) => 4,
        }
    }

    /// The buffer at place `k` of the binding order.
    pub fn get(&self, k: usize) -> (r: T)
        requires
            k < self.buffers().len(),
        ensures
            r == self.buffers()[k as int],
    {
        match self {
            BindGroupReferenceBase::Bindgroup0(v0) => *v0,
            BindGroupReferenceBase::Bindgroup1(v0, v1) => if k == 0 {
                *v0
            } else {
                *v1
            },
            BindGroupReferenceBase::Bindgroup2(v0, v1, v2) => if k == 0 {
                *v0
            } else if k == 1 {
                *v1
            } else {
                *v2
            },
            BindGroupReferenceBase::Bindgroup3(v0, v1, v2, v3) => if k == 0 {
                *v0
            } else if k == 1 {
                *v1
            } else if k == 2 {
                *v2
            } else {
                *v3
            },
        }
    }
}

/// The binding of a dispatch without inputs.
pub fn create_bind_group_input0(buffer_dest: BufferReferenceId) -> (r: BindGroupReference)
    ensures
        r == BindGroupReferenceBase::Bindgroup0(buffer_dest),
        r.buffers() == seq![buffer_dest],
{
    BindGroupReferenceBase::Bindgroup0(buffer_dest)
}

/// The binding of a dispatch with one input.
pub fn create_bind_group_input1(
    buffer_dest: BufferReferenceId,
    buffer_input1: BufferReferenceId,
) -> (r: BindGroupReference)
    ensures
        r == BindGroupReferenceBase::Bindgroup1(buffer_dest, buffer_input1),
        r.buffers() == seq![buffer_dest, buffer_input1],
{
    BindGroupReferenceBase::Bindgroup1(buffer_dest, buffer_input1)
}

/// The binding of a dispatch with two inputs.
pub fn create_bind_group_input2(
    buffer_dest: BufferReferenceId,
    buffer_input1: BufferReferenceId,
    buffer_input2: BufferReferenceId,
) -> (r: BindGroupReference)
    ensures
        r == BindGroupReferenceBase::Bindgroup2(buffer_dest, buffer_input1, buffer_input2),
        r.buffers() == seq![buffer_dest, buffer_input1, buffer_input2],
{
    BindGroupReferenceBase::Bindgroup2(buffer_dest, buffer_input1, buffer_input2)
}

/// The binding of a dispatch with three inputs.
pub fn create_bind_group_input3(
    buffer_dest: BufferReferenceId,
    buffer_input1: BufferReferenceId,
    buffer_input2: BufferReferenceId,
    buffer_input3: BufferReferenceId,
) -> (r: BindGroupReference)
    ensures
        r == BindGroupReferenceBase::Bindgroup3(
            buffer_dest,
            buffer_input1,
            buffer_input2,
            buffer_input3,
        ),
        r.buffers() == seq![buffer_dest, buffer_input1, buffer_input2, buffer_input3],
{
    BindGroupReferenceBase::Bindgroup3(buffer_dest, buffer_input1, buffer_input2, buffer_input3)
}

/// The binding of a queued dispatch: still by logical buffers, or resolved to a cached
/// binding object.
#[derive(Clone, Copy, Debug, PartialEq, Eq, Hash, Structural)]
pub enum DispatchedBindgroup {
    BindgroupReference(BindGroupReference),
    CachedBindgroup(BindgroupId),
    /// The dispatch was optimized away.
    OptimizedAway,
}

/// One queued dispatch.
#[derive(Clone, Copy, Debug, PartialEq, Eq, Hash, Structural)]
pub struct MlQueueDispatch {
    /// The workgroup counts.
    pub x: u32,
    pub y: u32,
    pub z: u32,
    pub pipeline: PipelineType,
    pub bindgroup: DispatchedBindgroup,
    /// The compiled pipeline, once batching has resolved it.
    pub pipeline_cached: Option<PipelineId>,
    /// Where the dispatch's parameters begin in the blob, in words.
    pub meta: u32,
    /// The declared amount of work, in elements.
    pub workload_size: usize,
}

/// A set of specialization constants under construction: keys with their values.
#[derive(Debug)]
pub struct ConstArray(pub Vec<(Constants, u32)>);

impl ConstArray {
    /// The empty set.
    pub fn new() -> (r: ConstArray)
        ensures
            r.0@ == Seq::<(Constants, u32)>::empty(),
    {
        ConstArray(Vec::new())
    }

    /// Appends a constant.
    pub fn insert(&mut self, key: Constants, value: u32)
        ensures
            final(self).0@ == old(self).0@.push((key, value)),
    {
        self.0.push((key, value));
    }
}

/// The constant sets of a table, each as a sequence.
pub open spec fn constant_sets(entries: Seq<Vec<(Constants, u32)>>) -> Seq<Seq<(Constants, u32)>> {
    Seq::new(entries.len(), |i: int| entries[i]@)
}

/// The place of the first set equal to `target`; the number of sets where none is.
pub open spec fn position_of(
    sets: Seq<Seq<(Constants, u32)>>,
    target: Seq<(Constants, u32)>,
) -> int
    decreases sets.len(),
{
    if sets.len() == 0 {
        0
    } else if sets[0] == target {
        0
    } else {
        1 + position_of(sets.subrange(1, sets.len() as int), target)
    }
}

/// The place of the first equal set is the least place that holds an equal set.
pub proof fn lemma_position_of(
    sets: Seq<Seq<(Constants, u32)>>,
    target: Seq<(Constants, u32)>,
)
    ensures
        0 <= position_of(sets, target) <= sets.len(),
        position_of(sets, target) < sets.len() ==> sets[position_of(sets, target)] == target,
        forall|j: int| 0 <= j < position_of(sets, target) ==> sets[j] != target,
    decreases sets.len(),
{
    if sets.len() == 0 {
    } else if sets[0] == target {
    } else {
        let rest = sets.subrange(1, sets.len() as int);
        lemma_position_of(rest, target);
        assert forall|j: int| 0 <= j < position_of(sets, target) implies sets[j] != target by {
            if j > 0 {
                assert(rest[j - 1] == sets[j]);
            }
        }
        if position_of(sets, target) < sets.len() {
            assert(rest[position_of(rest, target)] == sets[position_of(rest, target) + 1]);
        }
    }
}

/// Whether two constant sets hold the same constants in the same order.
pub fn same_constants(a: &Vec<(Constants, u32)>, b: &Vec<(Constants, u32)>) -> (r: bool)
    ensures
        r == (a@ == b@),
{
    if a.len() != b.len() {
        return false;
    }
    let mut i: usize = 0;
    while i < a.len()
        invariant
            a@.len() == b@.len(),
            i <= a@.len(),
            forall|j: int| 0 <= j < i ==> a@[j] == b@[j],
        decreases a@.len() - i,
    {
        let x: (Constants, u32) = a[i];
        let y: (Constants, u32) = b[i];
        if !(x.0 == y.0 && x.1 == y.1) {
            return false;
        }
        i = i + 1;
    }
    assert(a@ =~= b@);
    true
}

/// A copy of a constant set.
pub fn copy_constants(a: &Vec<(Constants, u32)>) -> (r: Vec<(Constants, u32)>)
    ensures
        r@ == a@,
{
    let mut r: Vec<(Constants, u32)> = Vec::new();
    let mut i: usize = 0;
    while i < a.len()
        invariant
            i <= a@.len(),
            r@ == a@.subrange(0, i as int),
        decreases a@.len() - i,
    {
        r.push(a[i]);
        assert(r@ =~= a@.subrange(0, i + 1));
        i = i + 1;
    }
    assert(r@ =~= a@);
    r
}

/// The table of the constant sets seen so far. A set's place in the table is its number.
#[derive(Debug)]
pub struct ObjectToIdMapper {
    pub entries: Vec<Vec<(Constants, u32)>>,
}

impl ObjectToIdMapper {
    /// The sets of the table, by number.
    pub open spec fn sets(&self) -> Seq<Seq<(Constants, u32)>> {
        constant_sets(self.entries@)
    }

    /// The empty table.
    pub fn new() -> (r: ObjectToIdMapper)
        ensures
            r.sets() == Seq::<Seq<(Constants, u32)>>::empty(),
    {
        let r = ObjectToIdMapper { entries: Vec::new() };
        assert(r.sets() =~= Seq::<Seq<(Constants, u32)>>::empty());
        r
    }

    /// The number of a constant set, and whether the set is new to the table. A set equal
    /// to an earlier one gets that one's number and leaves the table as it is; a new set is
    /// appended and numbered by its place.
    pub fn get_or_insert(&mut self, object: &ConstArray) -> (r: (usize, bool))
        ensures
            r.0 == position_of(old(self).sets(), object.0@),
            r.1 == (position_of(old(self).sets(), object.0@) == old(self).sets().len()),
            !r.1 ==> final(self).sets() == old(self).sets(),
            r.1 ==> final(self).sets() == old(self).sets().push(object.0@),
            r.0 < final(self).sets().len(),
            final(self).sets()[r.0 as int] == object.0@,
    {
        let mut i: usize = 0;
        while i < self.entries.len()
            invariant
                i <= self.entries@.len(),
                forall|j: int| 0 <= j < i ==> self.sets()[j] != object.0@,
                self.entries@ == old(self).entries@,
            decreases self.entries@.len() - i,
        {
            if same_constants(&self.entries[i], &object.0) {
                proof {
                    assert(self.sets()[i as int] == object.0@);
                    lemma_position_of(self.sets(), object.0@);
                }
                return (i, false);
            }
            i = i + 1;
        }
        let ghost before = self.sets();
        proof {
            lemma_position_of(before, object.0@);
        }
        self.entries.push(copy_constants(&object.0));
        assert(self.sets() =~= before.push(object.0@));
        (i, true)
    }
}

/// The words and constants that describe a layout to a kernel.
///
/// The number of dimensions always goes to the constants. A start offset other than zero
/// is flagged in the constants and written to the blob. A contiguous layout then writes
/// its element count; any other is flagged in the constants and writes every dimension
/// and every stride.
pub open spec fn layout_constants(
    layout: Layout,
    is_contiguous: bool,
    constant_dims: Constants,
    constant_is_startoffset_zero: Constants,
    constant_is_contiguous: Constants,
) -> Seq<(Constants, u32)> {
    seq![(constant_dims, low_word(layout.shape@.len() as int))] + (if layout.start_offset != 0 {
        seq![(constant_is_startoffset_zero, 0u32)]
    } else {
        Seq::<(Constants, u32)>::empty()
    }) + (if is_contiguous {
        Seq::<(Constants, u32)>::empty()
    } else {
        seq![(constant_is_contiguous, 0u32)]
    })
}

/// The words that `add_layout` appends to the blob; see [`layout_constants`].
pub open spec fn layout_meta(layout: Layout, is_contiguous: bool) -> Seq<u32> {
    (if layout.start_offset != 0 {
        seq![low_word(layout.start_offset as int)]
    } else {
        Seq::<u32>::empty()
    }) + (if is_contiguous {
        seq![low_word(layout.spec_elem_count() as int)]
    } else {
        words_of(layout.shape@) + words_of(layout.stride@)
    })
}

/// The general-purpose constants `Constv0` onwards with the given values, in order.
pub open spec fn general_constants(values: Seq<u32>) -> Seq<(Constants, u32)> {
    Seq::new(values.len(), |i: int| (Constants::general(i), values[i]))
}

/// The pending dispatches with their parameter blob, the constant set of the dispatch
/// under construction, and the table of the constant sets in use.
#[derive(Debug)]
pub struct QueueBuffer {
    /// The dispatches in the order in which they were queued.
    pub command_queue: Vec<MlQueueDispatch>,
    /// The parameter blob of all queued dispatches.
    pub meta_array: MetaArray,
    /// The constants of the dispatch under construction.
    pub const_array: ConstArray,
    /// The constant sets in use, by number.
    pub const_id_map: ObjectToIdMapper,
    /// Where the parameters of the dispatch under construction begin, in words.
    pub current_meta: u32,
}

impl QueueBuffer {
    /// The queued dispatches.
    pub open spec fn records(&self) -> Seq<MlQueueDispatch> {
        self.command_queue@
    }

    /// The parameter blob.
    pub open spec fn meta(&self) -> Seq<u32> {
        self.meta_array.0@
    }

    /// The invariant of the queue: parameter offsets never decrease from one dispatch to
    /// the next and lie within the blob; every dispatch is unresolved, names a known
    /// constant set and keeps to the dispatch limit.
    pub open spec fn wf(&self) -> bool {
        &&& self.current_meta <= self.meta().len()
        &&& forall|i: int|
            0 <= i < self.records().len() ==> (#[trigger] self.records()[i]).meta
                <= self.current_meta
        &&& forall|i: int, j: int|
            0 <= i <= j < self.records().len() ==> (#[trigger] self.records()[i]).meta <= (
            #[trigger] self.records()[j]).meta
        &&& forall|i: int|
            0 <= i < self.records().len() ==> record_is_queued(
                #[trigger] self.records()[i],
                self.const_id_map.sets().len() as int,
            )
    }

    /// Whether every parameter offset is a multiple of `n` words.
    pub open spec fn aligned(&self, n: int) -> bool {
        &&& self.current_meta as int % n == 0
        &&& forall|i: int|
            0 <= i < self.records().len() ==> (#[trigger] self.records()[i]).meta as int % n == 0
    }

    /// An empty queue.
    pub fn new() -> (r: QueueBuffer)
        ensures
            r.wf(),
            r.records().len() == 0,
            r.meta().len() == 0,
            r.const_array.0@.len() == 0,
            r.const_id_map.sets().len() == 0,
            r.current_meta == 0,
    {
        QueueBuffer {
            command_queue: Vec::new(),
            meta_array: MetaArray::new(META_BUFFER_SIZE),
            const_array: ConstArray::new(),
            const_id_map: ObjectToIdMapper::new(),
            current_meta: 0,
        }
    }

    /// Forgets the constants of the dispatch under construction.
    pub fn init(&mut self)
        ensures
            final(self).const_array.0@ == Seq::<(Constants, u32)>::empty(),
            final(self).command_queue == old(self).command_queue,
            final(self).meta_array == old(self).meta_array,
            final(self).const_id_map == old(self).const_id_map,
            final(self).current_meta == old(self).current_meta,
    {
        self.const_array.0.clear();
    }

    /// Empties the queue and the blob. The table of constant sets stays.
    pub fn clear(&mut self)
        ensures
            final(self).records() == Seq::<MlQueueDispatch>::empty(),
            final(self).meta() == Seq::<u32>::empty(),
            final(self).const_array.0@ == Seq::<(Constants, u32)>::empty(),
            final(self).const_id_map == old(self).const_id_map,
            final(self).current_meta == 0,
            final(self).wf(),
    {
        self.command_queue.clear();
        self.meta_array.0.clear();
        self.init();
        self.current_meta = 0;
    }

    /// The parameter blob.
    pub fn get_meta(&self) -> (r: &Vec<u32>)
        ensures
            r@ == self.meta(),
    {
        &self.meta_array.0
    }

    /// The parameter blob, to be written to. What the caller makes of the blob is what the
    /// queue holds afterwards.
    pub fn get_meta_mut(&mut self) -> (r: &mut Vec<u32>)
        ensures
            r@ == old(self).meta(),
            final(self).meta() == final(r)@,
            final(self).command_queue == old(self).command_queue,
            final(self).const_array == old(self).const_array,
            final(self).const_id_map == old(self).const_id_map,
            final(self).current_meta == old(self).current_meta,
    {
        &mut self.meta_array.0
    }

    /// The constant set with the given number.
    pub fn constants_of(&self, index: usize) -> (r: &Vec<(Constants, u32)>)
        requires
            index < self.const_id_map.sets().len(),
        ensures
            r@ == self.const_id_map.sets()[index as int],
    {
        &self.const_id_map.entries[index]
    }

    /// Appends one word to the blob.
    pub fn add(&mut self, value: u32)
        ensures
            final(self).meta() == old(self).meta().push(value),
            final(self).command_queue == old(self).command_queue,
            final(self).const_array == old(self).const_array,
            final(self).const_id_map == old(self).const_id_map,
            final(self).current_meta == old(self).current_meta,
            old(self).wf() ==> final(self).wf(),
    {
        self.meta_array.add(value);
    }

    /// Appends words to the blob.
    pub fn add_words(&mut self, values: &Vec<u32>)
        ensures
            final(self).meta() == old(self).meta() + values@,
            final(self).command_queue == old(self).command_queue,
            final(self).const_array == old(self).const_array,
            final(self).const_id_map == old(self).const_id_map,
            final(self).current_meta == old(self).current_meta,
            old(self).wf() ==> final(self).wf(),
    {
        let ghost before = self.meta();
        let mut i: usize = 0;
        while i < values.len()
            invariant
                i <= values@.len(),
                self.meta() == before + values@.subrange(0, i as int),
                self.command_queue == old(self).command_queue,
                self.const_array == old(self).const_array,
                self.const_id_map == old(self).const_id_map,
                self.current_meta == old(self).current_meta,
            decreases values@.len() - i,
        {
            self.meta_array.0.push(values[i]);
            assert(self.meta() =~= before + values@.subrange(0, i + 1));
            i = i + 1;
        }
        assert(self.meta() =~= before + values@);
    }

    /// Appends a constant to the set of the dispatch under construction.
    pub fn add_const(&mut self, key: Constants, value: u32)
        ensures
            final(self).const_array.0@ == old(self).const_array.0@.push((key, value)),
            final(self).command_queue == old(self).command_queue,
            final(self).meta_array == old(self).meta_array,
            final(self).const_id_map == old(self).const_id_map,
            final(self).current_meta == old(self).current_meta,
    {
        self.const_array.insert(key, value);
    }

    fn add_layout(
        &mut self,
        layout: &Layout,
        is_contiguous: bool,
        constant_dims: Constants,
        constant_is_startoffset_zero: Constants,
        constant_is_contiguous: Constants,
    )
        requires
            layout.wf(),
        ensures
            final(self).meta() == old(self).meta() + layout_meta(*layout, is_contiguous),
            final(self).const_array.0@ == old(self).const_array.0@ + layout_constants(
                *layout,
                is_contiguous,
                constant_dims,
                constant_is_startoffset_zero,
                constant_is_contiguous,
            ),
            final(self).command_queue == old(self).command_queue,
            final(self).const_id_map == old(self).const_id_map,
            final(self).current_meta == old(self).current_meta,
            old(self).wf() ==> final(self).wf(),
    {
        let ghost meta_before = self.meta();
        let ghost consts_before = self.const_array.0@;
        self.add_const(constant_dims, to_word(layout.shape.len()));
        if layout.start_offset() != 0 {
            self.add_const(constant_is_startoffset_zero, 0);
            self.add(to_word(layout.start_offset()));
        }
        if is_contiguous {
            self.add(to_word(layout.elem_count()));
        } else {
            self.add_const(constant_is_contiguous, 0);
            extend_words(&mut self.meta_array.0, &layout.shape);
            extend_words(&mut self.meta_array.0, &layout.stride);
        }
        assert(self.meta() =~= meta_before + layout_meta(*layout, is_contiguous));
        assert(self.const_array.0@ =~= consts_before + layout_constants(
            *layout,
            is_contiguous,
            constant_dims,
            constant_is_startoffset_zero,
            constant_is_contiguous,
        ));
    }

    /// Describes the layout of the first tensor of the dispatch under construction.
    pub fn add_layout1(&mut self, layout: &Layout)
        requires
            layout.wf(),
        ensures
            final(self).meta() == old(self).meta() + layout_meta(
                *layout,
                layout.spec_is_contiguous(),
            ),
            final(self).const_array.0@ == old(self).const_array.0@ + layout_constants(
                *layout,
                layout.spec_is_contiguous(),
                Constants::ConstDims1,
                Constants::ConstIsStartoffsetZero1,
                Constants::ConstIsContiguous1,
            ),
            final(self).command_queue == old(self).command_queue,
            final(self).const_id_map == old(self).const_id_map,
            final(self).current_meta == old(self).current_meta,
            old(self).wf() ==> final(self).wf(),
    {
        self.add_layout(
            layout,
            layout.is_contiguous(),
            Constants::ConstDims1,
            Constants::ConstIsStartoffsetZero1,
            Constants::ConstIsContiguous1,
        );
    }

    /// Describes the layout of the second tensor of the dispatch under construction.
    pub fn add_layout2(&mut self, layout: &Layout)
        requires
            layout.wf(),
        ensures
            final(self).meta() == old(self).meta() + layout_meta(
                *layout,
                layout.spec_is_contiguous(),
            ),
            final(self).const_array.0@ == old(self).const_array.0@ + layout_constants(
                *layout,
                layout.spec_is_contiguous(),
                Constants::ConstDims2,
                Constants::ConstIsStartoffsetZero2,
                Constants::ConstIsContiguous2,
            ),
            final(self).command_queue == old(self).command_queue,
            final(self).const_id_map == old(self).const_id_map,
            final(self).current_meta == old(self).current_meta,
            old(self).wf() ==> final(self).wf(),
    {
        self.add_layout(
            layout,
            layout.is_contiguous(),
            Constants::ConstDims2,
            Constants::ConstIsStartoffsetZero2,
            Constants::ConstIsContiguous2,
        );
    }

    /// Describes the layout of the third tensor of the dispatch under construction.
    pub fn add_layout3(&mut self, layout: &Layout)
        requires
            layout.wf(),
        ensures
            final(self).meta() == old(self).meta() + layout_meta(
                *layout,
                layout.spec_is_contiguous(),
            ),
            final(self).const_array.0@ == old(self).const_array.0@ + layout_constants(
                *layout,
                layout.spec_is_contiguous(),
                Constants::ConstDims3,
                Constants::ConstIsStartoffsetZero3,
                Constants::ConstIsContiguous3,
            ),
            final(self).command_queue == old(self).command_queue,
            final(self).const_id_map == old(self).const_id_map,
            final(self).current_meta == old(self).current_meta,
            old(self).wf() ==> final(self).wf(),
    {
        self.add_layout(
            layout,
            layout.is_contiguous(),
            Constants::ConstDims3,
            Constants::ConstIsStartoffsetZero3,
            Constants::ConstIsContiguous3,
        );
    }

    /// Describes the layout of the first tensor by its dimensions and strides, whether or
    /// not it is contiguous.
    pub fn add_layout1_non_contiguous(&mut self, layout: &Layout)
        requires
            layout.wf(),
        ensures
            final(self).meta() == old(self).meta() + layout_meta(*layout, false),
            final(self).const_array.0@ == old(self).const_array.0@ + layout_constants(
                *layout,
                false,
                Constants::ConstDims1,
                Constants::ConstIsStartoffsetZero1,
                Constants::ConstIsContiguous1,
            ),
            final(self).command_queue == old(self).command_queue,
            final(self).const_id_map == old(self).const_id_map,
            final(self).current_meta == old(self).current_meta,
            old(self).wf() ==> final(self).wf(),
    {
        self.add_layout(
            layout,
            false,
            Constants::ConstDims1,
            Constants::ConstIsStartoffsetZero1,
            Constants::ConstIsContiguous1,
        );
    }

    /// Describes the layout of the second tensor by its dimensions and strides, whether
    /// or not it is contiguous.
    pub fn add_layout2_non_contiguous(&mut self, layout: &Layout)
        requires
            layout.wf(),
        ensures
            final(self).meta() == old(self).meta() + layout_meta(*layout, false),
            final(self).const_array.0@ == old(self).const_array.0@ + layout_constants(
                *layout,
                false,
                Constants::ConstDims2,
                Constants::ConstIsStartoffsetZero2,
                Constants::ConstIsContiguous2,
            ),
            final(self).command_queue == old(self).command_queue,
            final(self).const_id_map == old(self).const_id_map,
            final(self).current_meta == old(self).current_meta,
            old(self).wf() ==> final(self).wf(),
    {
        self.add_layout(
            layout,
            false,
            Constants::ConstDims2,
            Constants::ConstIsStartoffsetZero2,
            Constants::ConstIsContiguous2,
        );
    }

    /// Describes the layout of the third tensor by its dimensions and strides, whether or
    /// not it is contiguous.
    pub fn add_layout3_non_contiguous(&mut self, layout: &Layout)
        requires
            layout.wf(),
        ensures
            final(self).meta() == old(self).meta() + layout_meta(*layout, false),
            final(self).const_array.0@ == old(self).const_array.0@ + layout_constants(
                *layout,
                false,
                Constants::ConstDims3,
                Constants::ConstIsStartoffsetZero3,
                Constants::ConstIsContiguous3,
            ),
            final(self).command_queue == old(self).command_queue,
            final(self).const_id_map == old(self).const_id_map,
            final(self).current_meta == old(self).current_meta,
            old(self).wf() ==> final(self).wf(),
    {
        self.add_layout(
            layout,
            false,
            Constants::ConstDims3,
            Constants::ConstIsStartoffsetZero3,
            Constants::ConstIsContiguous3,
        );
    }

    /// Closes the constant set of the dispatch under construction and gives the identity
    /// of its pipeline. The set gets the number of an equal set already in the table, or
    /// is added to the table under a new number; the set under construction is emptied.
    pub fn get_pipeline_inplaceable(&mut self, pipeline: Pipelines,
        inplaceable: OpIsInplaceable) -> (r:
        PipelineType)
        ensures
            r == PipelineType(
                pipeline,
                position_of(old(self).const_id_map.sets(), old(self).const_array.0@) as usize,
                inplaceable,
            ),
            r.1 < final(self).const_id_map.sets().len(),
            final(self).const_id_map.sets()[r.1 as int] == old(self).const_array.0@,
            r.1 < old(self).const_id_map.sets().len() ==> final(self).const_id_map.sets() ==
                old(self).const_id_map.sets(),
            r.1 == old(self).const_id_map.sets().len() ==> final(self).const_id_map.sets() ==
                old(self).const_id_map.sets().push(old(self).const_array.0@),
            final(self).const_array.0@ == Seq::<(Constants, u32)>::empty(),
            final(self).command_queue == old(self).command_queue,
            final(self).meta_array == old(self).meta_array,
            final(self).current_meta == old(self).current_meta,
            old(self).wf() ==> final(self).wf(),
    {
        proof {
            lemma_position_of(self.const_id_map.sets(), self.const_array.0@);
        }
        let (index, _is_new) = self.const_id_map.get_or_insert(&self.const_array);
        self.init();
        PipelineType(pipeline, index, inplaceable)
    }

    /// As [`QueueBuffer::get_pipeline_inplaceable`], for a pipeline that overwrites no input.
    pub fn get_pipeline(&mut self, pipeline: Pipelines) -> (r: PipelineType)
        ensures
            r == PipelineType(
                pipeline,
                position_of(old(self).const_id_map.sets(), old(self).const_array.0@) as usize,
                OpIsInplaceable { input1_inplaceable: false, input2_inplaceable: false },
            ),
            r.1 < final(self).const_id_map.sets().len(),
            final(self).const_id_map.sets()[r.1 as int] == old(self).const_array.0@,
            r.1 < old(self).const_id_map.sets().len() ==> final(self).const_id_map.sets() ==
                old(self).const_id_map.sets(),
            r.1 == old(self).const_id_map.sets().len() ==> final(self).const_id_map.sets() ==
                old(self).const_id_map.sets().push(old(self).const_array.0@),
            final(self).const_array.0@ == Seq::<(Constants, u32)>::empty(),
            final(self).command_queue == old(self).command_queue,
            final(self).meta_array == old(self).meta_array,
            final(self).current_meta == old(self).current_meta,
            old(self).wf() ==> final(self).wf(),
    {
        self.get_pipeline_inplaceable(pipeline, OpIsInplaceable::new())
    }

    /// Appends the given values as the general-purpose constants `Constv0` onwards, then
    /// closes the constant set as [`QueueBuffer::get_pipeline_inplaceable`] does.
    pub fn get_pipeline_const_inplace(
        &mut self,
        pipeline: Pipelines,
        const_vec: Vec<u32>,
        inplaceable: OpIsInplaceable,
    ) -> (r: PipelineType)
        requires
            const_vec@.len() <= GENERAL_CONSTANTS,
        ensures
            r == PipelineType(
                pipeline,
                position_of(
                    old(self).const_id_map.sets(),
                    old(self).const_array.0@ + general_constants(const_vec@),
                ) as usize,
                inplaceable,
            ),
            r.1 < final(self).const_id_map.sets().len(),
            final(self).const_id_map.sets()[r.1 as int] == old(self).const_array.0@
                + general_constants(const_vec@),
            r.1 < old(self).const_id_map.sets().len() ==> final(self).const_id_map.sets() ==
                old(self).const_id_map.sets(),
            r.1 == old(self).const_id_map.sets().len() ==> final(self).const_id_map.sets() ==
                old(self).const_id_map.sets().push(
                    old(self).const_array.0@ + general_constants(const_vec@),
                ),
            final(self).const_array.0@ == Seq::<(Constants, u32)>::empty(),
            final(self).command_queue == old(self).command_queue,
            final(self).meta_array == old(self).meta_array,
            final(self).current_meta == old(self).current_meta,
            old(self).wf() ==> final(self).wf(),
    {
        let ghost before = self.const_array.0@;
        let mut index: usize = 0;
        while index < const_vec.len()
            invariant
                index <= const_vec@.len() <= GENERAL_CONSTANTS,
                self.const_array.0@ == before + general_constants(const_vec@).subrange(
                    0,
                    index as int,
                ),
                self.command_queue == old(self).command_queue,
                self.meta_array == old(self).meta_array,
                self.const_id_map == old(self).const_id_map,
                self.current_meta == old(self).current_meta,
            decreases const_vec@.len() - index,
        {
            self.const_array.0.push((Constants::get_const(index), const_vec[index]));
            assert(self.const_array.0@ =~= before + general_constants(const_vec@).subrange(
                0,
                index + 1,
            ));
            index = index + 1;
        }
        assert(self.const_array.0@ =~= before + general_constants(const_vec@));
        self.get_pipeline_inplaceable(pipeline, inplaceable)
    }

    /// As [`QueueBuffer::get_pipeline_const_inplace`], for a pipeline that overwrites no
    /// input.
    pub fn get_pipeline_const(&mut self, pipeline: Pipelines, const_vec: Vec<u32>) -> (r:
        PipelineType)
        requires
            const_vec@.len() <= GENERAL_CONSTANTS,
        ensures
            r == PipelineType(
                pipeline,
                position_of(
                    old(self).const_id_map.sets(),
                    old(self).const_array.0@ + general_constants(const_vec@),
                ) as usize,
                OpIsInplaceable { input1_inplaceable: false, input2_inplaceable: false },
            ),
            r.1 < final(self).const_id_map.sets().len(),
            final(self).const_id_map.sets()[r.1 as int] == old(self).const_array.0@
                + general_constants(const_vec@),
            r.1 < old(self).const_id_map.sets().len() ==> final(self).const_id_map.sets() ==
                old(self).const_id_map.sets(),
            r.1 == old(self).const_id_map.sets().len() ==> final(self).const_id_map.sets() ==
                old(self).const_id_map.sets().push(
                    old(self).const_array.0@ + general_constants(const_vec@),
                ),
            final(self).const_array.0@ == Seq::<(Constants, u32)>::empty(),
            final(self).command_queue == old(self).command_queue,
            final(self).meta_array == old(self).meta_array,
            final(self).current_meta == old(self).current_meta,
            old(self).wf() ==> final(self).wf(),
    {
        self.get_pipeline_const_inplace(pipeline, const_vec, OpIsInplaceable::new())
    }

    /// Begins the parameters of a new dispatch: pads the blob with zero words up to the
    /// next multiple of `alignment_words` and lets the parameters begin there.
    pub fn align_meta(&mut self, alignment_words: u32)
        requires
            old(self).wf(),
            alignment_words != 0,
            old(self).meta().len() + alignment_words <= i32::MAX,
        ensures
            final(self).wf(),
            final(self).current_meta == next_divisible_spec(
                old(self).meta().len() as int,
                alignment_words as int,
            ),
            final(self).current_meta as int % (alignment_words as int) == 0,
            old(self).current_meta <= old(self).meta().len() <=
                final(self).current_meta < old(self).meta().len() + alignment_words,
            final(self).meta() == old(self).meta() + Seq::new(
                (final(self).current_meta - old(self).meta().len()) as nat,
                |i: int| 0u32,
            ),
            final(self).command_queue == old(self).command_queue,
            final(self).const_array == old(self).const_array,
            final(self).const_id_map == old(self).const_id_map,
            old(self).aligned(alignment_words as int) ==> final(self).aligned(
                alignment_words as int,
            ),
    {
        let ghost before = self.meta();
        let meta_array_length: i32 = self.meta_array.0.len() as i32;
        let meta_offset: i32 = next_divisible_by_n(meta_array_length, alignment_words as i32);
        self.current_meta = meta_offset as u32;
        let mut filled: i32 = meta_array_length;
        while filled < meta_offset
            invariant
                meta_array_length <= filled <= meta_offset,
                meta_array_length == before.len(),
                self.meta().len() == filled,
                forall|j: int| 0 <= j < before.len() ==> self.meta()[j] == before[j],
                forall|j: int| before.len() <= j < filled ==> self.meta()[j] == 0u32,
                self.command_queue == old(self).command_queue,
                self.const_array == old(self).const_array,
                self.const_id_map == old(self).const_id_map,
                self.current_meta == meta_offset,
            decreases meta_offset - filled,
        {
            self.meta_array.0.push(0);
            filled = filled + 1;
        }
        assert(self.meta() =~= before + Seq::new(
            (self.current_meta - before.len()) as nat,
            |i: int| 0u32,
        ));
    }
}

/// What every queued dispatch satisfies: it is unresolved, its constant set is one of the
/// `sets` known ones, and no workgroup count exceeds the dispatch limit.
pub open spec fn record_is_queued(record: MlQueueDispatch, sets: int) -> bool {
    &&& record.bindgroup is BindgroupReference
    &&& record.pipeline_cached is None
    &&& record.pipeline.1 < sets
    &&& record.x <= MAX_DISPATCH_SIZE
    &&& record.y <= MAX_DISPATCH_SIZE
    &&& record.z <= MAX_DISPATCH_SIZE
}

/// Queues a dispatch with the given workgroup counts. Its parameters are those written
/// to the blob since the blob was last aligned.
pub fn enqueue_workgroups(
    command_queue: &mut QueueBuffer,
    pipeline: PipelineType,
    bind_group: BindGroupReference,
    x: u32,
    y: u32,
    z: u32,
    workload_size: usize,
)
    requires
        old(command_queue).wf(),
        x <= MAX_DISPATCH_SIZE,
        y <= MAX_DISPATCH_SIZE,
        z <= MAX_DISPATCH_SIZE,
        pipeline.1 < old(command_queue).const_id_map.sets().len(),
    ensures
        final(command_queue).wf(),
        final(command_queue).records() == old(command_queue).records().push(
            MlQueueDispatch {
                x,
                y,
                z,
                pipeline,
                bindgroup: DispatchedBindgroup::BindgroupReference(bind_group),
                pipeline_cached: None,
                meta: old(command_queue).current_meta,
                workload_size,
            },
        ),
        final(command_queue).meta_array == old(command_queue).meta_array,
        final(command_queue).const_array == old(command_queue).const_array,
        final(command_queue).const_id_map == old(command_queue).const_id_map,
        final(command_queue).current_meta == old(command_queue).current_meta,
        forall|n: int|
            old(command_queue).aligned(n) ==> #[trigger] final(command_queue).aligned(n),
{
    let q = MlQueueDispatch {
        x,
        y,
        z,
        pipeline,
        bindgroup: DispatchedBindgroup::BindgroupReference(bind_group),
        pipeline_cached: None,
        meta: command_queue.current_meta,
        workload_size,
    };
    command_queue.command_queue.push(q);
}

/// The number of workgroups that `length` invocations need.
pub open spec fn workgroups_for(length: int) -> int {
    (length + WORKGROUP_SIZE - 1) / (WORKGROUP_SIZE as int)
}

/// Queues a dispatch of `length` invocations, laid out along the first dimension.
pub fn enqueue(
    command_queue: &mut QueueBuffer,
    pipeline: PipelineType,
    bind_group: BindGroupReference,
    length: u32,
    workload_size: usize,
)
    requires
        old(command_queue).wf(),
        length + WORKGROUP_SIZE <= u32::MAX,
        workgroups_for(length as int) <= MAX_DISPATCH_SIZE,
        pipeline.1 < old(command_queue).const_id_map.sets().len(),
    ensures
        final(command_queue).wf(),
        final(command_queue).records() == old(command_queue).records().push(
            MlQueueDispatch {
                x: workgroups_for(length as int) as u32,
                y: 1,
                z: 1,
                pipeline,
                bindgroup: DispatchedBindgroup::BindgroupReference(bind_group),
                pipeline_cached: None,
                meta: old(command_queue).current_meta,
                workload_size,
            },
        ),
        final(command_queue).meta_array == old(command_queue).meta_array,
        final(command_queue).const_array == old(command_queue).const_array,
        final(command_queue).const_id_map == old(command_queue).const_id_map,
        final(command_queue).current_meta == old(command_queue).current_meta,
        forall|n: int|
            old(command_queue).aligned(n) ==> #[trigger] final(command_queue).aligned(n),
{
    enqueue_workgroups(
        command_queue,
        pipeline,
        bind_group,
        (length + WORKGROUP_SIZE - 1) / WORKGROUP_SIZE,
        1,
        1,
        workload_size,
    )
}

/// Queues a dispatch of `length` invocations that may need more workgroups than one
/// dimension holds: the first dimension is filled up to the dispatch limit, and the second
/// counts how often. The declared work is `length`.
pub fn enqueue_big(
    command_queue: &mut QueueBuffer,
    pipeline: PipelineType,
    bind_group: BindGroupReference,
    length: u32,
)
    requires
        old(command_queue).wf(),
        length + WORKGROUP_SIZE <= u32::MAX,
        pipeline.1 < old(command_queue).const_id_map.sets().len(),
    ensures
        final(command_queue).wf(),
        final(command_queue).records() == old(command_queue).records().push(
            MlQueueDispatch {
                x: if workgroups_for(length as int) < 65535 {
                    workgroups_for(length as int) as u32
                } else {
                    65535u32
                },
                y: ((workgroups_for(length as int) + 65534) / 65535) as u32,
                z: 1,
                pipeline,
                bindgroup: DispatchedBindgroup::BindgroupReference(bind_group),
                pipeline_cached: None,
                meta: old(command_queue).current_meta,
                workload_size: length as usize,
            },
        ),
        final(command_queue).meta_array == old(command_queue).meta_array,
        final(command_queue).const_array == old(command_queue).const_array,
        final(command_queue).const_id_map == old(command_queue).const_id_map,
        final(command_queue).current_meta == old(command_queue).current_meta,
        forall|n: int|
            old(command_queue).aligned(n) ==> #[trigger] final(command_queue).aligned(n),
{
    let id: u32 = (length + WORKGROUP_SIZE - 1) / WORKGROUP_SIZE;
    let x: u32 = if id < 65535 {
        id
    } else {
        65535
    };
    let y: u32 = (id + 65534) / 65535;
    enqueue_workgroups(command_queue, pipeline, bind_group, x, y, 1, length as usize)
}

} // verus!
