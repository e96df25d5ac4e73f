//! The description of a binding object: which resource goes to which binding number.
use vstd::prelude::*;
use crate::queue::CachedBindGroupReference;
use crate::queue::CachedBufferId;

verus! {

/// The binding number of the parameter buffer in every binding layout.
pub const META_BINDING: u32 = 1;

/// The bytes of the parameter buffer that one dispatch sees.
pub const META_BINDING_SIZE: u64 = 256;

/// What stands behind a binding number.
#[derive(Clone, Copy, Debug, PartialEq, Eq, Hash, Structural)]
pub enum BindingResource {
    /// A storage buffer of the pool, bound as a whole.
    Storage(CachedBufferId),
    /// A window of the parameter buffer: `size` bytes from `offset` on, to which each
    /// dispatch adds its dynamic offset.
    Meta { offset: u64, size: u64 },
}

/// One entry of a binding object.
#[derive(Clone, Copy, Debug, PartialEq, Eq, Hash, Structural)]
pub struct BindGroupEntry {
    pub binding: u32,
    pub resource: BindingResource,
}

/// The description of a binding object.
#[derive(Debug)]
pub struct BindGroupDescriptor {
    /// The binding layout, named by its number of inputs.
    pub layout: usize,
    /// The entries, by rising binding number.
    pub entries: Vec<BindGroupEntry>,
}

/// The entries of the binding object for the given storage buffers: the destination at
/// binding number zero, the window of the parameter buffer at number one, and the inputs
/// from number two on.
pub open spec fn binding_entries(bindgroup: CachedBindGroupReference) -> Seq<BindGroupEntry> {
    Seq::new(
        bindgroup.buffers().len() + 1,
        |i: int|
            if i == 1 {
                BindGroupEntry {
                    binding: META_BINDING,
                    resource: BindingResource::Meta { offset: 0, size: META_BINDING_SIZE },
                }
            } else if i == 0 {
                BindGroupEntry {
                    binding: 0,
                    resource: BindingResource::Storage(bindgroup.buffers()[0]),
                }
            } else {
                BindGroupEntry {
                    binding: i as u32,
                    resource: BindingResource::Storage(bindgroup.buffers()[i - 1]),
                }
            },
    )
}

/// Describes the binding object for the given storage buffers. The number of inputs
/// chooses the binding layout.
pub fn create_bindgroup(bindgroup: CachedBindGroupReference) -> (r: BindGroupDescriptor)
    ensures
        r.layout == bindgroup.arity(),
        r.entries@ == binding_entries(bindgroup),
{
    let len: usize = bindgroup.len();
    let mut entries: Vec<BindGroupEntry> = Vec::new();
    entries.push(
        BindGroupEntry { binding: 0, resource: BindingResource::Storage(bindgroup.get(0)) },
    );
    entries.push(
        BindGroupEntry {
            binding: META_BINDING,
            resource: BindingResource::Meta { offset: 0, size: META_BINDING_SIZE },
        },
    );
    let mut k: usize = 1;
    while k < len
        invariant
            len == bindgroup.buffers().len(),
            1 <= k <= len <= 4,
            entries@.len() == k + 1,
            forall|i: int| 0 <= i < k + 1 ==> entries@[i] == binding_entries(bindgroup)[i],
        decreases len - k,
    {
        entries.push(
            BindGroupEntry {
                binding: k as u32 + 1,
                resource: BindingResource::Storage(bindgroup.get(k)),
            },
        );
        k = k + 1;
    }
    assert(entries@ =~= binding_entries(bindgroup));
    BindGroupDescriptor { layout: len - 1, entries }
}

} // verus!
