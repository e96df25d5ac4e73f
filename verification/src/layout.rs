//! How a tensor lies in its buffer: shape, strides and start offset, all counted in elements.
use vstd::prelude::*;
use crate::dtype::WebGpuError;

verus! {

/// The product of the dimensions from position `from` to the end; one where none is left.
pub open spec fn trailing_count(shape: Seq<usize>, from: int) -> nat
    decreases shape.len() - from,
{
    if from >= shape.len() {
        1
    } else {
        shape[from] as nat * trailing_count(shape, from + 1)
    }
}

/// The low 32 bits of a count: what a 32-bit metadata word keeps of it.
pub open spec fn low_word(value: int) -> u32 {
    (value % 0x1_0000_0000) as u32
}

/// The low 32 bits of a count.
pub fn to_word(value: usize) -> (r: u32)
    ensures
        r == low_word(value as int),
        value <= u32::MAX ==> r == value,
{
    let wide: u64 = value as u64;
    (wide % 0x1_0000_0000) as u32
}

/// The place of a tensor in its buffer.
#[derive(Debug)]
pub struct Layout {
    /// The size of each dimension.
    pub shape: Vec<usize>,
    /// For each dimension, the distance between neighbours along it.
    pub stride: Vec<usize>,
    /// The position of the first element.
    pub start_offset: usize,
}

impl Layout {
    /// A layout has one stride for each dimension, and its element count is a `usize`.
    pub open spec fn wf(&self) -> bool {
        &&& self.shape@.len() == self.stride@.len()
        &&& trailing_count(self.shape@, 0) <= usize::MAX
    }

    /// The number of elements.
    pub open spec fn spec_elem_count(&self) -> nat {
        trailing_count(self.shape@, 0)
    }

    /// Whether the elements lie in row-major order without gaps: every dimension with more
    /// than one element has the stride that the dimensions behind it call for.
    pub open spec fn spec_is_contiguous(&self) -> bool {
        forall|i: int|
            0 <= i < self.shape@.len() && self.shape@[i] > 1 ==> #[trigger] self.stride@[i]
                == trailing_count(self.shape@, i + 1)
    }

    /// A layout from its parts.
    pub fn new(shape: Vec<usize>, stride: Vec<usize>, start_offset: usize) -> (r: Layout)
        requires
            shape@.len() == stride@.len(),
            trailing_count(shape@, 0) <= usize::MAX,
        ensures
            r.wf(),
            r.shape@ == shape@,
            r.stride@ == stride@,
            r.start_offset == start_offset,
    {
        Layout { shape, stride, start_offset }
    }

    /// The row-major layout without gaps of a tensor of the given shape, starting at the
    /// front of its buffer.
    pub fn contiguous(shape: Vec<usize>) -> (r: Layout)
        requires
            forall|i: int| 0 <= i <= shape@.len() ==> trailing_count(shape@, i) <= usize::MAX,
        ensures
            r.wf(),
            r.shape@ == shape@,
            r.start_offset == 0,
            forall|i: int|
                0 <= i < shape@.len() ==> #[trigger] r.stride@[i] == trailing_count(
                    shape@,
                    i + 1,
                ),
            r.spec_is_contiguous(),
    {
        let n: usize = shape.len();
        let mut stride: Vec<usize> = Vec::new();
        let mut k: usize = 0;
        while k < n
            invariant
                k <= n,
                stride@.len() == k,
            decreases n - k,
        {
            stride.push(0);
            k = k + 1;
        }
        let mut i: usize = n;
        let mut acc: usize = 1;
        while i > 0
            invariant
                n == shape@.len(),
                stride@.len() == n,
                i <= n,
                acc == trailing_count(shape@, i as int),
                forall|j: int| 0 <= j <= shape@.len() ==> trailing_count(shape@, j) <= usize::MAX,
                forall|j: int|
                    i <= j < n ==> #[trigger] stride@[j] == trailing_count(shape@, j + 1),
            decreases i,
        {
            i = i - 1;
            stride.set(i, acc);
            assert(trailing_count(shape@, i as int) == shape@[i as int] as nat * trailing_count(
                shape@,
                i + 1,
            ));
            acc = shape[i] * acc;
        }
        Layout { shape, stride, start_offset: 0 }
    }

    /// The size of each dimension.
    pub fn dims(&self) -> (r: &Vec<usize>)
        ensures
            r@ == self.shape@,
    {
        &self.shape
    }

    /// For each dimension, the distance between neighbours along it.
    pub fn stride(&self) -> (r: &Vec<usize>)
        ensures
            r@ == self.stride@,
    {
        &self.stride
    }

    /// The position of the first element.
    pub fn start_offset(&self) -> (r: usize)
        ensures
            r == self.start_offset,
    {
        self.start_offset
    }

    /// The number of elements.
    pub fn elem_count(&self) -> (r: usize)
        requires
            self.wf(),
        ensures
            r == self.spec_elem_count(),
    {
        let n: usize = self.shape.len();
        let mut i: usize = n;
        let mut acc: Option<usize> = Some(1);
        while i > 0
            invariant
                n == self.shape@.len(),
                i <= n,
                acc matches Some(a) ==> a == trailing_count(self.shape@, i as int),
                acc is None ==> trailing_count(self.shape@, i as int) > usize::MAX,
            decreases i,
        {
            i = i - 1;
            let d: usize = self.shape[i];
            assert(trailing_count(self.shape@, i as int) == d as nat * trailing_count(
                self.shape@,
                i + 1,
            ));
            acc = scale_count(acc, d, Ghost(trailing_count(self.shape@, i + 1)));
        }
        match acc {
            Some(a) => a,
            None => 0,
        }
    }

    /// Whether the elements lie in row-major order without gaps.
    pub fn is_contiguous(&self) -> (r: bool)
        requires
            self.shape@.len() == self.stride@.len(),
        ensures
            r == self.spec_is_contiguous(),
    {
        let n: usize = self.shape.len();
        let mut i: usize = n;
        let mut acc: Option<usize> = Some(1);
        while i > 0
            invariant
                n == self.shape@.len(),
                n == self.stride@.len(),
                i <= n,
                acc matches Some(a) ==> a == trailing_count(self.shape@, i as int),
                acc is None ==> trailing_count(self.shape@, i as int) > usize::MAX,
                forall|j: int|
                    i <= j < n && self.shape@[j] > 1 ==> #[trigger] self.stride@[j]
                        == trailing_count(self.shape@, j + 1),
            decreases i,
        {
            i = i - 1;
            let d: usize = self.shape[i];
            let s: usize = self.stride[i];
            let fits: bool = match acc {
                Some(a) => s == a,
                None => false,
            };
            if d > 1 && !fits {
                assert(self.stride@[i as int] != trailing_count(self.shape@, i + 1));
                return false;
            }
            assert(trailing_count(self.shape@, i as int) == d as nat * trailing_count(
                self.shape@,
                i + 1,
            ));
            acc = scale_count(acc, d, Ghost(trailing_count(self.shape@, i + 1)));
        }
        true
    }

    /// The three dimensions of a tensor of rank three; any other rank is rejected.
    pub fn dims3(&self) -> (r: Result<(usize, usize, usize), WebGpuError>)
        ensures
            self.shape@.len() == 3 ==> r == Ok::<(usize, usize, usize), WebGpuError>(
                (self.shape@[0], self.shape@[1], self.shape@[2]),
            ),
            self.shape@.len() != 3 ==> r == Err::<(usize, usize, usize), WebGpuError>(
                WebGpuError::UnexpectedNumberOfDims { expected: 3,
                    got: self.shape@.len() as usize },
            ),
    {
        if self.shape.len() == 3 {
            Ok((self.shape[0], self.shape[1], self.shape[2]))
        } else {
            Err(WebGpuError::UnexpectedNumberOfDims { expected: 3, got: self.shape.len() })
        }
    }

    /// The four dimensions of a tensor of rank four; any other rank is rejected.
    pub fn dims4(&self) -> (r: Result<(usize, usize, usize, usize), WebGpuError>)
        ensures
            self.shape@.len() == 4 ==> r == Ok::<(usize, usize, usize, usize), WebGpuError>(
                (self.shape@[0], self.shape@[1], self.shape@[2], self.shape@[3]),
            ),
            self.shape@.len() != 4 ==> r == Err::<(usize, usize, usize, usize), WebGpuError>(
                WebGpuError::UnexpectedNumberOfDims { expected: 4,
                    got: self.shape@.len() as usize },
            ),
    {
        if self.shape.len() == 4 {
            Ok((self.shape[0], self.shape[1], self.shape[2], self.shape[3]))
        } else {
            Err(WebGpuError::UnexpectedNumberOfDims { expected: 4, got: self.shape.len() })
        }
    }
}

/// One step of a product that may outgrow `usize`: `None` stands for a count too large to
/// hold, and a factor of zero brings any count back to zero.
fn scale_count(acc: Option<usize>, d: usize, Ghost(count): Ghost<nat>) -> (r: Option<usize>)
    requires
        acc matches Some(a) ==> a == count,
        acc is None ==> count > usize::MAX,
    ensures
        r matches Some(a) ==> a == d as nat * count,
        r is None ==> d as nat * count > usize::MAX,
{
    match acc {
        Some(a) => {
            let p: Option<usize> = a.checked_mul(d);
            p
        },
        None => {
            if d == 0 {
                Some(0)
            } else {
                assert(d as nat * count >= count) by (nonlinear_arith)
                    requires
                        d >= 1,
                ;
                None
            }
        },
    }
}

} // verus!
