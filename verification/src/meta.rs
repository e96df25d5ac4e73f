//! The parameter blob of the dispatches: a growing array of 32-bit words.
use vstd::prelude::*;
use crate::layout::low_word;
use crate::layout::to_word;
use crate::layout::Layout;

verus! {

/// Each count of a list as a 32-bit word.
pub open spec fn words_of(values: Seq<usize>) -> Seq<u32> {
    Seq::new(values.len(), |i: int| low_word(values[i] as int))
}

/// The words that describe a layout in full: the number of dimensions, the start offset,
/// the element count where the layout is contiguous and zero where it is not, then every
/// dimension and every stride.
pub open spec fn layout_words(layout: Layout) -> Seq<u32> {
    seq![
        low_word(layout.shape@.len() as int),
        low_word(layout.start_offset as int),
        if layout.spec_is_contiguous() {
            low_word(layout.spec_elem_count() as int)
        } else {
            0u32
        },
    ] + words_of(layout.shape@) + words_of(layout.stride@)
}

/// The smallest multiple of `n` that is not below `value`, for a positive `n` and a
/// `value` that is not negative. For other operands it is the value itself where `n`
/// divides it, and else the value plus what its remainder lacks to `n`, the remainder
/// taking the sign of the value.
pub open spec fn next_divisible_spec(value: int, n: int) -> int {
    let r = truncated_rem(value, n);
    if r == 0 {
        value
    } else {
        value + (n - r)
    }
}

/// The remainder of the division that rounds towards zero.
pub open spec fn truncated_rem(value: int, n: int) -> int {
    let m = if n < 0 {
        -n
    } else {
        n
    };
    if value >= 0 {
        value % m
    } else {
        -((-value) % m)
    }
}

/// Rounds `value` up to a multiple of `n`.
pub fn next_divisible_by_n(value: i32, n: i32) -> (r: i32)
    requires
        n != 0,
        i32::MIN <= next_divisible_spec(value as int, n as int) <= i32::MAX,
    ensures
        r == next_divisible_spec(value as int, n as int),
        value >= 0 && n > 0 ==> (r as int) % (n as int) == 0 && value <= r < value + n,
{
    let wide_value: i64 = value as i64;
    let wide_n: i64 = n as i64;
    let m: i64 = if wide_n < 0 {
        -wide_n
    } else {
        wide_n
    };
    let rem: i64 = if wide_value >= 0 {
        wide_value % m
    } else {
        -((-wide_value) % m)
    };
    if rem == 0 {
        value
    } else {
        let next: i64 = wide_value + (wide_n - rem);
        proof {
            if value >= 0 && n > 0 {
                let v: int = value as int;
                let d: int = n as int;
                assert((v + (d - v % d)) % d == 0 && 0 <= v % d < d) by (nonlinear_arith)
                    requires
                        d > 0,
                        v >= 0,
                ;
            }
        }
        next as i32
    }
}

/// The smallest multiple of `n` that is not below `num`.
pub open spec fn round_up_spec(num: int, n: int) -> int {
    (num + n - 1) / n * n
}

/// Rounds `num` up to a multiple of `n`.
pub fn round_to_next_divisible(num: u32, n: u32) -> (r: u32)
    requires
        n != 0,
        num + n <= u32::MAX,
    ensures
        r == round_up_spec(num as int, n as int),
        r % n == 0,
        num <= r < num + n,
        r == 0 <==> num == 0,
{
    let q: u32 = (num + n - 1) / n;
    proof {
        if num == 0 {
            assert((n - 1) / (n as int) == 0 && 0 * n == 0) by (nonlinear_arith)
                requires
                    n > 0,
            ;
            assert(q == 0);
        }
        let t: int = num + n - 1;
        assert(t == (t / (n as int)) * n + t % (n as int) && 0 <= t % (n as int) < n
            && (t / (n as int)) * n >= 0 && ((t / (n as int)) * n) % (n as int) == 0)
            by (nonlinear_arith)
            requires
                n > 0,
                t >= 0,
        ;
    }
    q * n
}

/// The parameter blob under construction.
#[derive(Debug)]
pub struct MetaArray(pub Vec<u32>);

impl MetaArray {
    /// An empty blob with room set aside for `capacity` words.
    pub fn new(capacity: u32) -> (r: MetaArray)
        ensures
            r.0@ == Seq::<u32>::empty(),
    {
        MetaArray(Vec::with_capacity(capacity as usize))
    }

    /// Appends the full description of a layout.
    pub fn add_layout(&mut self, layout: &Layout)
        requires
            layout.wf(),
        ensures
            final(self).0@ == old(self).0@ + layout_words(*layout),
    {
        let ghost before = self.0@;
        self.0.push(to_word(layout.shape.len()));
        self.0.push(to_word(layout.start_offset));
        if layout.is_contiguous() {
            self.0.push(to_word(layout.elem_count()));
        } else {
            self.0.push(0);
        }
        extend_words(&mut self.0, &layout.shape);
        extend_words(&mut self.0, &layout.stride);
        assert(self.0@ =~= before + layout_words(*layout));
    }

    /// Appends one word.
    pub fn add(&mut self, value: u32)
        ensures
            final(self).0@ == old(self).0@.push(value),
    {
        self.0.push(value);
    }
}

/// Appends each count of `values` to `words`, as a 32-bit word.
pub fn extend_words(words: &mut Vec<u32>, values: &Vec<usize>)
    ensures
        final(words)@ == old(words)@ + words_of(values@),
{
    let ghost before = words@;
    let mut i: usize = 0;
    while i < values.len()
        invariant
            i <= values@.len(),
            words@.len() == before.len() + i,
            forall|j: int| 0 <= j < before.len() ==> words@[j] == before[j],
            forall|j: int| 0 <= j < i ==> words@[before.len() + j] == low_word(values@[j] as int),
        decreases values@.len() - i,
    {
        words.push(to_word(values[i]));
        i = i + 1;
    }
    assert(words@ =~= before + words_of(values@));
}

} // verus!
