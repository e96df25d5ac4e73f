//! A counter of bytes that cannot overflow: sums of many 64-bit sizes.
use vstd::prelude::*;

verus! {

/// Two to the power of 128.
pub open spec fn two_pow_128() -> int {
    0x1_0000_0000_0000_0000_0000_0000_0000_0000int
}

/// A count in the range of a `u64`: negative counts become zero, counts beyond the range
/// become the largest `u64`.
pub open spec fn clamp_to_u64(value: int) -> u64 {
    if value <= 0 {
        0
    } else if value >= u64::MAX {
        u64::MAX
    } else {
        value as u64
    }
}

/// A natural number in two parts: `carry` counts the multiples of two to the power of 128.
#[derive(Clone, Copy, Debug)]
pub struct WideCount {
    pub carry: usize,
    pub low: u128,
}

impl WideCount {
    /// The number that the two parts stand for.
    pub open spec fn value(&self) -> int {
        self.carry as int * two_pow_128() + self.low as int
    }

    /// The count with the given value.
    pub fn new(low: u128) -> (r: WideCount)
        ensures
            r.value() == low,
            r.carry == 0,
    {
        WideCount { carry: 0, low }
    }

    /// Adds `x` to the count.
    pub fn add(&mut self, x: u128)
        requires
            old(self).carry < usize::MAX,
        ensures
            final(self).value() == old(self).value() + x,
            old(self).carry <= final(self).carry <= old(self).carry + 1,
    {
        let room: u128 = u128::MAX - self.low;
        if x <= room {
            self.low = self.low + x;
        } else {
            self.low = x - room - 1;
            self.carry = self.carry + 1;
        }
    }

    /// By how much the count exceeds `other`, in the range of a `u64`.
    pub fn clamped_excess(&self, other: &WideCount) -> (r: u64)
        ensures
            r == clamp_to_u64(self.value() - other.value()),
    {
        if self.carry > other.carry {
            if self.carry - other.carry >= 2 {
                assert(self.value() - other.value() >= two_pow_128()) by (nonlinear_arith)
                    requires
                        self.carry - other.carry >= 2,
                        self.value() == self.carry * two_pow_128() + self.low,
                        other.value() == other.carry * two_pow_128() + other.low,
                        other.low < two_pow_128(),
                        0 <= self.low,
                ;
                u64::MAX
            } else {
                assert(self.value() - other.value() == two_pow_128() + self.low - other.low)
                    by (nonlinear_arith)
                    requires
                        self.carry - other.carry == 1,
                        self.value() == self.carry * two_pow_128() + self.low,
                        other.value() == other.carry * two_pow_128() + other.low,
                ;
                let gap: u128 = u128::MAX - other.low;
                if gap >= u64::MAX as u128 || self.low >= u64::MAX as u128 {
                    u64::MAX
                } else {
                    let d: u128 = gap + 1 + self.low;
                    if d >= u64::MAX as u128 {
                        u64::MAX
                    } else {
                        d as u64
                    }
                }
            }
        } else if self.carry == other.carry {
            if self.low > other.low {
                let d: u128 = self.low - other.low;
                if d >= u64::MAX as u128 {
                    u64::MAX
                } else {
                    d as u64
                }
            } else {
                0
            }
        } else {
            assert(self.value() - other.value() <= 0) by (nonlinear_arith)
                requires
                    other.carry - self.carry >= 1,
                    self.value() == self.carry * two_pow_128() + self.low,
                    other.value() == other.carry * two_pow_128() + other.low,
                    self.low < two_pow_128(),
                    0 <= other.low,
            ;
            0
        }
    }
}

} // verus!
