//! Integer helpers of the clip system.
use vstd::prelude::*;

verus! {

/// `v` is a power of two.
pub open spec fn is_pow2(v: u32) -> bool {
    v != 0 && v & ((v - 1) as u32) == 0
}

/// The smallest power of two that is at least `value`.
pub fn next_power_of_two(value: u32) -> (r: u32)
    requires
        1 <= value <= 0x8000_0000,
    ensures
        is_pow2(r),
        r >= value,
        r / 2 < value,
{
    let mut v = value - 1;
    v = v | (v >> 1);
    v = v | (v >> 2);
    v = v | (v >> 4);
    v = v | (v >> 8);
    v = v | (v >> 16);
    proof {
        lemma_smear(value);
    }
    v = v + 1;
    v
}

/// Or-ing `value - 1` with its right shifts by 1, 2, 4, 8 and 16 sets every bit below its
/// highest one; one more is then the power of two just at or above `value`.
proof fn lemma_smear(value: u32)
    by (bit_vector)
    requires
        1 <= value <= 0x8000_0000u32,
    ensures
        ({
            let v0 = (value - 1) as u32;
            let v1 = v0 | (v0 >> 1u32);
            let v2 = v1 | (v1 >> 2u32);
            let v3 = v2 | (v2 >> 4u32);
            let v4 = v3 | (v3 >> 8u32);
            let v5 = v4 | (v4 >> 16u32);
            let r = (v5 + 1) as u32;
            &&& v5 < 0xffff_ffffu32
            &&& r != 0
            &&& r & ((r - 1) as u32) == 0
            &&& r >= value
            &&& r / 2 < value
        }),
{
}

} // verus!
