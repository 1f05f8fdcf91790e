//! 64-bit numbers, and the unsigned reading of a signed one.

use vstd::prelude::*;

verus! {

/// Whether a 64-bit signed number can hold `x`.
pub open spec fn is_i64(x: int) -> bool {
    i64::MIN <= x <= i64::MAX
}

/// The 64-bit unsigned number that has the same bits as `x`: `x` itself, or, where `x` is
/// negative, two to the power of 64 more.
pub open spec fn unsigned(x: int) -> nat
    recommends
        is_i64(x),
{
    if x >= 0 {
        x as nat
    } else {
        (x + 0x1_0000_0000_0000_0000) as nat
    }
}

/// Reads the bits of a signed number as an unsigned one.
pub fn to_unsigned(x: i64) -> (res: u64)
    ensures
        res == unsigned(x as int),
{
    assert(x >= 0 ==> x as u64 == x) by (bit_vector);
    assert(x < 0 ==> x as u64 == x + 0x1_0000_0000_0000_0000) by (bit_vector);
    x as u64
}

/// The unsigned reading of a signed number is the only number from 0 up to what 64 bits hold that
/// differs from it by a multiple of two to the power of 64.
pub proof fn law_unsigned(x: int, u: int)
    requires
        i64::MIN <= x <= i64::MAX,
        0 <= u <= u64::MAX,
    ensures
        unsigned(x) == u <==> (u - x) % 0x1_0000_0000_0000_0000 == 0,
        unsigned(x) <= u64::MAX,
        x >= 0 ==> unsigned(x) == x,
{
}

} // verus!
