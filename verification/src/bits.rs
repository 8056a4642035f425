//! Signed numbers taken as the bits they are made of.

use vstd::prelude::*;

verus! {

/// The unsigned number with the same bits as `n`.
pub open spec fn unsigned_bits(n: isize) -> nat {
    if n >= 0 {
        n as nat
    } else {
        (n + usize::MAX + 1) as nat
    }
}

/// The unsigned number with the same bits as `n`.
pub fn to_unsigned(n: isize) -> (bits: usize)
    ensures
        bits == unsigned_bits(n),
{
    if n >= 0 {
        n as usize
    } else {
        usize::MAX - (-(n + 1)) as usize
    }
}

/// The unsigned number differs from the signed one by nothing, or by as many
/// numbers as there are, and is one of them.
pub proof fn law_unsigned_bits(n: isize)
    ensures
        0 <= unsigned_bits(n) <= usize::MAX,
        unsigned_bits(n) == n || unsigned_bits(n) == n + usize::MAX + 1,
{
}

} // verus!
