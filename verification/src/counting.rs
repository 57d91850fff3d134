//! Numbers that are handed out one after the other and start over at the end.

use vstd::prelude::*;

verus! {

/// The number behind another in 32 bits, zero behind the last.
pub open spec fn counted(n: u32) -> u32 {
    if n == u32::MAX {
        0
    } else {
        (n + 1) as u32
    }
}

/// The number behind another in 64 bits, zero behind the last.
pub open spec fn successor(n: u64) -> u64 {
    if n == u64::MAX {
        0
    } else {
        (n + 1) as u64
    }
}

/// Counting goes up by one, starts over at zero behind the last number, and never
/// gives two numbers the same successor.
pub proof fn counting_goes_up_by_one(n: u32, m: u32, a: u64, b: u64)
    ensures
        n < u32::MAX ==> counted(n) == n + 1,
        counted(u32::MAX) == 0,
        counted(n) == counted(m) ==> n == m,
        a < u64::MAX ==> successor(a) == a + 1,
        successor(u64::MAX) == 0,
        successor(a) == successor(b) ==> a == b,
{
}

} // verus!
