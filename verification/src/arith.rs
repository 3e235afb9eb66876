//! Arithmetic that stops at the largest value.

use vstd::prelude::*;

verus! {

/// A number, capped at the largest machine word.
pub open spec fn capped(n: int) -> int {
    if n > usize::MAX {
        usize::MAX as int
    } else {
        n
    }
}

/// A product, capped at the largest machine word.
pub fn saturating_product(a: usize, b: usize) -> (result: usize)
    ensures
        result == capped(a * b),
{
    match a.checked_mul(b) {
        Some(product) => product,
        None => usize::MAX,
    }
}

/// A number, capped at the largest 64-bit value.
pub open spec fn capped_u64(n: int) -> int {
    if n > u64::MAX {
        u64::MAX as int
    } else {
        n
    }
}

/// A product, capped at the largest 64-bit value.
pub fn saturating_product_u64(a: u64, b: u64) -> (result: u64)
    ensures
        result == capped_u64(a * b),
{
    match a.checked_mul(b) {
        Some(product) => product,
        None => u64::MAX,
    }
}

/// A sum, capped at the largest 64-bit value.
pub fn saturating_sum_u64(a: u64, b: u64) -> (result: u64)
    ensures
        result == capped_u64(a + b),
{
    match a.checked_add(b) {
        Some(total) => total,
        None => u64::MAX,
    }
}

} // verus!
