//! Infallible conversions to and from `usize`.
//!
//! PostgreSQL reports many lengths as 32-bit integers, so the library
//! assumes a target whose `usize` is at least 32 bits wide.

use vstd::prelude::*;

verus! {

/// Widen a `u32` length to `usize` without loss.
pub fn u32_to_usize(value: u32) -> (r: usize)
    ensures
        r == value as int,
{
    value as usize
}

} // verus!
