//! Eight-bit arithmetic with wraparound, as the synthesis tables were tuned for.

use vstd::prelude::*;

verus! {

/// Sum of two bytes, wrapped to a byte.
pub open spec fn wrap_add(a: u8, b: u8) -> u8 {
    ((a as int + b as int) % 256) as u8
}

/// Difference of two bytes, wrapped to a byte.
pub open spec fn wrap_sub(a: u8, b: u8) -> u8 {
    ((a as int - b as int + 256) % 256) as u8
}

/// The value of a byte read as a signed quantity.
pub open spec fn signed(b: u8) -> int {
    if b < 128 {
        b as int
    } else {
        b as int - 256
    }
}

/// The magnitude of a byte read as a signed quantity.
pub open spec fn magnitude(b: u8) -> int {
    if b < 128 {
        b as int
    } else {
        256 - b as int
    }
}

pub fn add8(a: u8, b: u8) -> (r: u8)
    ensures
        r == wrap_add(a, b),
{
    ((a as u16 + b as u16) % 256) as u8
}

pub fn sub8(a: u8, b: u8) -> (r: u8)
    ensures
        r == wrap_sub(a, b),
{
    ((a as u16 + 256 - b as u16) % 256) as u8
}

} // verus!
