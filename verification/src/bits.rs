//! Rotating the bits of 64-bit integers.

use vstd::prelude::*;

verus! {

/// `x` with its 64 bits moved `n` places towards the most significant end,
/// the bits that leave there entering at the least significant end. Only `n`
/// modulo 64 matters.
pub open spec fn rotated_left(x: u64, n: u32) -> u64 {
    let k = n % 64;
    if k == 0 {
        x
    } else {
        (x << k) | (x >> ((64 - k) as u32))
    }
}

/// `x` with its 64 bits moved `n` places towards the least significant end,
/// the bits that leave there entering at the most significant end. Only `n`
/// modulo 64 matters.
pub open spec fn rotated_right(x: u64, n: u32) -> u64 {
    let k = n % 64;
    if k == 0 {
        x
    } else {
        (x >> k) | (x << ((64 - k) as u32))
    }
}

/// [`rotated_left`] on the bit pattern of a signed number.
pub open spec fn rotated_left_signed(x: i64, n: u32) -> i64 {
    rotated_left(x as u64, n) as i64
}

/// [`rotated_right`] on the bit pattern of a signed number.
pub open spec fn rotated_right_signed(x: i64, n: u32) -> i64 {
    rotated_right(x as u64, n) as i64
}

/// Rotates the bits of `x` left by `n` places.
pub fn rotate_left(x: u64, n: u32) -> (rotated: u64)
    ensures
        rotated == rotated_left(x, n),
{
    let k: u32 = n % 64;
    if k == 0 {
        x
    } else {
        (x << k) | (x >> (64 - k))
    }
}

/// Rotates the bits of `x` right by `n` places.
pub fn rotate_right(x: u64, n: u32) -> (rotated: u64)
    ensures
        rotated == rotated_right(x, n),
{
    let k: u32 = n % 64;
    if k == 0 {
        x
    } else {
        (x >> k) | (x << (64 - k))
    }
}

/// Rotates the bit pattern of `x` left by `n` places.
pub fn rotate_left_signed(x: i64, n: u32) -> (rotated: i64)
    ensures
        rotated == rotated_left_signed(x, n),
{
    rotate_left(x as u64, n) as i64
}

/// Rotates the bit pattern of `x` right by `n` places.
pub fn rotate_right_signed(x: i64, n: u32) -> (rotated: i64)
    ensures
        rotated == rotated_right_signed(x, n),
{
    rotate_right(x as u64, n) as i64
}

} // verus!
