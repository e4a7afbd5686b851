//! Ranges of masked words.
use vstd::prelude::*;

verus! {

/// A word that has been masked to its low bits is small, and is the remainder by the next power of
/// two.
pub proof fn low_bits(x: u32)
    by (bit_vector)
    ensures
        x & 1 == x % 2,
        x & 3 == x % 4,
        x & 7 == x % 8,
        x & 0xf == x % 0x10,
        x & 0x1f == x % 0x20,
        x & 0xff == x % 0x100,
        x & 0x3ff == x % 0x400,
        x & 0xfff == x % 0x1000,
        x & 0x3fff == x % 0x4000,
        x & 0xffff == x % 0x1_0000,
        x & 0xfffff == x % 0x10_0000,
{
}

/// A shift to the right divides by a power of two.
pub proof fn high_bits(x: u32)
    by (bit_vector)
    ensures
        x >> 3 == x / 8,
        x >> 4 == x / 0x10,
        x >> 6 == x / 0x40,
        x >> 8 == x / 0x100,
        x >> 12 == x / 0x1000,
        x >> 14 == x / 0x4000,
        x >> 16 == x / 0x1_0000,
        x >> 17 == x / 0x2_0000,
        x >> 19 == x / 0x8_0000,
        x >> 20 == x / 0x10_0000,
        x >> 22 == x / 0x40_0000,
        x >> 24 == x / 0x100_0000,
        x >> 25 == x / 0x200_0000,
        x >> 28 == x / 0x1000_0000,
{
}

} // verus!
