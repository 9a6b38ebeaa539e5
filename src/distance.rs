use vstd::prelude::*;

verus! {

/// The sign bit of an IEEE-754 double.
pub const SIGN_BIT: u64 = 0x8000_0000_0000_0000;

/// Key of a double given by its bit pattern: negative values (sign bit set)
/// are mirrored below the sign bit, the others are lifted above it. For any two
/// doubles that are not NaN and not both zeros, the keys compare as the values do.
pub open spec fn key_of(bits: u64) -> u64 {
    if bits >= SIGN_BIT {
        (u64::MAX - bits) as u64
    } else {
        (bits + SIGN_BIT) as u64
    }
}

/// The ordered key of the double whose bit pattern is `bits`.
pub fn distance_key(bits: u64) -> (k: u64)
    ensures
        k == key_of(bits),
{
    if bits >= SIGN_BIT {
        u64::MAX - bits
    } else {
        bits + SIGN_BIT
    }
}

} // verus!
