//! Distances along a ray as integers.
//!
//! The geometry measures distances in IEEE 754 single precision. Such numbers
//! are ordered as their bit patterns are when these are read as sign and
//! magnitude, so a distance is handed over as its bit pattern and compared
//! here as an integer: the signed magnitude moved up by `2^31`.

use vstd::prelude::*;

verus! {

/// The distance of a hit at the very start of a ray. Smaller distances lie
/// behind the start.
pub const ZERO_DISTANCE: u32 = 0x8000_0000;

/// The distance of a hit infinitely far along a ray. Nothing is seen there.
pub const INFINITE_DISTANCE: u32 = 0xFF80_0000;

/// The distance of a hit infinitely far behind the start of a ray.
pub const MINUS_INFINITE_DISTANCE: u32 = 0x0080_0000;

/// The number that a 32-bit sign-and-magnitude pattern stands for when its
/// low 31 bits are read as a whole number: the magnitude, negated where the
/// top bit is set.
pub open spec fn signed_magnitude(bits: u32) -> int {
    if bits >= 0x8000_0000 {
        -(bits - 0x8000_0000)
    } else {
        bits as int
    }
}

/// Whether `bits` has a magnitude past that of the pattern with all exponent
/// bits set and no other: in IEEE 754 single precision, not a number.
pub open spec fn is_unordered(bits: u32) -> bool {
    bits % 0x8000_0000 > 0x7F80_0000
}

/// The distance of `distance_key` for `bits`: the signed magnitude moved up
/// by `2^31`, so that it is never negative.
pub open spec fn spec_distance_key(bits: u32) -> Option<u32> {
    if is_unordered(bits) {
        None
    } else {
        Some((0x8000_0000 + signed_magnitude(bits)) as u32)
    }
}

/// Turns the bit pattern of an IEEE 754 single precision number into a
/// distance for `Hit`. Such numbers are ordered as their signed magnitudes
/// are, and so are the distances returned: both zeros give the same
/// distance, negative numbers smaller ones and positive numbers larger ones,
/// up to the two infinities. A pattern that is not a number gives `None`.
pub fn distance_key(bits: u32) -> (key: Option<u32>)
    ensures
        key == spec_distance_key(bits),
{
    let magnitude: u32 = bits & 0x7FFF_FFFF;
    let negative: bool = bits & 0x8000_0000 != 0;
    assert(magnitude == bits % 0x8000_0000 && (negative <==> bits >= 0x8000_0000) && (negative
        ==> magnitude == bits - 0x8000_0000) && (!negative ==> magnitude == bits)) by (bit_vector)
        requires
            magnitude == bits & 0x7FFF_FFFF,
            negative == (bits & 0x8000_0000 != 0),
    ;
    if magnitude > 0x7F80_0000 {
        None
    } else if negative {
        Some(0x8000_0000 - magnitude)
    } else {
        Some(0x8000_0000 + magnitude)
    }
}

/// The bit pattern that has the distance `key`: of the two zeros the
/// positive one. For a number outside the scale of distances the result is
/// the pattern of the nearer infinity.
pub open spec fn spec_distance_bits(key: u32) -> u32 {
    if key >= INFINITE_DISTANCE {
        0x7F80_0000u32
    } else if key >= ZERO_DISTANCE {
        (key - ZERO_DISTANCE) as u32
    } else if key > MINUS_INFINITE_DISTANCE {
        (ZERO_DISTANCE + (ZERO_DISTANCE - key)) as u32
    } else {
        0xFF80_0000u32
    }
}

/// Turns a distance back into the bit pattern of the number it was made of.
pub fn distance_bits(key: u32) -> (bits: u32)
    ensures
        bits == spec_distance_bits(key),
{
    if key >= INFINITE_DISTANCE {
        0x7F80_0000
    } else if key >= ZERO_DISTANCE {
        key - ZERO_DISTANCE
    } else if key > MINUS_INFINITE_DISTANCE {
        ZERO_DISTANCE + (ZERO_DISTANCE - key)
    } else {
        0xFF80_0000
    }
}

/// A distance turned into a pattern and back is the same distance, and a
/// pattern turned into a distance and back is the same pattern, but for the
/// negative zero, which comes back positive.
pub proof fn lemma_distance_round_trip(bits: u32, key: u32)
    ensures
        MINUS_INFINITE_DISTANCE <= key <= INFINITE_DISTANCE ==> spec_distance_key(
            spec_distance_bits(key),
        ) == Some(key),
        !is_unordered(bits) && bits != 0x8000_0000 ==> spec_distance_bits(
            spec_distance_key(bits).unwrap(),
        ) == bits,
        spec_distance_bits(spec_distance_key(0x8000_0000).unwrap()) == 0,
        spec_distance_key(bits) matches Some(made) ==> MINUS_INFINITE_DISTANCE <= made
            <= INFINITE_DISTANCE,
{
}

/// Distances compare as the signed magnitudes of the patterns they were
/// made of, and two patterns get the same distance only where they stand for
/// the same number.
pub proof fn lemma_distance_key_orders(a: u32, b: u32)
    requires
        !is_unordered(a),
        !is_unordered(b),
    ensures
        spec_distance_key(a) is Some,
        spec_distance_key(b) is Some,
        spec_distance_key(a).unwrap() < spec_distance_key(b).unwrap() <==> signed_magnitude(a)
            < signed_magnitude(b),
        spec_distance_key(a) == spec_distance_key(b) <==> signed_magnitude(a) == signed_magnitude(
            b,
        ),
{
}

} // verus!
