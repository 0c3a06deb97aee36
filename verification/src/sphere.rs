//! The sphere primitive, as far as it is decided by comparing: which
//! solution of the quadratic of ray and sphere is a hit. The caller solves
//! the quadratic; the numbers it hands over are distances on the scale of
//! the module `distance`, with `None` for what is not a number.

use crate::distance::ZERO_DISTANCE;
use vstd::prelude::*;

verus! {

/// Whether a number is there and above zero.
pub open spec fn positive(number: Option<u32>) -> bool {
    number is Some && number.unwrap() > ZERO_DISTANCE
}

/// The distance at which a ray hits a sphere: the smaller root of the
/// quadratic, where the discriminant is positive, so that the line of the
/// ray cuts the sphere, and the root is too, so that the cut lies ahead. A
/// ray that touches the sphere, starts inside it or has it behind misses.
pub open spec fn spec_near_hit(discriminant: Option<u32>, near_root: Option<u32>) -> Option<u32> {
    if positive(discriminant) && positive(near_root) {
        near_root
    } else {
        None
    }
}

/// Decides whether the smaller root of the quadratic of ray and sphere is a
/// hit, and hands it back if it is.
pub fn near_hit(discriminant: Option<u32>, near_root: Option<u32>) -> (hit: Option<u32>)
    ensures
        hit == spec_near_hit(discriminant, near_root),
{
    match discriminant {
        Some(value) => {
            if value > ZERO_DISTANCE {
                match near_root {
                    Some(t) => {
                        if t > ZERO_DISTANCE {
                            return Some(t);
                        }
                    },
                    None => {},
                }
            }
        },
        None => {},
    }
    None
}

} // verus!
