use vstd::arithmetic::div_mod::{lemma_fundamental_div_mod, lemma_fundamental_div_mod_converse};
use vstd::prelude::*;

verus! {

/// A vector of three signed integer components: world voxel positions,
/// chunk-aligned coordinates, and coordinates within a chunk.
#[derive(Clone, Copy, PartialEq, Eq, Structural, Debug, Hash)]
pub struct IVec3 {
    pub x: i32,
    pub y: i32,
    pub z: i32,
}

impl IVec3 {
    pub fn new(x: i32, y: i32, z: i32) -> (r: IVec3)
        ensures
            r == (IVec3 { x, y, z }),
    {
        IVec3 { x, y, z }
    }

    pub fn splat(v: i32) -> (r: IVec3)
        ensures
            r == (IVec3 { x: v, y: v, z: v }),
    {
        IVec3 { x: v, y: v, z: v }
    }
}

/// Euclidean division and remainder of a component by the chunk side (32):
/// the remainder is always in `[0, 32)`, also for negative coordinates.
/// In specifications `/` and `%` on `int` are already Euclidean, so the
/// contract can state the result directly.
pub fn euclid_div_rem_32(a: i32) -> (r: (i32, i32))
    ensures
        r.0 == a as int / 32,
        r.1 == a as int % 32,
        a as int == 32 * (r.0 as int) + r.1 as int,
        0 <= r.1 < 32,
{
    // Shift into non-negative range; 2^31 is a multiple of 32, so the shift
    // moves the quotient by exactly 2^26 and leaves the remainder unchanged.
    let shifted: u64 = ((a as i64) + 0x8000_0000i64) as u64;
    let q: u64 = shifted / 32;
    let rem: u64 = shifted % 32;
    let qi: i32 = ((q as i64) - 0x0400_0000i64) as i32;
    let remi: i32 = rem as i32;
    proof {
        lemma_fundamental_div_mod_converse(a as int, 32, qi as int, remi as int);
    }
    (qi, remi)
}

/// Euclidean remainder of `a` by a positive divisor `b`.
pub fn euclid_rem(a: i32, b: i32) -> (r: i32)
    requires
        1 <= b,
    ensures
        r == a as int % b as int,
        0 <= r < b,
{
    if a >= 0 {
        let r: i32 = ((a as u64) % (b as u64)) as i32;
        proof {
            lemma_fundamental_div_mod(a as int, b as int);
            lemma_fundamental_div_mod_converse(a as int, b as int, a as int / b as int, r as int);
        }
        r
    } else {
        // For a < 0 and b > 0: a % b == b - 1 - ((-a - 1) % b).
        let n: u64 = (-((a as i64) + 1)) as u64;
        let m: u64 = n % (b as u64);
        let r: i32 = b - 1 - (m as i32);
        proof {
            lemma_fundamental_div_mod(n as int, b as int);
            let q = n as int / b as int;
            assert(n as int == q * (b as int) + (m as int));
            assert((-q - 1) * (b as int) == -(q * (b as int)) - (b as int)) by (nonlinear_arith);
            assert(a as int == (-q - 1) * (b as int) + (r as int));
            lemma_fundamental_div_mod_converse(a as int, b as int, -q - 1, r as int);
        }
        r
    }
}

} // verus!
