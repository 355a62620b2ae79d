//! Fixed-point 3D vectors and the integer square root that turns squared
//! coordinate distances into comparable lengths.

use vstd::prelude::*;

verus! {

use crate::POS_LIMIT;

/// A point or direction in the scene, in fixed-point coordinate steps.
#[derive(Clone, Copy, Debug, PartialEq, Eq, Structural)]
pub struct Vec3 {
    pub x: i64,
    pub y: i64,
    pub z: i64,
}

impl Vec3 {
    /// The component-wise bound that keeps every coordinate inside the world
    /// extent, so that squared distances stay well inside `u128`.
    pub open spec fn bounded(self) -> bool {
        &&& -POS_LIMIT <= self.x <= POS_LIMIT
        &&& -POS_LIMIT <= self.y <= POS_LIMIT
        &&& -POS_LIMIT <= self.z <= POS_LIMIT
    }

    /// A direction may be a difference of two bounded points, so its
    /// components range over twice the world extent.
    pub open spec fn dir_bounded(self) -> bool {
        &&& -2 * POS_LIMIT <= self.x <= 2 * POS_LIMIT
        &&& -2 * POS_LIMIT <= self.y <= 2 * POS_LIMIT
        &&& -2 * POS_LIMIT <= self.z <= 2 * POS_LIMIT
    }

    /// Squared length of this vector.
    pub open spec fn norm_sq(self) -> int {
        self.x * self.x + self.y * self.y + self.z * self.z
    }
}

/// Squared distance between two points.
pub open spec fn dist_sq(a: Vec3, b: Vec3) -> int {
    (b.x - a.x) * (b.x - a.x) + (b.y - a.y) * (b.y - a.y) + (b.z - a.z) * (b.z - a.z)
}

/// `r` is the integer square root of `n`: the largest integer whose square
/// does not exceed `n`.
pub open spec fn is_isqrt(n: int, r: int) -> bool {
    &&& 0 <= r
    &&& r * r <= n
    &&& n < (r + 1) * (r + 1)
}

/// The integer square root as a function, picked out by `is_isqrt`.
pub open spec fn sqrt_floor(n: int) -> int {
    choose|r: int| is_isqrt(n, r)
}

/// Distance between two points: the integer square root of the squared
/// distance, in coordinate steps.
pub open spec fn dist(a: Vec3, b: Vec3) -> int {
    sqrt_floor(dist_sq(a, b))
}

/// Two integer square roots of the same number are equal.
proof fn lemma_isqrt_unique(n: int, r1: int, r2: int)
    requires
        is_isqrt(n, r1),
        is_isqrt(n, r2),
    ensures
        r1 == r2,
{
    assert(r1 == r2) by (nonlinear_arith)
        requires
            0 <= r1 && r1 * r1 <= n && n < (r1 + 1) * (r1 + 1),
            0 <= r2 && r2 * r2 <= n && n < (r2 + 1) * (r2 + 1),
    ;
}

/// A witness for `is_isqrt(n, r)` pins `sqrt_floor(n)` down to `r`.
pub proof fn lemma_sqrt_floor_is(n: int, r: int)
    requires
        is_isqrt(n, r),
    ensures
        sqrt_floor(n) == r,
        is_isqrt(n, sqrt_floor(n)),
{
    let c = choose|s: int| is_isqrt(n, s);
    lemma_isqrt_unique(n, c, r);
}

/// `2^63`: the starting upper bound of the square-root search.
pub const ISQRT_HI: u128 = 0x8000_0000_0000_0000;

/// `2^126`: squares of candidates below `ISQRT_HI` stay below this.
pub const ISQRT_SQ_LIMIT: u128 = 0x4000_0000_0000_0000_0000_0000_0000_0000;

/// Integer square root by binary search.
pub fn isqrt(n: u128) -> (r: u64)
    requires
        n < ISQRT_SQ_LIMIT,
    ensures
        is_isqrt(n as int, r as int),
        r == sqrt_floor(n as int),
{
    let mut lo: u128 = 0;
    let mut hi: u128 = ISQRT_HI;
    assert(ISQRT_HI * ISQRT_HI == ISQRT_SQ_LIMIT) by (nonlinear_arith);
    while lo + 1 < hi
        invariant
            lo < hi <= ISQRT_HI,
            lo * lo <= n,
            n < hi * hi,
            n < ISQRT_SQ_LIMIT,
        decreases hi - lo,
    {
        let mid: u128 = lo + (hi - lo) / 2;
        assert(lo < mid < hi);
        assert(mid * mid < ISQRT_SQ_LIMIT) by (nonlinear_arith)
            requires
                0 <= mid < ISQRT_HI,
                ISQRT_HI * ISQRT_HI == ISQRT_SQ_LIMIT,
        ;
        if mid * mid <= n {
            lo = mid;
        } else {
            hi = mid;
        }
    }
    proof {
        lemma_sqrt_floor_is(n as int, lo as int);
    }
    lo as u64
}

/// Distance between two bounded points. The result is the integer square
/// root of the squared distance and fits comfortably in `i64`.
pub fn distance(a: &Vec3, b: &Vec3) -> (d: i64)
    requires
        a.bounded(),
        b.bounded(),
    ensures
        d == dist(*a, *b),
        0 <= d <= 4 * POS_LIMIT,
{
    let dx: i128 = b.x as i128 - a.x as i128;
    let dy: i128 = b.y as i128 - a.y as i128;
    let dz: i128 = b.z as i128 - a.z as i128;
    proof {
        lemma_sq_bound(dx as int, 2 * POS_LIMIT);
        lemma_sq_bound(dy as int, 2 * POS_LIMIT);
        lemma_sq_bound(dz as int, 2 * POS_LIMIT);
    }
    let sq: u128 = (dx * dx) as u128 + (dy * dy) as u128 + (dz * dz) as u128;
    let r: u64 = isqrt(sq);
    proof {
        lemma_isqrt_le_linear(sq as int, r as int, 4 * POS_LIMIT);
    }
    r as i64
}

/// The square of an integer bounded by `b` is at most `b * b`, and never
/// negative.
pub proof fn lemma_sq_bound(x: int, b: int)
    requires
        -b <= x <= b,
        0 <= b,
    ensures
        0 <= x * x <= b * b,
{
    assert(0 <= x * x <= b * b) by (nonlinear_arith)
        requires
            -b <= x <= b,
            0 <= b,
    ;
}

/// An integer square root of a number no greater than three quarters of
/// `b * b` is at most `b`: used to size distance results.
proof fn lemma_isqrt_le_linear(n: int, r: int, b: int)
    requires
        is_isqrt(n, r),
        0 <= b,
        n <= 3 * (b * b) / 4,
    ensures
        r <= b,
{
    if r > b {
        assert(false) by (nonlinear_arith)
            requires
                0 <= b < r,
                r * r <= n,
                n <= 3 * (b * b) / 4,
        ;
    }
}

} // verus!
