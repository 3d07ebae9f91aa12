//! Fixed-point points and the integer Euclidean distance between them.
use vstd::prelude::*;

verus! {

/// Number of fixed-point units in one scene unit.
pub const ONE: i32 = 65536;

/// Bound on the length of one segment between two points, in fixed-point units.
pub const SEG_BOUND: u128 = 0x4_0000_0000;

/// A point in space, each coordinate counted in fixed-point units (`ONE` per scene unit).
#[derive(Clone, Copy, Debug, PartialEq, Eq, Structural)]
pub struct Point {
    pub x: i32,
    pub y: i32,
    pub z: i32,
}

impl Point {
    pub fn new(x: i32, y: i32, z: i32) -> (r: Point)
        ensures
            r == (Point { x, y, z }),
    {
        Point { x, y, z }
    }
}

/// Squared Euclidean distance between two points.
pub open spec fn sq_dist(a: Point, b: Point) -> nat {
    ((b.x - a.x) * (b.x - a.x) + (b.y - a.y) * (b.y - a.y) + (b.z - a.z) * (b.z - a.z)) as nat
}

/// The largest `r` with `r * r <= n`.
pub open spec fn floor_sqrt(n: nat) -> nat
    decreases n,
{
    if n == 0 {
        0
    } else {
        let r = floor_sqrt((n - 1) as nat);
        if (r + 1) * (r + 1) <= n {
            r + 1
        } else {
            r
        }
    }
}

/// Length of the segment from `a` to `b`, rounded down to a whole fixed-point unit.
pub open spec fn seg_len(a: Point, b: Point) -> nat {
    floor_sqrt(sq_dist(a, b))
}

/// `floor_sqrt` is the integer square root.
pub proof fn lemma_floor_sqrt(n: nat)
    ensures
        floor_sqrt(n) * floor_sqrt(n) <= n,
        n < (floor_sqrt(n) + 1) * (floor_sqrt(n) + 1),
    decreases n,
{
    if n > 0 {
        lemma_floor_sqrt((n - 1) as nat);
        let r = floor_sqrt((n - 1) as nat);
        if (r + 1) * (r + 1) <= n {
            assert(floor_sqrt(n) == r + 1);
            assert((r + 1) * (r + 1) < (r + 2) * (r + 2)) by (nonlinear_arith);
            assert(n < (r + 2) * (r + 2));
        } else {
            assert(floor_sqrt(n) == r);
            assert(n < (r + 1) * (r + 1));
        }
    } else {
        assert(floor_sqrt(n) == 0);
        assert(0 < (0 + 1) * (0 + 1)) by (nonlinear_arith);
    }
}

/// The integer square root is the only `r` with `r * r <= n < (r + 1) * (r + 1)`.
proof fn lemma_floor_sqrt_unique(r: nat, n: nat)
    requires
        r * r <= n,
        n < (r + 1) * (r + 1),
    ensures
        r == floor_sqrt(n),
{
    lemma_floor_sqrt(n);
    let s = floor_sqrt(n);
    if r < s {
        assert((r + 1) * (r + 1) <= s * s) by (nonlinear_arith)
            requires
                r + 1 <= s,
        ;
    } else if s < r {
        assert((s + 1) * (s + 1) <= r * r) by (nonlinear_arith)
            requires
                s + 1 <= r,
        ;
    }
}

/// Integer square root by bisection.
pub fn isqrt(n: u128) -> (r: u64)
    ensures
        r as nat == floor_sqrt(n as nat),
{
    let mut lo: u128 = 0;
    let mut hi: u128 = 0x1_0000_0000_0000_0000;
    assert(n < hi * hi) by (nonlinear_arith)
        requires
            hi == 0x1_0000_0000_0000_0000u128,
            n <= u128::MAX,
    ;
    while hi - lo > 1
        invariant
            lo < hi <= 0x1_0000_0000_0000_0000u128,
            lo * lo <= n,
            n < hi * hi,
        decreases hi - lo,
    {
        let mid: u128 = lo + (hi - lo) / 2;
        assert(mid * mid < 0x1_0000_0000_0000_0000_0000_0000_0000_0000) by (nonlinear_arith)
            requires
                mid < 0x1_0000_0000_0000_0000u128,
        ;
        if mid * mid <= n {
            lo = mid;
        } else {
            hi = mid;
        }
    }
    proof {
        lemma_floor_sqrt_unique(lo as nat, n as nat);
    }
    lo as u64
}

/// Length of the segment between two points, rounded down to a whole fixed-point unit.
pub fn segment_length(a: &Point, b: &Point) -> (r: u128)
    ensures
        r == seg_len(*a, *b),
        r < SEG_BOUND,
{
    let dx: i128 = b.x as i128 - a.x as i128;
    let dy: i128 = b.y as i128 - a.y as i128;
    let dz: i128 = b.z as i128 - a.z as i128;
    assert(dx * dx < 0x1_0000_0000_0000_0000 && dx * dx >= 0) by (nonlinear_arith)
        requires
            -0x1_0000_0000 < dx < 0x1_0000_0000,
    ;
    assert(dy * dy < 0x1_0000_0000_0000_0000 && dy * dy >= 0) by (nonlinear_arith)
        requires
            -0x1_0000_0000 < dy < 0x1_0000_0000,
    ;
    assert(dz * dz < 0x1_0000_0000_0000_0000 && dz * dz >= 0) by (nonlinear_arith)
        requires
            -0x1_0000_0000 < dz < 0x1_0000_0000,
    ;
    let n: u128 = (dx * dx) as u128 + (dy * dy) as u128 + (dz * dz) as u128;
    let r = isqrt(n);
    proof {
        lemma_floor_sqrt(n as nat);
        let s = r as int;
        assert(s < SEG_BOUND) by (nonlinear_arith)
            requires
                s * s <= n,
                n < 0x3_0000_0000_0000_0000,
                s >= 0,
        ;
    }
    r as u128
}

} // verus!
