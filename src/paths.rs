//! The grid of paths a ribbon is made from: laid out once on a regular lattice,
//! then lifted and lowered each frame.
//!
//! Wave values (`waves`, `arcs`) and the per-frame `phase` are fixed-point numbers
//! with `ONE` standing for 1; they are the sines and cosines of the configuration,
//! evaluated by the caller.
use vstd::prelude::*;
use vstd::arithmetic::div_mod::lemma_fundamental_div_mod;
use crate::geometry::{Point, ONE};

verus! {

/// Division rounding toward zero, as integer division does on machine integers.
pub open spec fn trunc_div(n: int, d: int) -> int {
    if n >= 0 {
        n / d
    } else {
        -((-n) / d)
    }
}

fn div_trunc(n: i128, d: u128) -> (r: i128)
    requires
        d > 0,
        -0x8000_0000_0000_0000_0000_0000_0000_0000 < n,
    ensures
        r == trunc_div(n as int, d as int),
        n >= 0 ==> 0 <= r && r * d <= n,
        n < 0 ==> r <= 0 && -r * d <= -n,
{
    let ghost m: int = if n >= 0 { n as int } else { -n };
    proof {
        lemma_fundamental_div_mod(m, d as int);
        let q = m / (d as int);
        let rem = m % (d as int);
        assert(0 <= q && q * d <= m) by (nonlinear_arith)
            requires
                m == d * q + rem,
                0 <= rem < d,
                m >= 0,
                d > 0,
        ;
    }
    if n >= 0 {
        ((n as u128) / d) as i128
    } else {
        let q = ((-n) as u128) / d;
        -(q as i128)
    }
}

/// The point at lattice position `(i, j)`: `x` and `y` are `i` and `j` times the
/// spacing, `z` is a wave value plus `radius` times an arc value.
pub open spec fn lattice_point(i: int, j: int, spacing: int, wave: int, arc: int, radius: int) -> Point {
    Point {
        x: (i * spacing) as i32,
        y: (j * spacing) as i32,
        z: (wave + trunc_div(radius * arc, ONE as int)) as i32,
    }
}

/// A fixed-point value within `[-ONE, ONE]`.
pub open spec fn unit(v: i32) -> bool {
    -ONE <= v <= ONE
}

/// Lays out the grid of rows `i_lo .. i_hi` and columns `j_lo .. j_hi`. The point of
/// row `i` and column `j` takes wave value `waves[(i - i_lo) + (j - j_lo)]` and arc
/// value `arcs[j - j_lo]`.
pub fn generate_paths(
    i_lo: i32,
    i_hi: i32,
    j_lo: i32,
    j_hi: i32,
    spacing: i32,
    waves: &Vec<i32>,
    arcs: &Vec<i32>,
    radius: i32,
) -> (r: Vec<Vec<Point>>)
    requires
        i_lo <= i_hi,
        j_lo <= j_hi,
        forall|i: int| i_lo <= i < i_hi ==> i32::MIN <= #[trigger] (i * spacing) <= i32::MAX,
        forall|j: int| j_lo <= j < j_hi ==> i32::MIN <= #[trigger] (j * spacing) <= i32::MAX,
        waves@.len() + 1 >= (i_hi - i_lo) + (j_hi - j_lo),
        arcs@.len() >= j_hi - j_lo,
        forall|k: int| 0 <= k < waves@.len() ==> unit(#[trigger] waves@[k]),
        forall|k: int| 0 <= k < arcs@.len() ==> unit(#[trigger] arcs@[k]),
        -0x4000_0000 <= radius <= 0x4000_0000,
    ensures
        r@.len() == i_hi - i_lo,
        forall|a: int| 0 <= a < r@.len() ==> (#[trigger] r@[a])@.len() == j_hi - j_lo,
        forall|a: int, b: int|
            0 <= a < i_hi - i_lo && 0 <= b < j_hi - j_lo ==> #[trigger] r@[a]@[b] == lattice_point(
                i_lo + a,
                j_lo + b,
                spacing as int,
                waves@[a + b] as int,
                arcs@[b] as int,
                radius as int,
            ),
{
    let mut g: Vec<Vec<Point>> = Vec::new();
    let mut i: i32 = i_lo;
    while i < i_hi
        invariant
            i_lo <= i <= i_hi,
            j_lo <= j_hi,
            g@.len() == i - i_lo,
            forall|i: int| i_lo <= i < i_hi ==> i32::MIN <= #[trigger] (i * spacing) <= i32::MAX,
            forall|j: int| j_lo <= j < j_hi ==> i32::MIN <= #[trigger] (j * spacing) <= i32::MAX,
            waves@.len() + 1 >= (i_hi - i_lo) + (j_hi - j_lo),
            arcs@.len() >= j_hi - j_lo,
            forall|k: int| 0 <= k < waves@.len() ==> unit(#[trigger] waves@[k]),
            forall|k: int| 0 <= k < arcs@.len() ==> unit(#[trigger] arcs@[k]),
            -0x4000_0000 <= radius <= 0x4000_0000,
            forall|a: int| 0 <= a < g@.len() ==> (#[trigger] g@[a])@.len() == j_hi - j_lo,
            forall|a: int, b: int|
                0 <= a < i - i_lo && 0 <= b < j_hi - j_lo ==> #[trigger] g@[a]@[b] == lattice_point(
                    i_lo + a,
                    j_lo + b,
                    spacing as int,
                    waves@[a + b] as int,
                    arcs@[b] as int,
                    radius as int,
                ),
        decreases i_hi - i,
    {
        let mut row: Vec<Point> = Vec::new();
        let mut j: i32 = j_lo;
        assert(i_lo <= i < i_hi && i32::MIN <= i * spacing <= i32::MAX);
        let x = (i as i64 * spacing as i64) as i32;
        while j < j_hi
            invariant
                i_lo <= i < i_hi,
                j_lo <= j <= j_hi,
                x == i * spacing,
                row@.len() == j - j_lo,
                forall|j: int| j_lo <= j < j_hi ==> i32::MIN <= #[trigger] (j * spacing) <= i32::MAX,
                waves@.len() + 1 >= (i_hi - i_lo) + (j_hi - j_lo),
                arcs@.len() >= j_hi - j_lo,
                forall|k: int| 0 <= k < waves@.len() ==> unit(#[trigger] waves@[k]),
                forall|k: int| 0 <= k < arcs@.len() ==> unit(#[trigger] arcs@[k]),
                -0x4000_0000 <= radius <= 0x4000_0000,
                forall|b: int|
                    0 <= b < j - j_lo ==> #[trigger] row@[b] == lattice_point(
                        i as int,
                        j_lo + b,
                        spacing as int,
                        waves@[(i - i_lo) + b] as int,
                        arcs@[b] as int,
                        radius as int,
                    ),
            decreases j_hi - j,
        {
            assert(i32::MIN <= j * spacing <= i32::MAX);
            let y = (j as i64 * spacing as i64) as i32;
            assert(0 <= (i - i_lo) + (j - j_lo) < waves@.len());
            let k64: i64 = (i as i64 - i_lo as i64) + (j as i64 - j_lo as i64);
            let n_waves = waves.len();
            assert(0 <= k64 < n_waves);
            let k: usize = k64 as usize;
            let b: usize = (j as i64 - j_lo as i64) as usize;
            let w = waves[k];
            let a = arcs[b];
            assert(-0x4000_0000_0000 <= radius as int * a as int <= 0x4000_0000_0000) by (nonlinear_arith)
                requires
                    -0x4000_0000 <= radius <= 0x4000_0000,
                    -0x10000 <= a <= 0x10000,
            ;
            let lift = div_trunc(radius as i128 * a as i128, ONE as u128);
            assert(-0x4000_0000 <= lift <= 0x4000_0000);
            let z = (w as i128 + lift) as i32;
            assert(lift == trunc_div(radius as int * a as int, ONE as int));
            assert(w == waves@[(i - i_lo) + (j - j_lo)]);
            assert(a == arcs@[j - j_lo]);
            let ghost prev = row@;
            row.push(Point { x, y, z });
            assert(row@[j - j_lo] == lattice_point(
                i as int,
                j as int,
                spacing as int,
                waves@[(i - i_lo) + (j - j_lo)] as int,
                arcs@[j - j_lo] as int,
                radius as int,
            ));
            assert forall|b: int| 0 <= b < j - j_lo implies row@[b] == prev[b] by {}
            j += 1;
        }
        g.push(row);
        proof {
            assert forall|a: int, b: int|
                0 <= a < i + 1 - i_lo && 0 <= b < j_hi - j_lo implies #[trigger] g@[a]@[b] == lattice_point(
                    i_lo + a,
                    j_lo + b,
                    spacing as int,
                    waves@[a + b] as int,
                    arcs@[b] as int,
                    radius as int,
                ) by {
                if a < i - i_lo {
                }
            }
        }
        i += 1;
    }
    g
}

/// `p` with its height set from its own `x`: `x * wave * phase`, in fixed point.
/// Its `x` and `y` are kept.
pub open spec fn waved(p: Point, wave: int, phase: int) -> Point {
    Point { z: trunc_div(p.x * wave * phase, ONE as int * ONE as int) as i32, ..p }
}

/// `h` is `g` after one update with `waves` and `phase`: each point `(i, j)` is
/// waved by `waves[i + j]`, on its own, and the shape is kept.
pub open spec fn is_update(g: Seq<Vec<Point>>, waves: Seq<i32>, phase: i32, h: Seq<Vec<Point>>) -> bool {
    &&& h.len() == g.len()
    &&& forall|i: int| 0 <= i < g.len() ==> (#[trigger] h[i])@.len() == g[i]@.len()
    &&& forall|i: int, j: int|
        0 <= i < g.len() && 0 <= j < g[i]@.len() ==> #[trigger] h[i]@[j] == waved(
            g[i]@[j],
            waves[i + j] as int,
            phase as int,
        )
}

/// Every point `(i, j)` of the grid has a wave value `waves[i + j]`.
pub open spec fn waves_cover(g: Seq<Vec<Point>>, waves: Seq<i32>) -> bool {
    forall|i: int| 0 <= i < g.len() ==> i + (#[trigger] g[i])@.len() <= waves.len()
}

fn wave_point(p: Point, w: i32, phase: i32) -> (r: Point)
    requires
        unit(w),
        -ONE < phase < ONE,
    ensures
        r == waved(p, w as int, phase as int),
{
    let ghost (x, wi, c) = (p.x as int, w as int, phase as int);
    assert(-0x8000_0000_0000 <= x * wi <= 0x8000_0000_0000) by (nonlinear_arith)
        requires
            -0x8000_0000 <= x <= 0x7fff_ffff,
            -0x10000 <= wi <= 0x10000,
    ;
    let xw: i128 = p.x as i128 * w as i128;
    assert(-0x7fff_8000_0000_0000 <= (x * wi) * c <= 0x7fff_8000_0000_0000) by (nonlinear_arith)
        requires
            -0x8000_0000 <= x <= 0x7fff_ffff,
            -0x10000 <= wi <= 0x10000,
            -0xffff <= c <= 0xffff,
    ;
    let prod: i128 = xw * phase as i128;
    let z = div_trunc(prod, 0x1_0000_0000);
    Point { z: z as i32, ..p }
}

/// Sets the height of every point from its own `x`, its wave value and the phase of
/// the frame. `x` and `y` are kept; no point depends on another.
pub fn update_paths(paths: &mut Vec<Vec<Point>>, waves: &Vec<i32>, phase: i32)
    requires
        waves_cover(old(paths)@, waves@),
        forall|k: int| 0 <= k < waves@.len() ==> unit(#[trigger] waves@[k]),
        -ONE < phase < ONE,
    ensures
        is_update(old(paths)@, waves@, phase, final(paths)@),
{
    let ghost g0 = paths@;
    let mut i: usize = 0;
    while i < paths.len()
        invariant
            paths@.len() == g0.len(),
            waves_cover(g0, waves@),
            forall|k: int| 0 <= k < waves@.len() ==> unit(#[trigger] waves@[k]),
            -ONE < phase < ONE,
            i <= g0.len(),
            forall|a: int| i <= a < g0.len() ==> #[trigger] paths@[a] == g0[a],
            forall|a: int| 0 <= a < i ==> (#[trigger] paths@[a])@.len() == g0[a]@.len(),
            forall|a: int, b: int|
                0 <= a < i && 0 <= b < g0[a]@.len() ==> #[trigger] paths@[a]@[b] == waved(
                    g0[a]@[b],
                    waves@[a + b] as int,
                    phase as int,
                ),
        decreases g0.len() - i,
    {
        let mut row: Vec<Point> = Vec::new();
        let n = paths[i].len();
        let n_waves = waves.len();
        let mut j: usize = 0;
        assert(paths@[i as int] == g0[i as int]);
        while j < n
            invariant
                paths@.len() == g0.len(),
                i < g0.len(),
                paths@[i as int] == g0[i as int],
                n == g0[i as int]@.len(),
                i + n <= n_waves,
                n_waves == waves@.len(),
                forall|k: int| 0 <= k < waves@.len() ==> unit(#[trigger] waves@[k]),
                -ONE < phase < ONE,
                j <= n,
                row@.len() == j,
                forall|b: int| 0 <= b < j ==> #[trigger] row@[b] == waved(
                    g0[i as int]@[b],
                    waves@[i + b] as int,
                    phase as int,
                ),
            decreases n - j,
        {
            let q = wave_point(paths[i][j], waves[i + j], phase);
            row.push(q);
            j += 1;
        }
        paths.set(i, row);
        i += 1;
    }
}

} // verus!
