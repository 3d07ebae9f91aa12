//! Arc-length texture coordinates.
//!
//! A coordinate is kept exactly, as a numerator over the span of its axis: `u` is
//! `u / u_span` and `v` is `v / v_span`, each in `[0, 1]`.
use vstd::prelude::*;
use crate::geometry::{Point, seg_len, segment_length, SEG_BOUND};
use crate::grid::{grid_wf, is_rect, cols, fits};

verus! {

/// A texture coordinate pair, as numerators over the spans of the mesh.
#[derive(Clone, Copy, Debug, PartialEq, Eq, Structural)]
pub struct Uv {
    pub u: u128,
    pub v: u128,
}

/// Arc length along row 0 from column 0 to column `j`.
pub open spec fn col_arc(g: Seq<Vec<Point>>, j: int) -> nat
    decreases j,
{
    if j <= 0 {
        0
    } else {
        col_arc(g, j - 1) + seg_len(g[0]@[j - 1], g[0]@[j])
    }
}

/// Arc length down column 0 from row 0 to row `i`.
pub open spec fn row_arc(g: Seq<Vec<Point>>, i: int) -> nat
    decreases i,
{
    if i <= 0 {
        0
    } else {
        row_arc(g, i - 1) + seg_len(g[i - 1]@[0], g[i]@[0])
    }
}

/// Arc lengths only grow along a column.
pub proof fn lemma_row_arc_mono(g: Seq<Vec<Point>>, i: int, k: int)
    requires
        i <= k,
    ensures
        row_arc(g, i) <= row_arc(g, k),
    decreases k - i,
{
    if i < k {
        lemma_row_arc_mono(g, i, k - 1);
    }
}

/// Arc lengths only grow along a row.
pub proof fn lemma_col_arc_mono(g: Seq<Vec<Point>>, j: int, k: int)
    requires
        j <= k,
    ensures
        col_arc(g, j) <= col_arc(g, k),
    decreases k - j,
{
    if j < k {
        lemma_col_arc_mono(g, j, k - 1);
    }
}

/// How arc lengths are accumulated into texture coordinates.
#[derive(Clone, Copy, Debug, PartialEq, Eq, Structural)]
pub enum UvPolicy {
    /// `u` follows row 0 and `v` follows column 0, for every point of the grid.
    SharedArcs,
    /// One running total walks all rows in turn for `u`, and another all columns
    /// in turn for `v`; each point records the running total it is reached at.
    RunningArcs,
}

/// Arc length along row `r` from column 0 to column `j`.
pub open spec fn row_path(g: Seq<Vec<Point>>, r: int, j: int) -> nat
    decreases j,
{
    if j <= 0 {
        0
    } else {
        row_path(g, r, j - 1) + seg_len(g[r]@[j - 1], g[r]@[j])
    }
}

/// Arc length down column `c` from row 0 to row `i`.
pub open spec fn col_path(g: Seq<Vec<Point>>, c: int, i: int) -> nat
    decreases i,
{
    if i <= 0 {
        0
    } else {
        col_path(g, c, i - 1) + seg_len(g[i - 1]@[c], g[i]@[c])
    }
}

/// Sum of the full lengths of rows `0 .. i`.
pub open spec fn rows_total(g: Seq<Vec<Point>>, i: int) -> nat
    decreases i,
{
    if i <= 0 {
        0
    } else {
        rows_total(g, i - 1) + row_path(g, i - 1, cols(g) - 1)
    }
}

/// Sum of the full lengths of columns `0 .. j`.
pub open spec fn cols_total(g: Seq<Vec<Point>>, j: int) -> nat
    decreases j,
{
    if j <= 0 {
        0
    } else {
        cols_total(g, j - 1) + col_path(g, j - 1, g.len() - 1)
    }
}

/// The accumulated `u` arc length at point `(i, j)`.
pub open spec fn u_arc(g: Seq<Vec<Point>>, pol: UvPolicy, i: int, j: int) -> nat {
    match pol {
        UvPolicy::SharedArcs => col_arc(g, j),
        UvPolicy::RunningArcs => rows_total(g, i) + row_path(g, i, j),
    }
}

/// The accumulated `v` arc length at point `(i, j)`.
pub open spec fn v_arc(g: Seq<Vec<Point>>, pol: UvPolicy, i: int, j: int) -> nat {
    match pol {
        UvPolicy::SharedArcs => row_arc(g, i),
        UvPolicy::RunningArcs => cols_total(g, j) + col_path(g, j, i),
    }
}

/// Span of the `u` axis: the whole accumulated `u` arc length.
pub open spec fn u_span_of(g: Seq<Vec<Point>>, pol: UvPolicy) -> nat {
    match pol {
        UvPolicy::SharedArcs => col_arc(g, cols(g) - 1),
        UvPolicy::RunningArcs => rows_total(g, g.len() as int),
    }
}

/// Span of the `v` axis: the whole accumulated `v` arc length.
pub open spec fn v_span_of(g: Seq<Vec<Point>>, pol: UvPolicy) -> nat {
    match pol {
        UvPolicy::SharedArcs => row_arc(g, g.len() - 1),
        UvPolicy::RunningArcs => cols_total(g, cols(g) as int),
    }
}

/// A grid with a zero span has no texture coordinates.
pub open spec fn degenerate(g: Seq<Vec<Point>>, pol: UvPolicy) -> bool {
    u_span_of(g, pol) == 0 || v_span_of(g, pol) == 0
}

/// The texture coordinate of grid point `(i, j)`: `u` grows with the accumulated
/// arc length, `v` falls with it (it is flipped against the row order).
pub open spec fn uv_at(g: Seq<Vec<Point>>, pol: UvPolicy, i: int, j: int) -> Uv {
    Uv { u: u_arc(g, pol, i, j) as u128, v: (v_span_of(g, pol) - v_arc(g, pol, i, j)) as u128 }
}

proof fn lemma_row_path_mono(g: Seq<Vec<Point>>, r: int, j: int, k: int)
    requires
        j <= k,
    ensures
        row_path(g, r, j) <= row_path(g, r, k),
    decreases k - j,
{
    if j < k {
        lemma_row_path_mono(g, r, j, k - 1);
    }
}

proof fn lemma_col_path_mono(g: Seq<Vec<Point>>, c: int, i: int, k: int)
    requires
        i <= k,
    ensures
        col_path(g, c, i) <= col_path(g, c, k),
    decreases k - i,
{
    if i < k {
        lemma_col_path_mono(g, c, i, k - 1);
    }
}

proof fn lemma_rows_total_mono(g: Seq<Vec<Point>>, i: int, k: int)
    requires
        i <= k,
    ensures
        rows_total(g, i) <= rows_total(g, k),
    decreases k - i,
{
    if i < k {
        lemma_rows_total_mono(g, i, k - 1);
    }
}

proof fn lemma_cols_total_mono(g: Seq<Vec<Point>>, j: int, k: int)
    requires
        j <= k,
    ensures
        cols_total(g, j) <= cols_total(g, k),
    decreases k - j,
{
    if j < k {
        lemma_cols_total_mono(g, j, k - 1);
    }
}

/// Every accumulated arc length of a grid point lies within the span of its axis.
pub proof fn lemma_arcs_in_span(g: Seq<Vec<Point>>, pol: UvPolicy, i: int, j: int)
    requires
        grid_wf(g),
        0 <= i < g.len(),
        0 <= j < cols(g),
    ensures
        u_arc(g, pol, i, j) <= u_span_of(g, pol),
        v_arc(g, pol, i, j) <= v_span_of(g, pol),
{
    let p = g.len() as int;
    let l = cols(g) as int;
    match pol {
        UvPolicy::SharedArcs => {
            lemma_col_arc_mono(g, j, l - 1);
            lemma_row_arc_mono(g, i, p - 1);
        },
        UvPolicy::RunningArcs => {
            lemma_row_path_mono(g, i, j, l - 1);
            lemma_rows_total_mono(g, i + 1, p);
            lemma_col_path_mono(g, j, i, p - 1);
            lemma_cols_total_mono(g, j + 1, l);
        },
    }
}

/// Cumulative arc lengths along row 0, one per column.
pub fn column_arcs(g: &Vec<Vec<Point>>) -> (r: Vec<u128>)
    requires
        grid_wf(g@),
    ensures
        r@.len() == cols(g@),
        forall|j: int| 0 <= j < r@.len() ==> #[trigger] r@[j] == col_arc(g@, j),
{
    let row = &g[0];
    let l = row.len();
    let mut out: Vec<u128> = Vec::new();
    out.push(0);
    let mut acc: u128 = 0;
    let mut j: usize = 1;
    while j < l
        invariant
            *row == g@[0],
            l == row@.len(),
            1 <= j <= l,
            out@.len() == j,
            acc == col_arc(g@, j - 1),
            acc <= (j - 1) * SEG_BOUND,
            forall|k: int| 0 <= k < j ==> #[trigger] out@[k] == col_arc(g@, k),
        decreases l - j,
    {
        let d = segment_length(&row[j - 1], &row[j]);
        assert(j * SEG_BOUND < u128::MAX) by (nonlinear_arith)
            requires
                j <= usize::MAX,
        ;
        acc = acc + d;
        out.push(acc);
        j += 1;
    }
    out
}

/// Cumulative arc lengths down column 0, one per row.
pub fn row_arcs(g: &Vec<Vec<Point>>) -> (r: Vec<u128>)
    requires
        grid_wf(g@),
    ensures
        r@.len() == g@.len(),
        forall|i: int| 0 <= i < r@.len() ==> #[trigger] r@[i] == row_arc(g@, i),
{
    let p = g.len();
    let mut out: Vec<u128> = Vec::new();
    out.push(0);
    let mut acc: u128 = 0;
    let mut i: usize = 1;
    while i < p
        invariant
            grid_wf(g@),
            p == g@.len(),
            1 <= i <= p,
            out@.len() == i,
            acc == row_arc(g@, i - 1),
            acc <= (i - 1) * SEG_BOUND,
            forall|k: int| 0 <= k < i ==> #[trigger] out@[k] == row_arc(g@, k),
        decreases p - i,
    {
        assert(g@[i - 1]@.len() >= 2 && g@[i as int]@.len() >= 2);
        let d = segment_length(&g[i - 1][0], &g[i][0]);
        assert(i * SEG_BOUND < u128::MAX) by (nonlinear_arith)
            requires
                i <= usize::MAX,
        ;
        acc = acc + d;
        out.push(acc);
        i += 1;
    }
    out
}

/// A table of `rows` rows of `cols` accumulated arc lengths each, `t[a][b]` being
/// `f(a, b)`.
pub open spec fn is_table(t: Seq<Vec<u128>>, rows: nat, cols: nat, f: spec_fn(int, int) -> nat) -> bool {
    &&& t.len() == rows
    &&& is_rect(t, cols)
    &&& forall|a: int, b: int| 0 <= a < rows && 0 <= b < cols ==> #[trigger] t[a]@[b] == f(a, b)
}

/// The `u` arc lengths of the running policy, row by row, and their total.
fn running_u_table(g: &Vec<Vec<Point>>) -> (r: (Vec<Vec<u128>>, u128))
    requires
        grid_wf(g@),
        fits(g@),
    ensures
        is_table(r.0@, g@.len(), cols(g@), |a: int, b: int| u_arc(g@, UvPolicy::RunningArcs, a, b)),
        r.1 == u_span_of(g@, UvPolicy::RunningArcs),
{
    let p = g.len();
    let l = g[0].len();
    let mut t: Vec<Vec<u128>> = Vec::new();
    let mut acc: u128 = 0;
    let ghost mut k: int = 0;
    let mut i: usize = 0;
    while i < p
        invariant
            grid_wf(g@),
            fits(g@),
            p == g@.len(),
            l == cols(g@),
            i <= p,
            t@.len() == i,
            is_rect(t@, l as nat),
            acc == rows_total(g@, i as int),
            0 <= k <= i * l,
            acc <= k * SEG_BOUND,
            forall|a: int, b: int| 0 <= a < i && 0 <= b < l ==> #[trigger] t@[a]@[b] == rows_total(g@, a) + row_path(g@, a, b),
        decreases p - i,
    {
        let row = &g[i];
        let mut tr: Vec<u128> = Vec::new();
        tr.push(acc);
        let mut j: usize = 1;
        while j < l
            invariant
                grid_wf(g@),
                fits(g@),
                p == g@.len(),
                l == cols(g@),
                i < p,
                *row == g@[i as int],
                row@.len() == l,
                1 <= j <= l,
                tr@.len() == j,
                acc == rows_total(g@, i as int) + row_path(g@, i as int, j - 1),
                0 <= k <= i * l + j - 1,
                acc <= k * SEG_BOUND,
                forall|b: int| 0 <= b < j ==> #[trigger] tr@[b] == rows_total(g@, i as int) + row_path(g@, i as int, b),
            decreases l - j,
        {
            let d = segment_length(&row[j - 1], &row[j]);
            assert(p * l <= usize::MAX);
            assert((k + 1) * SEG_BOUND < u128::MAX) by (nonlinear_arith)
                requires
                    k + 1 <= i * l + j,
                    i < p,
                    j < l,
                    p * l <= usize::MAX,
            ;
            acc = acc + d;
            proof {
                assert((k + 1) * SEG_BOUND == k * SEG_BOUND + SEG_BOUND) by (nonlinear_arith);
                k = k + 1;
            }
            tr.push(acc);
            j += 1;
        }
        t.push(tr);
        proof {
            assert((i + 1) * l == i * l + l) by (nonlinear_arith);
            assert forall|a: int, b: int| 0 <= a < i + 1 && 0 <= b < l implies #[trigger] t@[a]@[b] == rows_total(g@, a) + row_path(g@, a, b) by {
                if a < i {
                }
            }
        }
        i += 1;
    }
    (t, acc)
}

/// The `v` arc lengths of the running policy, column by column, and their total.
fn running_v_table(g: &Vec<Vec<Point>>) -> (r: (Vec<Vec<u128>>, u128))
    requires
        grid_wf(g@),
        fits(g@),
    ensures
        is_table(r.0@, cols(g@), g@.len(), |b: int, a: int| v_arc(g@, UvPolicy::RunningArcs, a, b)),
        r.1 == v_span_of(g@, UvPolicy::RunningArcs),
{
    let p = g.len();
    let l = g[0].len();
    let mut t: Vec<Vec<u128>> = Vec::new();
    let mut acc: u128 = 0;
    let ghost mut k: int = 0;
    let mut j: usize = 0;
    while j < l
        invariant
            grid_wf(g@),
            fits(g@),
            p == g@.len(),
            l == cols(g@),
            j <= l,
            t@.len() == j,
            is_rect(t@, p as nat),
            acc == cols_total(g@, j as int),
            0 <= k <= j * p,
            acc <= k * SEG_BOUND,
            forall|b: int, a: int| 0 <= b < j && 0 <= a < p ==> #[trigger] t@[b]@[a] == cols_total(g@, b) + col_path(g@, b, a),
        decreases l - j,
    {
        let mut tc: Vec<u128> = Vec::new();
        tc.push(acc);
        let mut i: usize = 1;
        while i < p
            invariant
                grid_wf(g@),
                fits(g@),
                p == g@.len(),
                l == cols(g@),
                j < l,
                1 <= i <= p,
                tc@.len() == i,
                acc == cols_total(g@, j as int) + col_path(g@, j as int, i - 1),
                0 <= k <= j * p + i - 1,
                acc <= k * SEG_BOUND,
                forall|a: int| 0 <= a < i ==> #[trigger] tc@[a] == cols_total(g@, j as int) + col_path(g@, j as int, a),
            decreases p - i,
        {
            assert(g@[i - 1]@.len() == l && g@[i as int]@.len() == l);
            let d = segment_length(&g[i - 1][j], &g[i][j]);
            assert(p * g@[0]@.len() <= usize::MAX);
            assert((k + 1) * SEG_BOUND < u128::MAX) by (nonlinear_arith)
                requires
                    k + 1 <= j * p + i,
                    j < l,
                    i < p,
                    p * l <= usize::MAX,
            ;
            acc = acc + d;
            proof {
                assert((k + 1) * SEG_BOUND == k * SEG_BOUND + SEG_BOUND) by (nonlinear_arith);
                k = k + 1;
            }
            tc.push(acc);
            i += 1;
        }
        t.push(tc);
        proof {
            assert((j + 1) * p == j * p + p) by (nonlinear_arith);
            assert forall|b: int, a: int| 0 <= b < j + 1 && 0 <= a < p implies #[trigger] t@[b]@[a] == cols_total(g@, b) + col_path(g@, b, a) by {
                if b < j {
                }
            }
        }
        j += 1;
    }
    (t, acc)
}

/// `n` rows, each a copy of `vals`.
fn repeat_rows(n: usize, vals: &Vec<u128>) -> (r: Vec<Vec<u128>>)
    ensures
        r@.len() == n,
        is_rect(r@, vals@.len()),
        forall|a: int, b: int| 0 <= a < n && 0 <= b < vals@.len() ==> #[trigger] r@[a]@[b] == vals@[b],
{
    let mut t: Vec<Vec<u128>> = Vec::new();
    let mut a: usize = 0;
    while a < n
        invariant
            a <= n,
            t@.len() == a,
            is_rect(t@, vals@.len()),
            forall|x: int, b: int| 0 <= x < a && 0 <= b < vals@.len() ==> #[trigger] t@[x]@[b] == vals@[b],
        decreases n - a,
    {
        let mut row: Vec<u128> = Vec::new();
        let mut b: usize = 0;
        while b < vals.len()
            invariant
                b <= vals@.len(),
                row@ == vals@.take(b as int),
            decreases vals@.len() - b,
        {
            row.push(vals[b]);
            b += 1;
            assert(row@ =~= vals@.take(b as int));
        }
        assert(row@ =~= vals@);
        t.push(row);
        proof {
            assert forall|x: int, b: int| 0 <= x < a + 1 && 0 <= b < vals@.len() implies #[trigger] t@[x]@[b] == vals@[b] by {
                if x < a {
                }
            }
        }
        a += 1;
    }
    t
}

/// The accumulated arc lengths of every grid point under a policy: `u` row by row,
/// `v` column by column, then the spans of `u` and `v`.
pub fn arc_tables(g: &Vec<Vec<Point>>, pol: UvPolicy) -> (r: (Vec<Vec<u128>>, Vec<Vec<u128>>, u128, u128))
    requires
        grid_wf(g@),
        fits(g@),
    ensures
        is_table(r.0@, g@.len(), cols(g@), |a: int, b: int| u_arc(g@, pol, a, b)),
        is_table(r.1@, cols(g@), g@.len(), |b: int, a: int| v_arc(g@, pol, a, b)),
        r.2 == u_span_of(g@, pol),
        r.3 == v_span_of(g@, pol),
{
    match pol {
        UvPolicy::SharedArcs => {
            let cu = column_arcs(g);
            let rv = row_arcs(g);
            let ut = repeat_rows(g.len(), &cu);
            let vt = repeat_rows(g[0].len(), &rv);
            let u_span = cu[cu.len() - 1];
            let v_span = rv[rv.len() - 1];
            (ut, vt, u_span, v_span)
        },
        UvPolicy::RunningArcs => {
            let (ut, u_span) = running_u_table(g);
            let (vt, v_span) = running_v_table(g);
            (ut, vt, u_span, v_span)
        },
    }
}

} // verus!
