//! The ribbon mesh: built once from a grid, then re-positioned frame by frame.
use vstd::prelude::*;
use vstd::arithmetic::div_mod::lemma_fundamental_div_mod;
use crate::geometry::Point;
use crate::grid::{grid_wf, is_rect, cols, fits, flatten, flatten_rows, lemma_flatten_rect};
use crate::topology::{ribbon_indices, ribbon_index_list};
use crate::uv::{Uv, UvPolicy, uv_at, u_arc, v_arc, u_span_of, v_span_of, degenerate, arc_tables, is_table, lemma_arcs_in_span};

verus! {

/// Why a ribbon could not be built or re-positioned.
#[derive(Clone, Copy, Debug, PartialEq, Eq, Structural)]
pub enum RibbonError {
    /// The grid is empty, jagged, or has fewer than two rows or columns.
    MalformedGrid,
    /// The first row or the first column has arc length zero.
    DegenerateArcLength,
    /// The grid does not hold as many points as the mesh has vertices.
    ShapeMismatch,
}

/// What a mesh is: its buffers and the shape and spans it was built with.
pub struct MeshView {
    pub positions: Seq<Point>,
    pub uvs: Seq<Uv>,
    pub indices: Seq<usize>,
    pub rows: nat,
    pub cols: nat,
    pub u_span: nat,
    pub v_span: nat,
}

impl MeshView {
    /// The buffers agree with the shape: one position and one texture coordinate per
    /// grid point, the triangle list of the grid, and non-zero spans that bound every
    /// texture coordinate.
    pub open spec fn wf(&self) -> bool {
        &&& self.rows >= 2
        &&& self.cols >= 2
        &&& self.positions.len() == self.rows * self.cols
        &&& self.uvs.len() == self.rows * self.cols
        &&& self.indices == ribbon_indices(self.rows as int, self.cols as int)
        &&& self.u_span > 0
        &&& self.v_span > 0
        &&& forall|k: int|
            0 <= k < self.uvs.len() ==> (#[trigger] self.uvs[k]).u <= self.u_span && self.uvs[k].v
                <= self.v_span
    }
}

/// A triangulated ribbon. Its indices and texture coordinates are fixed when it is
/// built; only its positions change afterwards.
pub struct RibbonMesh {
    positions: Vec<Point>,
    uvs: Vec<Uv>,
    indices: Vec<usize>,
    rows: usize,
    cols: usize,
    u_span: u128,
    v_span: u128,
}

impl View for RibbonMesh {
    type V = MeshView;

    closed spec fn view(&self) -> MeshView {
        MeshView {
            positions: self.positions@,
            uvs: self.uvs@,
            indices: self.indices@,
            rows: self.rows as nat,
            cols: self.cols as nat,
            u_span: self.u_span as nat,
            v_span: self.v_span as nat,
        }
    }
}

/// The mesh built from a well-formed, non-degenerate grid: positions flattened row by
/// row, one texture coordinate per point in the same order, two triangles per quad.
pub open spec fn ribbon_of(g: Seq<Vec<Point>>, pol: UvPolicy) -> MeshView {
    let p = g.len();
    let l = cols(g);
    MeshView {
        positions: flatten(g),
        uvs: Seq::new(p * l, |k: int| uv_at(g, pol, k / l as int, k % l as int)),
        indices: ribbon_indices(p as int, l as int),
        rows: p,
        cols: l,
        u_span: u_span_of(g, pol),
        v_span: v_span_of(g, pol),
    }
}

impl RibbonMesh {
    /// The vertex positions, in grid order.
    pub fn positions(&self) -> (r: &Vec<Point>)
        ensures
            r@ == self@.positions,
    {
        &self.positions
    }

    /// The texture coordinates, one per vertex.
    pub fn uvs(&self) -> (r: &Vec<Uv>)
        ensures
            r@ == self@.uvs,
    {
        &self.uvs
    }

    /// The triangle list, three entries per triangle.
    pub fn indices(&self) -> (r: &Vec<usize>)
        ensures
            r@ == self@.indices,
    {
        &self.indices
    }

    /// Number of rows of the grid the mesh was built from.
    pub fn rows(&self) -> (r: usize)
        ensures
            r == self@.rows,
    {
        self.rows
    }

    /// Number of columns of the grid the mesh was built from.
    pub fn cols(&self) -> (r: usize)
        ensures
            r == self@.cols,
    {
        self.cols
    }

    /// The span that `u` numerators are divided by.
    pub fn u_span(&self) -> (r: u128)
        ensures
            r == self@.u_span,
    {
        self.u_span
    }

    /// The span that `v` numerators are divided by.
    pub fn v_span(&self) -> (r: u128)
        ensures
            r == self@.v_span,
    {
        self.v_span
    }
}

/// Checks that a grid has at least two rows, all as long as the first, which holds
/// at least two points.
pub fn check_grid(g: &Vec<Vec<Point>>) -> (r: bool)
    ensures
        r == grid_wf(g@),
{
    if g.len() < 2 || g[0].len() < 2 {
        return false;
    }
    let l = g[0].len();
    let mut i: usize = 1;
    while i < g.len()
        invariant
            1 <= i <= g@.len(),
            l == g@[0]@.len(),
            forall|k: int| 0 <= k < i ==> (#[trigger] g@[k])@.len() == l,
        decreases g@.len() - i,
    {
        if g[i].len() != l {
            return false;
        }
        i += 1;
    }
    true
}

/// Builds the ribbon mesh of a grid, with texture coordinates accumulated under
/// `pol`.
pub fn build_ribbon_with(g: &Vec<Vec<Point>>, pol: UvPolicy) -> (r: Result<RibbonMesh, RibbonError>)
    requires
        fits(g@),
    ensures
        r matches Err(RibbonError::MalformedGrid) <==> !grid_wf(g@),
        r matches Err(RibbonError::DegenerateArcLength) <==> grid_wf(g@) && degenerate(g@, pol),
        r is Ok <==> grid_wf(g@) && !degenerate(g@, pol),
        r is Ok ==> r->Ok_0@ == ribbon_of(g@, pol),
        r is Ok ==> r->Ok_0@.wf(),
{
    if !check_grid(g) {
        return Err(RibbonError::MalformedGrid);
    }
    let p = g.len();
    let l = g[0].len();
    let (ut, vt, u_span, v_span) = arc_tables(g, pol);
    if u_span == 0 || v_span == 0 {
        return Err(RibbonError::DegenerateArcLength);
    }
    proof {
        lemma_flatten_rect(g@, l as nat);
        assert(p * l * 6 <= usize::MAX);
    }
    let positions = flatten_rows(g);
    let mut rows: Vec<Vec<Uv>> = Vec::new();
    let mut i: usize = 0;
    while i < p
        invariant
            grid_wf(g@),
            p == g@.len(),
            l == cols(g@),
            i <= p,
            rows@.len() == i,
            v_span == v_span_of(g@, pol),
            is_table(ut@, p as nat, l as nat, |a: int, b: int| u_arc(g@, pol, a, b)),
            is_table(vt@, l as nat, p as nat, |b: int, a: int| v_arc(g@, pol, a, b)),
            is_rect(rows@, l as nat),
            forall|a: int, b: int| 0 <= a < i && 0 <= b < l ==> #[trigger] rows@[a]@[b] == uv_at(g@, pol, a, b),
        decreases p - i,
    {
        let mut row: Vec<Uv> = Vec::new();
        let mut j: usize = 0;
        while j < l
            invariant
                grid_wf(g@),
                p == g@.len(),
                l == cols(g@),
                i < p,
                v_span == v_span_of(g@, pol),
                is_table(ut@, p as nat, l as nat, |a: int, b: int| u_arc(g@, pol, a, b)),
                is_table(vt@, l as nat, p as nat, |b: int, a: int| v_arc(g@, pol, a, b)),
                j <= l,
                row@.len() == j,
                forall|b: int| 0 <= b < j ==> #[trigger] row@[b] == uv_at(g@, pol, i as int, b),
            decreases l - j,
        {
            proof {
                lemma_arcs_in_span(g@, pol, i as int, j as int);
                assert(ut@[i as int]@[j as int] == u_arc(g@, pol, i as int, j as int));
                assert(vt@[j as int]@[i as int] == v_arc(g@, pol, i as int, j as int));
            }
            let u = ut[i][j];
            let v = v_span - vt[j][i];
            row.push(Uv { u, v });
            j += 1;
        }
        rows.push(row);
        proof {
            assert forall|a: int, b: int| 0 <= a < i + 1 && 0 <= b < l implies #[trigger] rows@[a]@[b] == uv_at(g@, pol, a, b) by {
                if a < i {
                }
            }
        }
        i += 1;
    }
    proof {
        lemma_flatten_rect(rows@, l as nat);
    }
    let uvs = flatten_rows(&rows);
    let indices = ribbon_index_list(p, l);
    let mesh = RibbonMesh { positions, uvs, indices, rows: p, cols: l, u_span, v_span };
    proof {
        let want = ribbon_of(g@, pol);
        assert forall|k: int| 0 <= k < p * l implies #[trigger] uvs@[k] == want.uvs[k] by {
            lemma_fundamental_div_mod(k, l as int);
            let a = k / l as int;
            let b = k % l as int;
            assert(0 <= a < p) by (nonlinear_arith)
                requires
                    k == l * a + b,
                    0 <= b < l,
                    0 <= k < p * l,
                    l > 0,
            ;
            assert(k == a * l + b) by (nonlinear_arith)
                requires
                    k == l * a + b,
            ;
            assert(uvs@[a * l + b] == rows@[a]@[b]);
            assert(rows@[a]@[b] == uv_at(g@, pol, a, b));
            assert(want.uvs[k] == uv_at(g@, pol, a, b));
        }
        assert(mesh@.uvs =~= want.uvs);
        crate::laws::lemma_ribbon_counts(g@, pol);
        crate::laws::lemma_uv_range(g@, pol);
    }
    Ok(mesh)
}

/// Builds the ribbon mesh of a grid, with `u` following row 0 and `v` column 0.
pub fn build_ribbon(g: &Vec<Vec<Point>>) -> (r: Result<RibbonMesh, RibbonError>)
    requires
        fits(g@),
    ensures
        r matches Err(RibbonError::MalformedGrid) <==> !grid_wf(g@),
        r matches Err(RibbonError::DegenerateArcLength) <==> grid_wf(g@) && degenerate(g@, UvPolicy::SharedArcs),
        r is Ok <==> grid_wf(g@) && !degenerate(g@, UvPolicy::SharedArcs),
        r is Ok ==> r->Ok_0@ == ribbon_of(g@, UvPolicy::SharedArcs),
        r is Ok ==> r->Ok_0@.wf(),
{
    build_ribbon_with(g, UvPolicy::SharedArcs)
}

/// Replaces the positions of `mesh` with the points of `g`, flattened row by row as
/// at build time. Indices and texture coordinates are left as they are. Fails,
/// leaving the mesh unchanged, where `g` does not hold as many points as the mesh
/// has vertices.
pub fn morph_ribbon(mesh: &mut RibbonMesh, g: &Vec<Vec<Point>>) -> (r: Result<(), RibbonError>)
    ensures
        r is Ok <==> flatten(g@).len() == old(mesh)@.positions.len(),
        r is Err ==> r == Err::<(), RibbonError>(RibbonError::ShapeMismatch) && final(mesh)@ == old(mesh)@,
        r is Ok ==> final(mesh)@ == (MeshView { positions: flatten(g@), ..old(mesh)@ }),
        old(mesh)@.wf() ==> final(mesh)@.wf(),
{
    let n = mesh.positions.len();
    let mut total: usize = 0;
    let mut i: usize = 0;
    assert(g@.take(0) =~= Seq::<Vec<Point>>::empty());
    while i < g.len()
        invariant
            n == mesh.positions@.len(),
            i <= g@.len(),
            total == flatten(g@.take(i as int)).len(),
            total <= n,
        decreases g@.len() - i,
    {
        proof {
            crate::grid::lemma_flatten_take(g@, i as int);
        }
        if g[i].len() > n - total {
            proof {
                crate::grid::lemma_flatten_prefix_len(g@, (i + 1) as int);
            }
            return Err(RibbonError::ShapeMismatch);
        }
        total = total + g[i].len();
        i += 1;
    }
    assert(g@.take(i as int) =~= g@);
    if total != n {
        return Err(RibbonError::ShapeMismatch);
    }
    mesh.positions = flatten_rows(g);
    Ok(())
}

} // verus!
