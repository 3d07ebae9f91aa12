//! Properties that tie the ribbon's functions together.
use vstd::prelude::*;
use vstd::arithmetic::div_mod::lemma_fundamental_div_mod_converse;
use crate::geometry::Point;
use crate::grid::{grid_wf, cols, lemma_flatten_rect};
use crate::topology::lemma_quads_len;
use crate::uv::{UvPolicy, uv_at, degenerate, lemma_arcs_in_span};
use crate::mesh::ribbon_of;
use crate::paths::is_update;

verus! {

/// A ribbon built from a `p` by `l` grid has `p * l` positions, `p * l` texture
/// coordinates and `(p - 1) * (l - 1) * 2` triangles, three index entries each.
pub proof fn lemma_ribbon_counts(g: Seq<Vec<Point>>, pol: UvPolicy)
    requires
        grid_wf(g),
    ensures
        ribbon_of(g, pol).positions.len() == g.len() * cols(g),
        ribbon_of(g, pol).uvs.len() == g.len() * cols(g),
        ribbon_of(g, pol).indices.len() == 3 * ((g.len() - 1) * (cols(g) - 1) * 2),
{
    let p = g.len() as int;
    let l = cols(g) as int;
    lemma_flatten_rect(g, cols(g));
    assert((p - 1) * (l - 1) >= 0) by (nonlinear_arith)
        requires
            p >= 2,
            l >= 2,
    ;
    lemma_quads_len(l, (p - 1) * (l - 1));
}

/// Grid point `(i, j)` is vertex `i * l + j` of the ribbon: its position is the
/// point itself, and its texture coordinate is the one of `(i, j)`.
pub proof fn lemma_vertex_mapping(g: Seq<Vec<Point>>, pol: UvPolicy, i: int, j: int)
    requires
        grid_wf(g),
        0 <= i < g.len(),
        0 <= j < cols(g),
    ensures
        ribbon_of(g, pol).positions[i * cols(g) + j] == g[i]@[j],
        ribbon_of(g, pol).uvs[i * cols(g) + j] == uv_at(g, pol, i, j),
{
    let p = g.len() as int;
    let l = cols(g) as int;
    lemma_flatten_rect(g, cols(g));
    lemma_fundamental_div_mod_converse(i * l + j, l, i, j);
    assert(i * l + j < p * l) by (nonlinear_arith)
        requires
            0 <= i < p,
            0 <= j < l,
    ;
}

/// Every texture coordinate of a ribbon whose spans are not zero lies in `[0, 1]`:
/// its numerators are at most the spans they are divided by.
pub proof fn lemma_uv_range(g: Seq<Vec<Point>>, pol: UvPolicy)
    requires
        grid_wf(g),
        !degenerate(g, pol),
    ensures
        ribbon_of(g, pol).u_span > 0,
        ribbon_of(g, pol).v_span > 0,
        forall|k: int|
            0 <= k < ribbon_of(g, pol).uvs.len() ==> {
                &&& (#[trigger] ribbon_of(g, pol).uvs[k]).u <= ribbon_of(g, pol).u_span
                &&& ribbon_of(g, pol).uvs[k].v <= ribbon_of(g, pol).v_span
            },
{
    let m = ribbon_of(g, pol);
    let l = cols(g) as int;
    assert forall|k: int| 0 <= k < m.uvs.len() implies {
        &&& (#[trigger] m.uvs[k]).u <= m.u_span
        &&& m.uvs[k].v <= m.v_span
    } by {
        let i = k / l;
        let j = k % l;
        assert(0 <= i < g.len()) by (nonlinear_arith)
            requires
                0 <= k < g.len() * l,
                l > 0,
                i == k / l,
        ;
        lemma_arcs_in_span(g, pol, i, j);
    }
}

/// Updating twice with the same wave values and phase gives the grid of one update:
/// heights depend only on `x`, which an update keeps.
pub proof fn lemma_update_idempotent(
    g: Seq<Vec<Point>>,
    waves: Seq<i32>,
    phase: i32,
    once: Seq<Vec<Point>>,
    twice: Seq<Vec<Point>>,
)
    requires
        is_update(g, waves, phase, once),
        is_update(once, waves, phase, twice),
    ensures
        twice.len() == once.len(),
        forall|i: int| 0 <= i < once.len() ==> (#[trigger] twice[i])@ == once[i]@,
{
    assert forall|i: int| 0 <= i < once.len() implies (#[trigger] twice[i])@ == once[i]@ by {
        assert forall|j: int| 0 <= j < once[i]@.len() implies twice[i]@[j] == once[i]@[j] by {
            assert(twice[i]@[j] == crate::paths::waved(once[i]@[j], waves[i + j] as int, phase as int));
            assert(once[i]@[j] == crate::paths::waved(g[i]@[j], waves[i + j] as int, phase as int));
        }
        assert(twice[i]@ =~= once[i]@);
    }
}

/// Two updates of one grid with the same wave values and phase agree.
pub proof fn lemma_update_deterministic(
    g: Seq<Vec<Point>>,
    waves: Seq<i32>,
    phase: i32,
    a: Seq<Vec<Point>>,
    b: Seq<Vec<Point>>,
)
    requires
        is_update(g, waves, phase, a),
        is_update(g, waves, phase, b),
    ensures
        a.len() == b.len(),
        forall|i: int| 0 <= i < a.len() ==> (#[trigger] a[i])@ == b[i]@,
{
    assert forall|i: int| 0 <= i < a.len() implies (#[trigger] a[i])@ == b[i]@ by {
        assert forall|j: int| 0 <= j < a[i]@.len() implies a[i]@[j] == b[i]@[j] by {
            assert(a[i]@[j] == crate::paths::waved(g[i]@[j], waves[i + j] as int, phase as int));
        }
        assert(a[i]@ =~= b[i]@);
    }
}

} // verus!
