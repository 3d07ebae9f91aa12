//! Grids of points: their shape and their row-major flattening.
use vstd::prelude::*;
use crate::geometry::Point;

verus! {

/// Every row of `g` holds exactly `cols` items.
pub open spec fn is_rect<T>(g: Seq<Vec<T>>, cols: nat) -> bool {
    forall|i: int| 0 <= i < g.len() ==> (#[trigger] g[i])@.len() == cols
}

/// A grid fit for a ribbon: at least two rows, all of one length, at least two.
pub open spec fn grid_wf(g: Seq<Vec<Point>>) -> bool {
    &&& g.len() >= 2
    &&& g[0]@.len() >= 2
    &&& is_rect(g, g[0]@.len())
}

/// Number of columns of a grid (the length of its first row).
pub open spec fn cols<T>(g: Seq<Vec<T>>) -> nat {
    g[0]@.len()
}

/// The grid is small enough that six index entries per point fit in `usize`.
pub open spec fn fits(g: Seq<Vec<Point>>) -> bool {
    forall|i: int| 0 <= i < g.len() ==> g.len() * (#[trigger] g[i])@.len() * 6 <= usize::MAX
}

/// The rows of `g` laid end to end, first row first.
pub open spec fn flatten<T>(g: Seq<Vec<T>>) -> Seq<T>
    decreases g.len(),
{
    if g.len() == 0 {
        Seq::empty()
    } else {
        flatten(g.drop_last()) + g.last()@
    }
}

/// In a rectangular grid, item `(i, j)` lands at `i * cols + j` once flattened.
pub proof fn lemma_flatten_rect<T>(g: Seq<Vec<T>>, l: nat)
    requires
        is_rect(g, l),
    ensures
        flatten(g).len() == g.len() * l,
        forall|i: int, j: int|
            0 <= i < g.len() && 0 <= j < l ==> flatten(g)[i * l + j] == #[trigger] g[i]@[j],
    decreases g.len(),
{
    if g.len() > 0 {
        let h = g.drop_last();
        assert(is_rect(h, l)) by {
            assert forall|i: int| 0 <= i < h.len() implies (#[trigger] h[i])@.len() == l by {
                assert(h[i] == g[i]);
            }
        }
        lemma_flatten_rect(h, l);
        let n = (g.len() - 1) as int;
        assert(g.last()@.len() == l);
        assert((n + 1) * l == n * l + l) by (nonlinear_arith);
        assert forall|i: int, j: int|
            0 <= i < g.len() && 0 <= j < l implies flatten(g)[i * l + j] == #[trigger] g[i]@[j] by {
            if i < n {
                assert(i * l + j < n * l) by (nonlinear_arith)
                    requires
                        0 <= i < n,
                        0 <= j < l,
                ;
                assert(h[i] == g[i]);
            } else {
                assert(i * l == n * l);
            }
        }
    }
}

pub proof fn lemma_flatten_take<T>(g: Seq<Vec<T>>, i: int)
    requires
        0 <= i < g.len(),
    ensures
        flatten(g.take(i + 1)) == flatten(g.take(i)) + g[i]@,
{
    assert(g.take(i + 1).drop_last() =~= g.take(i));
}

/// The rows of `g` laid end to end.
pub fn flatten_rows<T: Copy>(g: &Vec<Vec<T>>) -> (r: Vec<T>)
    requires
        flatten(g@).len() <= usize::MAX,
    ensures
        r@ == flatten(g@),
{
    let mut out: Vec<T> = Vec::new();
    let mut i: usize = 0;
    assert(g@.take(0) =~= Seq::<Vec<T>>::empty());
    while i < g.len()
        invariant
            i <= g@.len(),
            out@ == flatten(g@.take(i as int)),
            flatten(g@).len() <= usize::MAX,
        decreases g@.len() - i,
    {
        let row = &g[i];
        proof {
            lemma_flatten_take(g@, i as int);
            lemma_flatten_prefix_len(g@, (i + 1) as int);
        }
        let mut j: usize = 0;
        while j < row.len()
            invariant
                i < g@.len(),
                *row == g@[i as int],
                j <= row@.len(),
                out@ == flatten(g@.take(i as int)) + row@.take(j as int),
                flatten(g@.take(i as int)).len() + row@.len() <= usize::MAX,
            decreases row@.len() - j,
        {
            out.push(row[j]);
            j += 1;
            assert(row@.take(j as int) =~= row@.take(j - 1) .push(row@[j - 1]));
        }
        assert(row@.take(j as int) =~= row@);
        i += 1;
    }
    assert(g@.take(i as int) =~= g@);
    out
}

/// A prefix of the rows flattens to no more items than all of them.
pub proof fn lemma_flatten_prefix_len<T>(g: Seq<Vec<T>>, i: int)
    requires
        0 <= i <= g.len(),
    ensures
        flatten(g.take(i)).len() <= flatten(g).len(),
    decreases g.len() - i,
{
    if i < g.len() {
        lemma_flatten_prefix_len(g, i + 1);
        lemma_flatten_take(g, i);
    } else {
        assert(g.take(i) =~= g);
    }
}

} // verus!
