//! The triangle list of a ribbon: two triangles per quad of the grid, one winding
//! for all of them.
use vstd::prelude::*;
use vstd::arithmetic::div_mod::lemma_fundamental_div_mod_converse;

verus! {

/// The six index entries of quad `(i, j)` of a grid with `l` columns: the triangles
/// `(i0, i1, j1)` and `(j1, j0, i0)`, where `i0`, `i1` are the quad's corners on
/// row `i` and `j0`, `j1` those on row `i + 1`.
pub open spec fn quad_indices(l: int, i: int, j: int) -> Seq<usize> {
    let i0 = (i * l + j) as usize;
    let i1 = (i * l + j + 1) as usize;
    let j0 = ((i + 1) * l + j) as usize;
    let j1 = ((i + 1) * l + j + 1) as usize;
    seq![i0, i1, j1, j1, j0, i0]
}

/// The index entries of the first `n` quads, in row-major quad order, for a grid
/// with `l` columns.
pub open spec fn quads_upto(l: int, n: int) -> Seq<usize>
    decreases n,
{
    if n <= 0 || l < 2 {
        Seq::empty()
    } else {
        quads_upto(l, n - 1) + quad_indices(l, (n - 1) / (l - 1), (n - 1) % (l - 1))
    }
}

/// The whole index list of a ribbon with `p` rows and `l` columns.
pub open spec fn ribbon_indices(p: int, l: int) -> Seq<usize> {
    quads_upto(l, (p - 1) * (l - 1))
}

/// Each quad contributes six entries.
pub proof fn lemma_quads_len(l: int, n: int)
    requires
        l >= 2,
        n >= 0,
    ensures
        quads_upto(l, n).len() == 6 * n,
    decreases n,
{
    if n > 0 {
        lemma_quads_len(l, n - 1);
    }
}

/// Entries `6q .. 6q + 6` are those of quad `q`, that is of row `q / (l - 1)`
/// and column `q % (l - 1)`.
pub proof fn lemma_quads_index(l: int, n: int, q: int, c: int)
    requires
        l >= 2,
        0 <= q < n,
        0 <= c < 6,
    ensures
        quads_upto(l, n)[6 * q + c] == quad_indices(l, q / (l - 1), q % (l - 1))[c],
    decreases n,
{
    lemma_quads_len(l, n - 1);
    if q < n - 1 {
        lemma_quads_index(l, n - 1, q, c);
    }
}

/// The index list of a ribbon with `p` rows and `l` columns.
pub fn ribbon_index_list(p: usize, l: usize) -> (r: Vec<usize>)
    requires
        p >= 2,
        l >= 2,
        p * l * 6 <= usize::MAX,
    ensures
        r@ == ribbon_indices(p as int, l as int),
        r@.len() == 6 * (p - 1) * (l - 1),
        forall|k: int| 0 <= k < r@.len() ==> (#[trigger] r@[k]) < p * l,
{
    let mut out: Vec<usize> = Vec::new();
    let ghost mut n: int = 0;
    let mut i: usize = 0;
    while i < p - 1
        invariant
            2 <= p,
            2 <= l,
            p * l * 6 <= usize::MAX,
            i <= p - 1,
            n == i * (l - 1),
            out@ == quads_upto(l as int, n),
            forall|k: int| 0 <= k < out@.len() ==> (#[trigger] out@[k]) < p * l,
        decreases p - 1 - i,
    {
        let mut j: usize = 0;
        while j < l - 1
            invariant
                2 <= p,
                2 <= l,
                p * l * 6 <= usize::MAX,
                i < p - 1,
                j <= l - 1,
                n == i * (l - 1) + j,
                out@ == quads_upto(l as int, n),
                forall|k: int| 0 <= k < out@.len() ==> (#[trigger] out@[k]) < p * l,
            decreases l - 1 - j,
        {
            assert((i + 1) * l + j + 1 < p * l && (i + 1) * l + j + 1 == i * l + j + 1 + l) by (nonlinear_arith)
                requires
                    i + 1 < p,
                    j + 1 < l,
            ;
            let i0: usize = i * l + j;
            let i1: usize = i0 + 1;
            let j0: usize = i0 + l;
            let j1: usize = j0 + 1;
            proof {
                lemma_fundamental_div_mod_converse(n, l - 1, i as int, j as int);
                assert(i * l + j == ((i * l + j) as usize) as int);
            }
            let ghost before = out@;
            out.push(i0);
            out.push(i1);
            out.push(j1);
            out.push(j1);
            out.push(j0);
            out.push(i0);
            proof {
                assert((i + 1) * l == i * l + l) by (nonlinear_arith);
                assert(out@ =~= before + quad_indices(l as int, i as int, j as int));
                n = n + 1;
                assert(n - 1 >= 0);
            }
            j += 1;
        }
        proof {
            assert(n == (i + 1) * (l - 1)) by (nonlinear_arith)
                requires
                    n == i * (l - 1) + (l - 1),
            ;
        }
        i += 1;
    }
    proof {
        lemma_quads_len(l as int, n);
        assert(6 * n == 6 * (p - 1) * (l - 1)) by (nonlinear_arith)
            requires
                n == (p - 1) * (l - 1),
        ;
    }
    out
}

} // verus!
