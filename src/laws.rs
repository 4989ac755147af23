use vstd::prelude::*;
use crate::matrix::{
    add_fits, dot, fits, grid_add, grid_append_col, grid_col, grid_mul, grid_transpose, mul_fits,
    term_fits, zeros, Grid, Matrix,
};

verus! {

/// Adding the zero matrix of the same shape never overflows and gives the
/// matrix back unchanged.
pub proof fn law_add_zero(a: &Matrix)
    requires
        a.wf(),
    ensures
        add_fits(a@, zeros(a@.rows, a@.cols)),
        grid_add(a@, zeros(a@.rows, a@.cols)) == a@,
{
    Matrix::lemma_view_wf(a);
    Matrix::lemma_entries_fit(a);
    let z = zeros(a@.rows, a@.cols);
    assert forall|i: int, j: int| 0 <= i < a@.rows && 0 <= j < a@.cols implies fits(
        #[trigger] (a@.at(i, j) + z.at(i, j)),
    ) by {
        assert(fits(a@.at(i, j)));
    }
    assert(grid_add(a@, z).vals =~~= a@.vals);
}

proof fn lemma_dot_transposed(a: Grid, b: Grid, i: int, j: int, k: nat)
    requires
        a.wf(),
        b.wf(),
        a.cols == b.rows,
        0 <= i < a.rows,
        0 <= j < b.cols,
        k <= a.cols,
    ensures
        dot(grid_transpose(b), grid_transpose(a), j, i, k) == dot(a, b, i, j, k),
    decreases k,
{
    if k > 0 {
        lemma_dot_transposed(a, b, i, j, (k - 1) as nat);
        let x = a.at(i, k - 1);
        let y = b.at(k - 1, j);
        assert(y * x == x * y) by (nonlinear_arith);
    }
}

/// Transposing a product gives the product of the transposes in the other
/// order, and the two products overflow on the same operands.
pub proof fn law_transpose_of_product(a: Grid, b: Grid)
    requires
        a.wf(),
        b.wf(),
        a.cols == b.rows,
    ensures
        grid_transpose(grid_mul(a, b)) == grid_mul(grid_transpose(b), grid_transpose(a)),
        mul_fits(a, b) <==> mul_fits(grid_transpose(b), grid_transpose(a)),
{
    let (ta, tb) = (grid_transpose(a), grid_transpose(b));
    assert forall|i: int, j: int, k: nat| 0 <= i < a.rows && 0 <= j < b.cols && k <= a.cols implies #[trigger] dot(
        tb,
        ta,
        j,
        i,
        k,
    ) == dot(a, b, i, j, k) by {
        lemma_dot_transposed(a, b, i, j, k);
    }
    assert(grid_transpose(grid_mul(a, b)).vals =~~= grid_mul(tb, ta).vals);
    assert forall|j: int, i: int, k: nat| 0 <= j < b.cols && 0 <= i < a.rows && 1 <= k <= a.cols implies (
    #[trigger] term_fits(tb, ta, j, i, k) <==> term_fits(a, b, i, j, k)) by {
        lemma_dot_transposed(a, b, i, j, k);
        let x = a.at(i, k - 1);
        let y = b.at(k - 1, j);
        assert(y * x == x * y) by (nonlinear_arith);
    }
    if mul_fits(a, b) {
        assert forall|j: int, i: int, k: nat| 0 <= j < b.cols && 0 <= i < a.rows && 1 <= k <= a.cols implies #[trigger] term_fits(
            tb,
            ta,
            j,
            i,
            k,
        ) by {
            assert(term_fits(a, b, i, j, k));
        }
    }
    if mul_fits(tb, ta) {
        assert forall|i: int, j: int, k: nat| 0 <= i < a.rows && 0 <= j < b.cols && 1 <= k <= a.cols implies #[trigger] term_fits(
            a,
            b,
            i,
            j,
            k,
        ) by {
            assert(term_fits(tb, ta, j, i, k));
        }
    }
}

/// Transposing twice gives the matrix back.
pub proof fn law_transpose_twice(a: Grid)
    requires
        a.wf(),
    ensures
        grid_transpose(grid_transpose(a)) == a,
{
    assert(grid_transpose(grid_transpose(a)).vals =~~= a.vals);
}

/// Starting from `rows` by `0` zeros and appending the first `k` columns of
/// `m`, one at a time, in order.
pub open spec fn append_cols(m: Grid, k: nat) -> Grid
    decreases k,
{
    if k == 0 {
        zeros(m.rows, 0)
    } else {
        grid_append_col(append_cols(m, (k - 1) as nat), grid_col(m, k - 1))
    }
}

proof fn lemma_append_cols_prefix(m: Grid, k: nat)
    requires
        m.wf(),
        k <= m.cols,
    ensures
        append_cols(m, k) == (Grid {
            rows: m.rows,
            cols: k,
            vals: Seq::new(m.rows, |i: int| m.vals[i].subrange(0, k as int)),
        }),
    decreases k,
{
    if k > 0 {
        lemma_append_cols_prefix(m, (k - 1) as nat);
    }
    let g = Grid { rows: m.rows, cols: k, vals: Seq::new(m.rows, |i: int| m.vals[i].subrange(0, k as int)) };
    assert(append_cols(m, k).vals =~~= g.vals);
}

/// Appending the columns of a matrix one at a time to an empty matrix with
/// the same number of rows rebuilds the matrix, for any number of columns.
pub proof fn law_append_cols_rebuilds(m: Grid)
    requires
        m.wf(),
    ensures
        append_cols(m, m.cols) == m,
{
    lemma_append_cols_prefix(m, m.cols);
    assert(append_cols(m, m.cols).vals =~~= m.vals);
}

} // verus!
