use vstd::prelude::*;
use crate::matrix::{
    add_fits, grid_add, grid_mul, grid_row, grid_transpose, mismatch, mul_fits, zeros, Grid, Matrix,
    MatrixError,
};

verus! {

/// The input at step `k`: row `k` of `u`, as a column.
pub open spec fn input_col(u: Grid, k: int) -> Grid {
    grid_transpose(grid_row(u, k))
}

/// The state entering step `k`: `x[0] = x0`, `x[k+1] = A x[k] + B u[k]`.
pub open spec fn state(a: Grid, b: Grid, x0: Grid, u: Grid, k: nat) -> Grid
    decreases k,
{
    if k == 0 {
        x0
    } else {
        let p = state(a, b, x0, u, (k - 1) as nat);
        grid_add(grid_mul(a, p), grid_mul(b, input_col(u, k - 1)))
    }
}

/// The output of step `k`: `y[k] = C x[k] + D u[k]`, from the state entering the step.
pub open spec fn output(a: Grid, b: Grid, c: Grid, d: Grid, x0: Grid, u: Grid, k: nat) -> Grid {
    let x = state(a, b, x0, u, k);
    grid_add(grid_mul(c, x), grid_mul(d, input_col(u, k as int)))
}

/// Every product and sum of step `k` fits in an `i64`.
pub open spec fn step_fits(a: Grid, b: Grid, c: Grid, d: Grid, x0: Grid, u: Grid, k: nat) -> bool {
    let x = state(a, b, x0, u, k);
    let uk = input_col(u, k as int);
    &&& mul_fits(a, x)
    &&& mul_fits(b, uk)
    &&& add_fits(grid_mul(a, x), grid_mul(b, uk))
    &&& mul_fits(c, x)
    &&& mul_fits(d, uk)
    &&& add_fits(grid_mul(c, x), grid_mul(d, uk))
}

/// The first shape mismatch that a step meets, in the order in which a step
/// multiplies, adds and appends; `None` when the shapes fit together.
pub open spec fn shape_error(a: Grid, b: Grid, c: Grid, d: Grid, x0: Grid, u: Grid) -> Option<MatrixError> {
    let uk = input_col(u, 0);
    if a.cols != x0.rows {
        Some(mismatch(a, x0))
    } else if b.cols != u.cols {
        Some(mismatch(b, uk))
    } else if a.rows != b.rows || x0.cols != 1 {
        Some(mismatch(grid_mul(a, x0), grid_mul(b, uk)))
    } else if c.cols != x0.rows {
        Some(mismatch(c, x0))
    } else if d.cols != u.cols {
        Some(mismatch(d, uk))
    } else if c.rows != d.rows {
        Some(mismatch(grid_mul(c, x0), grid_mul(d, uk)))
    } else if x0.rows != a.rows {
        Some(mismatch(x0, grid_mul(a, x0)))
    } else {
        None
    }
}

/// States `0..=n` as the columns of an `x0.rows` by `n + 1` grid.
pub open spec fn state_trajectory(a: Grid, b: Grid, x0: Grid, u: Grid, n: nat) -> Grid {
    Grid {
        rows: x0.rows,
        cols: n + 1,
        vals: Seq::new(x0.rows, |i: int| Seq::new(n + 1, |k: int| state(a, b, x0, u, k as nat).at(i, 0))),
    }
}

/// Outputs `0..n` as the columns of a `c.rows` by `n` grid.
pub open spec fn output_trajectory(a: Grid, b: Grid, c: Grid, d: Grid, x0: Grid, u: Grid, n: nat) -> Grid {
    Grid {
        rows: c.rows,
        cols: n,
        vals: Seq::new(c.rows, |i: int| Seq::new(n, |k: int| output(a, b, c, d, x0, u, k as nat).at(i, 0))),
    }
}

/// A discrete-time linear system `x[k+1] = A x[k] + B u[k]`, `y[k] = C x[k] + D u[k]`,
/// started from `x0`.
pub struct System {
    pub a: Matrix,
    pub b: Matrix,
    pub c: Matrix,
    pub d: Matrix,
    pub x0: Matrix,
}

impl System {
    /// Holds the five matrices as given; shapes are checked when simulating.
    pub fn new(a: Matrix, b: Matrix, c: Matrix, d: Matrix, x0: Matrix) -> (r: System)
        ensures
            r.a == a,
            r.b == b,
            r.c == c,
            r.d == d,
            r.x0 == x0,
    {
        System { a, b, c, d, x0 }
    }

    /// All five matrices are well formed.
    pub open spec fn wf(&self) -> bool {
        self.a.wf() && self.b.wf() && self.c.wf() && self.d.wf() && self.x0.wf()
    }

    /// The first shape mismatch that a step of the simulation of `u` would meet.
    pub fn check_shapes(&self, u: &Matrix) -> (r: Option<MatrixError>)
        ensures
            r == shape_error(self.a@, self.b@, self.c@, self.d@, self.x0@, u@),
    {
        let (ar, ac) = self.a.size();
        let (br, bc) = self.b.size();
        let (cr, cc) = self.c.size();
        let (dr, dc) = self.d.size();
        let (xr, xc) = self.x0.size();
        let m = u.cols();
        if ac != xr {
            Some(self.a.show_matrix_dim_error(&self.x0))
        } else if bc != m {
            Some(MatrixError::DimensionMismatch { left_rows: br, left_cols: bc, right_rows: m, right_cols: 1 })
        } else if ar != br || xc != 1 {
            Some(MatrixError::DimensionMismatch { left_rows: ar, left_cols: xc, right_rows: br, right_cols: 1 })
        } else if cc != xr {
            Some(self.c.show_matrix_dim_error(&self.x0))
        } else if dc != m {
            Some(MatrixError::DimensionMismatch { left_rows: dr, left_cols: dc, right_rows: m, right_cols: 1 })
        } else if cr != dr {
            Some(MatrixError::DimensionMismatch { left_rows: cr, left_cols: 1, right_rows: dr, right_cols: 1 })
        } else if xr != ar {
            Some(MatrixError::DimensionMismatch { left_rows: xr, left_cols: xc, right_rows: ar, right_cols: 1 })
        } else {
            None
        }
    }

    /// Runs the system on the inputs `u`, one step per row. Returns the states
    /// as columns, the initial one first (`u.rows + 1` columns), and the
    /// outputs as columns, each computed from the state entering its step
    /// (`u.rows` columns). With no steps, the state trajectory is `x0` itself.
    /// A shape mismatch is reported before any arithmetic is done.
    pub fn simulate(&self, u: Matrix) -> (r: Result<(Matrix, Matrix), MatrixError>)
        requires
            self.wf(),
            u.wf(),
            u@.rows < usize::MAX,
        ensures
            ({
                let (a, b, c, d, x0, g) = (self.a@, self.b@, self.c@, self.d@, self.x0@, u@);
                let n = g.rows;
                match r {
                    Ok((x, y)) => x.wf() && y.wf() && (n == 0 ==> x@ == x0 && y@ == zeros(c.rows, 0)) && (n > 0
                        ==> shape_error(a, b, c, d, x0, g) is None
                        && (forall|k: nat| k < n ==> #[trigger] step_fits(a, b, c, d, x0, g, k))
                        && x@ == state_trajectory(a, b, x0, g, n)
                        && y@ == output_trajectory(a, b, c, d, x0, g, n)),
                    Err(e) => n > 0 && match shape_error(a, b, c, d, x0, g) {
                        Some(s) => e == s,
                        None => e == MatrixError::Overflow && !(forall|k: nat| k < n ==> #[trigger] step_fits(a, b, c, d, x0, g, k)),
                    },
                }
            }),
    {
        let n = u.rows();
        if n == 0 {
            return Ok((self.x0.copy(), Matrix::new(self.c.rows(), 0)));
        }
        match self.check_shapes(&u) {
            Some(e) => {
                return Err(e);
            },
            None => {},
        }
        let ghost (a, b, c, d, x0, g) = (self.a@, self.b@, self.c@, self.d@, self.x0@, u@);
        proof {
            Matrix::lemma_view_wf(&self.x0);
            Matrix::lemma_view_wf(&self.c);
            Matrix::lemma_view_wf(&u);
        }
        let mut current = self.x0.copy();
        let mut x = self.x0.copy();
        let mut y = Matrix::new(self.c.rows(), 0);
        proof {
            assert(x@.vals =~~= state_trajectory(a, b, x0, g, 0).vals);
            assert(y@.vals =~~= output_trajectory(a, b, c, d, x0, g, 0).vals);
        }
        let mut k: usize = 0;
        while k < n
            invariant
                self.wf(),
                u.wf(),
                (a, b, c, d, x0, g) == (self.a@, self.b@, self.c@, self.d@, self.x0@, u@),
                n == g.rows,
                n < usize::MAX,
                shape_error(a, b, c, d, x0, g) is None,
                k <= n,
                current.wf(),
                current@ == state(a, b, x0, g, k as nat),
                current@.rows == x0.rows,
                current@.cols == 1,
                x.wf(),
                x@ == state_trajectory(a, b, x0, g, k as nat),
                y.wf(),
                y@ == output_trajectory(a, b, c, d, x0, g, k as nat),
                forall|t: nat| t < k ==> #[trigger] step_fits(a, b, c, d, x0, g, t),
            decreases n - k,
        {
            let uk = u.get_row(k).transpose();
            assert(uk@ == input_col(g, k as int));
            let ax = self.a.multiply(&current);
            let bu = self.b.multiply(&uk);
            let (ax, bu) = match (ax, bu) {
                (Ok(p), Ok(q)) => (p, q),
                _ => {
                    assert(!step_fits(a, b, c, d, x0, g, k as nat));
                    return Err(MatrixError::Overflow);
                },
            };
            let next = match ax.add(&bu) {
                Ok(v) => v,
                Err(_) => {
                    assert(!step_fits(a, b, c, d, x0, g, k as nat));
                    return Err(MatrixError::Overflow);
                },
            };
            let cx = self.c.multiply(&current);
            let du = self.d.multiply(&uk);
            let (cx, du) = match (cx, du) {
                (Ok(p), Ok(q)) => (p, q),
                _ => {
                    assert(!step_fits(a, b, c, d, x0, g, k as nat));
                    return Err(MatrixError::Overflow);
                },
            };
            let out = match cx.add(&du) {
                Ok(v) => v,
                Err(_) => {
                    assert(!step_fits(a, b, c, d, x0, g, k as nat));
                    return Err(MatrixError::Overflow);
                },
            };
            assert(step_fits(a, b, c, d, x0, g, k as nat));
            assert(next@ == state(a, b, x0, g, (k + 1) as nat));
            assert(out@ == output(a, b, c, d, x0, g, k as nat));
            current = next;
            let ghost xs = x@;
            let ghost ys = y@;
            let ry = y.append_col(&out);
            let rx = x.append_col(&current);
            assert(ry is Ok && rx is Ok);
            proof {
                assert(x@.vals =~~= state_trajectory(a, b, x0, g, (k + 1) as nat).vals);
                assert(y@.vals =~~= output_trajectory(a, b, c, d, x0, g, (k + 1) as nat).vals);
            }
            k += 1;
        }
        Ok((x, y))
    }
}

} // verus!
