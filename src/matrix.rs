use vstd::prelude::*;

verus! {

/// The mathematical value of a matrix: its shape and its entries, row by row.
pub struct Grid {
    pub rows: nat,
    pub cols: nat,
    pub vals: Seq<Seq<int>>,
}

impl Grid {
    /// `vals` holds `rows` rows of `cols` entries each.
    pub open spec fn wf(self) -> bool {
        &&& self.vals.len() == self.rows
        &&& forall|i: int| 0 <= i < self.rows ==> #[trigger] self.vals[i].len() == self.cols
    }

    pub open spec fn at(self, i: int, j: int) -> int {
        self.vals[i][j]
    }
}

/// The all-zero grid of the given shape.
pub open spec fn zeros(rows: nat, cols: nat) -> Grid {
    Grid { rows, cols, vals: Seq::new(rows, |i: int| Seq::new(cols, |j: int| 0int)) }
}

/// Whether an integer fits in an `i64`.
pub open spec fn fits(x: int) -> bool {
    i64::MIN <= x <= i64::MAX
}

/// The error that reports the shapes of two operands.
pub open spec fn mismatch(a: Grid, b: Grid) -> MatrixError {
    MatrixError::DimensionMismatch {
        left_rows: a.rows as usize,
        left_cols: a.cols as usize,
        right_rows: b.rows as usize,
        right_cols: b.cols as usize,
    }
}

/// Whether two grids have the same shape.
pub open spec fn same_shape(a: Grid, b: Grid) -> bool {
    a.rows == b.rows && a.cols == b.cols
}

/// The entrywise sum, shaped like `a`.
pub open spec fn grid_add(a: Grid, b: Grid) -> Grid {
    Grid {
        rows: a.rows,
        cols: a.cols,
        vals: Seq::new(a.rows, |i: int| Seq::new(a.cols, |j: int| a.at(i, j) + b.at(i, j))),
    }
}

/// Every entry of the sum fits in an `i64`.
pub open spec fn add_fits(a: Grid, b: Grid) -> bool {
    forall|i: int, j: int| 0 <= i < a.rows && 0 <= j < a.cols ==> fits(#[trigger] (a.at(i, j) + b.at(i, j)))
}

/// `a[i][0] * b[0][j] + ... + a[i][k-1] * b[k-1][j]`, summed in increasing `k`.
pub open spec fn dot(a: Grid, b: Grid, i: int, j: int, k: nat) -> int
    decreases k,
{
    if k == 0 {
        0
    } else {
        dot(a, b, i, j, (k - 1) as nat) + a.at(i, k - 1) * b.at(k - 1, j)
    }
}

/// The matrix product, `a.rows` by `b.cols`.
pub open spec fn grid_mul(a: Grid, b: Grid) -> Grid {
    Grid {
        rows: a.rows,
        cols: b.cols,
        vals: Seq::new(a.rows, |i: int| Seq::new(b.cols, |j: int| dot(a, b, i, j, a.cols))),
    }
}

/// The `k`-th term of cell `(i, j)` and the partial sum that ends with it fit in an `i64`.
pub open spec fn term_fits(a: Grid, b: Grid, i: int, j: int, k: nat) -> bool {
    fits(a.at(i, k - 1) * b.at(k - 1, j)) && fits(dot(a, b, i, j, k))
}

/// Every term and every partial sum of the product fits in an `i64`.
pub open spec fn mul_fits(a: Grid, b: Grid) -> bool {
    forall|i: int, j: int, k: nat|
        0 <= i < a.rows && 0 <= j < b.cols && 1 <= k <= a.cols ==> #[trigger] term_fits(a, b, i, j, k)
}

/// Rows and columns exchanged.
pub open spec fn grid_transpose(a: Grid) -> Grid {
    Grid {
        rows: a.cols,
        cols: a.rows,
        vals: Seq::new(a.cols, |j: int| Seq::new(a.rows, |i: int| a.at(i, j))),
    }
}

/// `a` with the first column of `c` added on its right.
pub open spec fn grid_append_col(a: Grid, c: Grid) -> Grid {
    Grid {
        rows: a.rows,
        cols: a.cols + 1,
        vals: Seq::new(a.rows, |i: int| a.vals[i].push(c.at(i, 0))),
    }
}

/// Row `i` of `a`, as a one-row grid.
pub open spec fn grid_row(a: Grid, i: int) -> Grid {
    Grid { rows: 1, cols: a.cols, vals: seq![a.vals[i]] }
}

/// Column `j` of `a`, as a one-column grid.
pub open spec fn grid_col(a: Grid, j: int) -> Grid {
    Grid { rows: a.rows, cols: 1, vals: Seq::new(a.rows, |i: int| seq![a.at(i, j)]) }
}

/// Why a matrix operation failed.
#[derive(Clone, Copy, Debug, PartialEq, Eq, Structural)]
pub enum MatrixError {
    /// The operands' shapes do not fit the operation: rows and columns of each.
    DimensionMismatch { left_rows: usize, left_cols: usize, right_rows: usize, right_cols: usize },
    /// An entry, or a partial sum of a product, does not fit in an `i64`.
    Overflow,
}

/// An entrywise copy of `row`.
fn copy_row(row: &Vec<i64>) -> (r: Vec<i64>)
    ensures
        r@ == row@,
{
    let mut r: Vec<i64> = Vec::new();
    let mut k: usize = 0;
    while k < row.len()
        invariant
            k <= row@.len(),
            r@ == row@.subrange(0, k as int),
        decreases row@.len() - k,
    {
        r.push(row[k]);
        k += 1;
        assert(r@ =~= row@.subrange(0, k as int));
    }
    assert(r@ =~= row@);
    r
}

/// A dense matrix of `i64` entries, stored row by row.
pub struct Matrix {
    rows: usize,
    cols: usize,
    data: Vec<Vec<i64>>,
}

impl View for Matrix {
    type V = Grid;

    closed spec fn view(&self) -> Grid {
        Grid {
            rows: self.rows as nat,
            cols: self.cols as nat,
            vals: Seq::new(self.data@.len(), |i: int| Seq::new(self.data@[i]@.len(), |j: int| self.data@[i]@[j] as int)),
        }
    }
}

impl Matrix {
    /// Every stored row has `cols` entries and there are `rows` of them.
    pub closed spec fn wf(&self) -> bool {
        &&& self.data@.len() == self.rows
        &&& forall|i: int| 0 <= i < self.rows ==> #[trigger] self.data@[i]@.len() == self.cols
    }

    pub broadcast proof fn lemma_view_wf(m: &Matrix)
        requires
            m.wf(),
        ensures
            #[trigger] m@.wf(),
    {
    }

    /// Every entry of a matrix fits in an `i64`.
    pub proof fn lemma_entries_fit(m: &Matrix)
        requires
            m.wf(),
        ensures
            forall|i: int, j: int| 0 <= i < m@.rows && 0 <= j < m@.cols ==> fits(#[trigger] m@.at(i, j)),
    {
    }

    /// A `rows` by `cols` matrix of zeros.
    pub fn new(rows: usize, cols: usize) -> (r: Matrix)
        ensures
            r.wf(),
            r@ == zeros(rows as nat, cols as nat),
    {
        let mut data: Vec<Vec<i64>> = Vec::new();
        let mut i: usize = 0;
        while i < rows
            invariant
                i <= rows,
                data@.len() == i,
                forall|k: int| 0 <= k < i ==> #[trigger] data@[k]@ == Seq::new(cols as nat, |j: int| 0i64),
            decreases rows - i,
        {
            let mut row: Vec<i64> = Vec::new();
            let mut j: usize = 0;
            while j < cols
                invariant
                    j <= cols,
                    row@ == Seq::new(j as nat, |t: int| 0i64),
                decreases cols - j,
            {
                row.push(0);
                j += 1;
                assert(row@ =~= Seq::new(j as nat, |t: int| 0i64));
            }
            data.push(row);
            i += 1;
        }
        let r = Matrix { rows, cols, data };
        assert(r@.vals =~~= zeros(rows as nat, cols as nat).vals);
        r
    }

    /// The number of rows.
    pub fn rows(&self) -> (r: usize)
        ensures
            r == self@.rows,
    {
        self.rows
    }

    /// The number of columns.
    pub fn cols(&self) -> (r: usize)
        ensures
            r == self@.cols,
    {
        self.cols
    }

    /// `(rows, cols)`.
    pub fn size(&self) -> (r: (usize, usize))
        ensures
            r.0 == self@.rows,
            r.1 == self@.cols,
    {
        (self.rows, self.cols)
    }

    /// The entry in row `i`, column `j`.
    pub fn get(&self, i: usize, j: usize) -> (r: i64)
        requires
            self.wf(),
            i < self@.rows,
            j < self@.cols,
        ensures
            r == self@.at(i as int, j as int),
    {
        self.data[i][j]
    }

    /// Replaces the entry in row `i`, column `j` with `v`.
    pub fn set(&mut self, i: usize, j: usize, v: i64)
        requires
            old(self).wf(),
            i < old(self)@.rows,
            j < old(self)@.cols,
        ensures
            final(self).wf(),
            final(self)@ == (Grid { vals: old(self)@.vals.update(i as int, old(self)@.vals[i as int].update(j as int, v as int)), ..old(self)@ }),
    {
        let mut row = copy_row(&self.data[i]);
        row.set(j, v);
        self.data.set(i, row);
        proof {
            let g = Grid { vals: old(self)@.vals.update(i as int, old(self)@.vals[i as int].update(j as int, v as int)), ..old(self)@ };
            assert(self@.vals =~~= g.vals);
        }
    }

    /// Builds a matrix from its rows; `None` when they differ in length.
    /// No rows give the empty `0` by `0` matrix.
    pub fn from_rows(data: Vec<Vec<i64>>) -> (r: Option<Matrix>)
        ensures
            r is Some <==> forall|i: int| 0 <= i < data@.len() ==> #[trigger] data@[i]@.len() == data@[0]@.len(),
            r matches Some(m) ==> m.wf() && m@.rows == data@.len() && m@.cols == (if data@.len() == 0 { 0 } else { data@[0]@.len() })
                && m@.vals == Seq::new(data@.len(), |i: int| Seq::new(data@[i]@.len(), |j: int| data@[i]@[j] as int)),
    {
        let rows = data.len();
        if rows == 0 {
            return Some(Matrix { rows: 0, cols: 0, data });
        }
        let cols = data[0].len();
        let mut i: usize = 0;
        while i < rows
            invariant
                rows == data@.len(),
                cols == data@[0]@.len(),
                i <= rows,
                forall|k: int| 0 <= k < i ==> #[trigger] data@[k]@.len() == cols,
            decreases rows - i,
        {
            if data[i].len() != cols {
                return None;
            }
            i += 1;
        }
        Some(Matrix { rows, cols, data })
    }

    /// An independent copy.
    pub fn copy(&self) -> (r: Matrix)
        requires
            self.wf(),
        ensures
            r.wf(),
            r@ == self@,
    {
        let mut data: Vec<Vec<i64>> = Vec::new();
        let mut i: usize = 0;
        while i < self.rows
            invariant
                self.wf(),
                i <= self.rows,
                data@.len() == i,
                forall|k: int| 0 <= k < i ==> #[trigger] data@[k]@ == self.data@[k]@,
            decreases self.rows - i,
        {
            data.push(copy_row(&self.data[i]));
            i += 1;
        }
        let r = Matrix { rows: self.rows, cols: self.cols, data };
        assert(r@.vals =~~= self@.vals);
        r
    }

    /// Row `i` as a `1` by `cols` matrix.
    pub fn get_row(&self, i: usize) -> (r: Matrix)
        requires
            self.wf(),
            i < self@.rows,
        ensures
            r.wf(),
            r@ == grid_row(self@, i as int),
    {
        let mut data: Vec<Vec<i64>> = Vec::new();
        data.push(copy_row(&self.data[i]));
        let r = Matrix { rows: 1, cols: self.cols, data };
        assert(r@.vals =~~= grid_row(self@, i as int).vals);
        r
    }

    /// Column `j` as a `rows` by `1` matrix.
    pub fn get_col(&self, j: usize) -> (r: Matrix)
        requires
            self.wf(),
            j < self@.cols,
        ensures
            r.wf(),
            r@ == grid_col(self@, j as int),
    {
        let mut data: Vec<Vec<i64>> = Vec::new();
        let mut i: usize = 0;
        while i < self.rows
            invariant
                self.wf(),
                j < self.cols,
                i <= self.rows,
                data@.len() == i,
                forall|k: int| 0 <= k < i ==> #[trigger] data@[k]@ == seq![self.data@[k]@[j as int]],
            decreases self.rows - i,
        {
            let mut row: Vec<i64> = Vec::new();
            row.push(self.data[i][j]);
            data.push(row);
            i += 1;
        }
        let r = Matrix { rows: self.rows, cols: 1, data };
        assert(r@.vals =~~= grid_col(self@, j as int).vals);
        r
    }

    /// The error that reports this matrix's shape and `other`'s.
    pub fn show_matrix_dim_error(&self, other: &Matrix) -> (r: MatrixError)
        ensures
            r == mismatch(self@, other@),
    {
        MatrixError::DimensionMismatch {
            left_rows: self.rows,
            left_cols: self.cols,
            right_rows: other.rows,
            right_cols: other.cols,
        }
    }

    /// The entrywise sum. The shapes must be equal.
    pub fn add(&self, other: &Matrix) -> (r: Result<Matrix, MatrixError>)
        requires
            self.wf(),
            other.wf(),
        ensures
            match r {
                Ok(m) => same_shape(self@, other@) && add_fits(self@, other@) && m.wf() && m@ == grid_add(self@, other@),
                Err(e) => if !same_shape(self@, other@) {
                    e == mismatch(self@, other@)
                } else {
                    e == MatrixError::Overflow && !add_fits(self@, other@)
                },
            },
    {
        if self.rows != other.rows || self.cols != other.cols {
            return Err(self.show_matrix_dim_error(other));
        }
        let mut data: Vec<Vec<i64>> = Vec::new();
        let mut i: usize = 0;
        while i < self.rows
            invariant
                self.wf(),
                other.wf(),
                same_shape(self@, other@),
                i <= self.rows,
                data@.len() == i,
                forall|k: int| 0 <= k < i ==> #[trigger] data@[k]@.len() == self.cols,
                forall|k: int, t: int| 0 <= k < i && 0 <= t < self.cols ==> #[trigger] data@[k]@[t] as int == self@.at(k, t) + other@.at(k, t),
            decreases self.rows - i,
        {
            let mut row: Vec<i64> = Vec::new();
            let mut j: usize = 0;
            while j < self.cols
                invariant
                    self.wf(),
                    other.wf(),
                    same_shape(self@, other@),
                    i < self.rows,
                    j <= self.cols,
                    row@.len() == j,
                    forall|t: int| 0 <= t < j ==> #[trigger] row@[t] as int == self@.at(i as int, t) + other@.at(i as int, t),
                decreases self.cols - j,
            {
                match self.data[i][j].checked_add(other.data[i][j]) {
                    Some(v) => row.push(v),
                    None => {
                        assert(!fits(self@.at(i as int, j as int) + other@.at(i as int, j as int)));
                        return Err(MatrixError::Overflow);
                    },
                }
                j += 1;
            }
            data.push(row);
            i += 1;
        }
        assert forall|i: int, j: int| 0 <= i < self@.rows && 0 <= j < self@.cols implies fits(
            #[trigger] (self@.at(i, j) + other@.at(i, j)),
        ) by {
            assert(data@[i]@[j] as int == self@.at(i, j) + other@.at(i, j));
        }
        let r = Matrix { rows: self.rows, cols: self.cols, data };
        assert(r@.vals =~~= grid_add(self@, other@).vals);
        Ok(r)
    }

    /// Rows and columns exchanged: a `cols` by `rows` matrix.
    pub fn transpose(&self) -> (r: Matrix)
        requires
            self.wf(),
        ensures
            r.wf(),
            r@ == grid_transpose(self@),
    {
        let mut data: Vec<Vec<i64>> = Vec::new();
        let mut j: usize = 0;
        while j < self.cols
            invariant
                self.wf(),
                j <= self.cols,
                data@.len() == j,
                forall|k: int| 0 <= k < j ==> #[trigger] data@[k]@.len() == self.rows,
                forall|k: int, t: int| 0 <= k < j && 0 <= t < self.rows ==> #[trigger] data@[k]@[t] == self.data@[t]@[k],
            decreases self.cols - j,
        {
            let mut row: Vec<i64> = Vec::new();
            let mut i: usize = 0;
            while i < self.rows
                invariant
                    self.wf(),
                    j < self.cols,
                    i <= self.rows,
                    row@.len() == i,
                    forall|t: int| 0 <= t < i ==> #[trigger] row@[t] == self.data@[t]@[j as int],
                decreases self.rows - i,
            {
                row.push(self.data[i][j]);
                i += 1;
            }
            data.push(row);
            j += 1;
        }
        let r = Matrix { rows: self.cols, cols: self.rows, data };
        assert(r@.vals =~~= grid_transpose(self@).vals);
        r
    }

    /// The matrix product `self * other`, with each cell summed over `k` in
    /// increasing order. Needs `self.cols == other.rows`.
    pub fn multiply(&self, other: &Matrix) -> (r: Result<Matrix, MatrixError>)
        requires
            self.wf(),
            other.wf(),
        ensures
            match r {
                Ok(m) => self@.cols == other@.rows && mul_fits(self@, other@) && m.wf() && m@ == grid_mul(self@, other@),
                Err(e) => if self@.cols != other@.rows {
                    e == mismatch(self@, other@)
                } else {
                    e == MatrixError::Overflow && !mul_fits(self@, other@)
                },
            },
    {
        if self.cols != other.rows {
            return Err(self.show_matrix_dim_error(other));
        }
        let ghost a = self@;
        let ghost b = other@;
        let mut data: Vec<Vec<i64>> = Vec::new();
        let mut i: usize = 0;
        while i < self.rows
            invariant
                self.wf(),
                other.wf(),
                a == self@,
                b == other@,
                self.cols == other.rows,
                i <= self.rows,
                data@.len() == i,
                forall|k: int| 0 <= k < i ==> #[trigger] data@[k]@.len() == other.cols,
                forall|k: int, t: int| 0 <= k < i && 0 <= t < other.cols ==> #[trigger] data@[k]@[t] as int == dot(a, b, k, t, a.cols),
                forall|k: int, t: int, s: nat| 0 <= k < i && 0 <= t < b.cols && 1 <= s <= a.cols ==> #[trigger] term_fits(a, b, k, t, s),
            decreases self.rows - i,
        {
            let mut row: Vec<i64> = Vec::new();
            let mut j: usize = 0;
            while j < other.cols
                invariant
                    self.wf(),
                    other.wf(),
                    a == self@,
                    b == other@,
                    self.cols == other.rows,
                    i < self.rows,
                    j <= other.cols,
                    row@.len() == j,
                    forall|t: int| 0 <= t < j ==> #[trigger] row@[t] as int == dot(a, b, i as int, t, a.cols),
                    forall|k: int, t: int, s: nat| 0 <= k < i && 0 <= t < b.cols && 1 <= s <= a.cols ==> #[trigger] term_fits(a, b, k, t, s),
                    forall|t: int, s: nat| 0 <= t < j && 1 <= s <= a.cols ==> #[trigger] term_fits(a, b, i as int, t, s),
                decreases other.cols - j,
            {
                let mut acc: i64 = 0;
                let mut k: usize = 0;
                while k < self.cols
                    invariant
                        self.wf(),
                        other.wf(),
                        a == self@,
                        b == other@,
                        self.cols == other.rows,
                        i < self.rows,
                        j < other.cols,
                        k <= self.cols,
                        acc as int == dot(a, b, i as int, j as int, k as nat),
                        forall|s: nat| 1 <= s <= k ==> #[trigger] term_fits(a, b, i as int, j as int, s),
                    decreases self.cols - k,
                {
                    let x = self.data[i][k];
                    let y = other.data[k][j];
                    match x.checked_mul(y) {
                        Some(p) => match acc.checked_add(p) {
                            Some(v) => {
                                acc = v;
                            },
                            None => {
                                assert(!term_fits(a, b, i as int, j as int, (k + 1) as nat));
                                return Err(MatrixError::Overflow);
                            },
                        },
                        None => {
                            assert(!term_fits(a, b, i as int, j as int, (k + 1) as nat));
                            return Err(MatrixError::Overflow);
                        },
                    }
                    k += 1;
                }
                row.push(acc);
                j += 1;
            }
            data.push(row);
            i += 1;
        }
        let r = Matrix { rows: self.rows, cols: other.cols, data };
        assert(r@.vals =~~= grid_mul(a, b).vals);
        Ok(r)
    }

    /// Adds the single column of `other` on the right of this matrix.
    /// `other` must be one column with as many rows as this matrix;
    /// otherwise this matrix is left as it was.
    pub fn append_col(&mut self, other: &Matrix) -> (r: Result<(), MatrixError>)
        requires
            old(self).wf(),
            other.wf(),
            old(self)@.cols < usize::MAX,
        ensures
            match r {
                Ok(()) => other@.rows == old(self)@.rows && other@.cols == 1 && final(self).wf()
                    && final(self)@ == grid_append_col(old(self)@, other@),
                Err(e) => !(other@.rows == old(self)@.rows && other@.cols == 1) && e == mismatch(old(self)@, other@)
                    && *final(self) == *old(self),
            },
    {
        if self.rows != other.rows || other.cols != 1 {
            return Err(self.show_matrix_dim_error(other));
        }
        let ghost g = self@;
        let mut data: Vec<Vec<i64>> = Vec::new();
        let mut i: usize = 0;
        while i < self.rows
            invariant
                self.wf(),
                other.wf(),
                g == self@,
                other.rows == self.rows,
                other.cols == 1,
                i <= self.rows,
                data@.len() == i,
                forall|k: int| 0 <= k < i ==> #[trigger] data@[k]@ == self.data@[k]@.push(other.data@[k]@[0]),
            decreases self.rows - i,
        {
            let mut row = copy_row(&self.data[i]);
            row.push(other.data[i][0]);
            data.push(row);
            i += 1;
        }
        self.data = data;
        self.cols = self.cols + 1;
        assert(self@.vals =~~= grid_append_col(g, other@).vals);
        Ok(())
    }
}

} // verus!
