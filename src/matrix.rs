use vstd::prelude::*;

use crate::error::KfError;

verus! {

/// The entry in row `i` and column `j` of a buffer that stores a matrix with
/// `rows` rows column by column.
pub open spec fn col_major<T>(s: Seq<T>, rows: nat, i: int, j: int) -> T
    recommends
        0 <= i < rows,
        0 <= j,
{
    s[j * rows + i]
}

/// Where the entry in row `i` and column `j` lies in a column-major buffer with
/// `rows` rows and `cols` columns.
pub proof fn lemma_index_in_bounds(rows: nat, cols: nat, i: int, j: int)
    requires
        0 <= i < rows,
        0 <= j < cols,
    ensures
        0 <= j * rows + i < rows * cols,
        j * rows + i < (j + 1) * rows,
        j * rows <= j * rows + i,
{
    assert(0 <= j * rows) by (nonlinear_arith)
        requires
            0 <= j,
    ;
    assert((j + 1) * rows <= rows * cols) by (nonlinear_arith)
        requires
            j + 1 <= cols,
    ;
    assert((j + 1) * rows == j * rows + rows) by (nonlinear_arith);
}

/// A dense matrix stored column by column: the entry in row `i` and column `j`
/// sits at index `j * rows + i` of the buffer.
#[derive(Debug)]
pub struct Mat<T> {
    pub(crate) rows: usize,
    pub(crate) cols: usize,
    pub(crate) data: Vec<T>,
}

impl<T> View for Mat<T> {
    /// Number of rows, number of columns, and the entries in column-major order.
    type V = (nat, nat, Seq<T>);

    closed spec fn view(&self) -> (nat, nat, Seq<T>) {
        (self.rows as nat, self.cols as nat, self.data@)
    }
}

impl<T> Mat<T> {
    /// The buffer holds exactly one entry per position of the matrix.
    #[verifier::type_invariant]
    pub open spec fn wf(&self) -> bool {
        &&& self.entries().len() == self.num_rows() * self.num_cols()
        &&& self.num_rows() * self.num_cols() <= usize::MAX
    }

    pub open spec fn num_rows(&self) -> nat {
        self@.0
    }

    pub open spec fn num_cols(&self) -> nat {
        self@.1
    }

    pub open spec fn entries(&self) -> Seq<T> {
        self@.2
    }

    pub open spec fn has_shape(&self, rows: nat, cols: nat) -> bool {
        self.num_rows() == rows && self.num_cols() == cols
    }

    /// The entry in row `i` and column `j`.
    pub open spec fn entry(&self, i: int, j: int) -> T {
        col_major(self.entries(), self.num_rows(), i, j)
    }

    /// Number of rows.
    pub fn nrows(&self) -> (r: usize)
        ensures
            r == self.num_rows(),
    {
        self.rows
    }

    /// Number of columns.
    pub fn ncols(&self) -> (r: usize)
        ensures
            r == self.num_cols(),
    {
        self.cols
    }

    /// The entries in column-major order.
    pub fn as_slice(&self) -> (r: &[T])
        ensures
            r@ == self.entries(),
    {
        self.data.as_slice()
    }

    /// Builds a `rows × cols` matrix from its entries given column by column.
    /// Fails with `ShapeMismatch` unless there are exactly `rows * cols` entries.
    pub fn from_columns(rows: usize, cols: usize, data: Vec<T>) -> (r: Result<Mat<T>, KfError>)
        ensures
            r is Ok <==> data@.len() == rows * cols,
            r is Err ==> r == Err::<Mat<T>, KfError>(KfError::ShapeMismatch),
            r matches Ok(m) ==> m@ == (rows as nat, cols as nat, data@),
    {
        let len = data.len();
        match rows.checked_mul(cols) {
            Some(n) => {
                if len == n {
                    Ok(Mat { rows, cols, data })
                } else {
                    Err(KfError::ShapeMismatch)
                }
            },
            None => Err(KfError::ShapeMismatch),
        }
    }

    /// A column vector holding `data`.
    pub fn column(data: Vec<T>) -> (r: Mat<T>)
        ensures
            r@ == (data@.len(), 1nat, data@),
    {
        let n = data.len();
        Mat { rows: n, cols: 1, data }
    }
}

impl<T: Copy> Mat<T> {
    /// The entry in row `i` and column `j`, if that position exists.
    pub fn get(&self, i: usize, j: usize) -> (r: Option<T>)
        ensures
            r is Some <==> i < self.num_rows() && j < self.num_cols(),
            r is Some ==> r == Some(self.entry(i as int, j as int)),
    {
        proof {
            use_type_invariant(self);
        }
        if i < self.rows && j < self.cols {
            proof {
                lemma_index_in_bounds(self.rows as nat, self.cols as nat, i as int, j as int);
            }
            Some(self.data[j * self.rows + i])
        } else {
            None
        }
    }

    /// The transpose: a `cols × rows` matrix whose entry `(i, j)` is entry `(j, i)` of `self`.
    pub fn transpose(&self) -> (r: Mat<T>)
        ensures
            r.has_shape(self.num_cols(), self.num_rows()),
            forall|i: int, j: int|
                0 <= i < self.num_cols() && 0 <= j < self.num_rows() ==> #[trigger] r.entry(i, j)
                    == self.entry(j, i),
    {
        proof {
            use_type_invariant(self);
        }
        let rows = self.cols;
        let cols = self.rows;
        let mut data: Vec<T> = Vec::new();
        let mut j: usize = 0;
        while j < cols
            invariant
                self.wf(),
                rows == self.num_cols(),
                cols == self.num_rows(),
                j <= cols,
                data@.len() == j * rows,
                forall|jj: int, ii: int|
                    0 <= jj < j && 0 <= ii < rows ==> #[trigger] col_major(data@, rows as nat, ii, jj)
                        == self.entry(jj, ii),
            decreases cols - j,
        {
            let mut i: usize = 0;
            while i < rows
                invariant
                    self.wf(),
                    rows == self.num_cols(),
                    cols == self.num_rows(),
                    j < cols,
                    i <= rows,
                    data@.len() == j * rows + i,
                    forall|jj: int, ii: int|
                        0 <= jj < j && 0 <= ii < rows ==> #[trigger] col_major(
                            data@,
                            rows as nat,
                            ii,
                            jj,
                        ) == self.entry(jj, ii),
                    forall|ii: int|
                        0 <= ii < i ==> #[trigger] col_major(data@, rows as nat, ii, j as int)
                            == self.entry(j as int, ii),
                decreases rows - i,
            {
                proof {
                    lemma_index_in_bounds(cols as nat, rows as nat, j as int, i as int);
                    lemma_index_in_bounds(rows as nat, cols as nat, i as int, j as int);
                }
                let v = self.data[i * self.rows + j];
                let ghost before = data@;
                data.push(v);
                proof {
                    assert forall|jj: int, ii: int|
                        0 <= jj < j && 0 <= ii < rows implies #[trigger] col_major(
                            data@,
                            rows as nat,
                            ii,
                            jj,
                        ) == self.entry(jj, ii) by {
                        lemma_index_in_bounds(rows as nat, j as nat, ii, jj);
                        assert(rows * j == j * rows) by (nonlinear_arith);
                        assert(data@[jj * rows + ii] == before[jj * rows + ii]);
                        assert(col_major(before, rows as nat, ii, jj) == self.entry(jj, ii));
                    }
                    assert forall|ii: int|
                        0 <= ii < i + 1 implies #[trigger] col_major(
                            data@,
                            rows as nat,
                            ii,
                            j as int,
                        ) == self.entry(j as int, ii) by {
                        if ii < i {
                            assert(col_major(before, rows as nat, ii, j as int) == self.entry(
                                j as int,
                                ii,
                            ));
                        }
                    }
                }
                i += 1;
            }
            proof {
                assert((j + 1) * rows == j * rows + rows) by (nonlinear_arith);
                assert forall|jj: int, ii: int|
                    0 <= jj < j + 1 && 0 <= ii < rows implies #[trigger] col_major(
                        data@,
                        rows as nat,
                        ii,
                        jj,
                    ) == self.entry(jj, ii) by {
                    if jj == j {
                        assert(col_major(data@, rows as nat, ii, j as int) == self.entry(
                            j as int,
                            ii,
                        ));
                    }
                }
            }
            j += 1;
        }
        proof {
            assert(cols * rows == rows * cols) by (nonlinear_arith);
        }
        Mat { rows, cols, data }
    }

    /// Builds a `rows × cols` matrix from its entries given row by row.
    /// Fails with `ShapeMismatch` unless there are exactly `rows * cols` entries.
    pub fn from_rows(rows: usize, cols: usize, data: Vec<T>) -> (r: Result<Mat<T>, KfError>)
        ensures
            r is Ok <==> data@.len() == rows * cols,
            r is Err ==> r == Err::<Mat<T>, KfError>(KfError::ShapeMismatch),
            r matches Ok(m) ==> {
                &&& m.has_shape(rows as nat, cols as nat)
                &&& forall|i: int, j: int|
                    0 <= i < rows && 0 <= j < cols ==> #[trigger] m.entry(i, j) == data@[i * cols
                        + j]
            },
    {
        proof {
            assert(cols * rows == rows * cols) by (nonlinear_arith);
        }
        // Read column by column, a row-major buffer is the transpose.
        match Mat::from_columns(cols, rows, data) {
            Ok(flipped) => Ok(flipped.transpose()),
            Err(e) => Err(e),
        }
    }
}

impl<T: Copy> Clone for Mat<T> {
    fn clone(&self) -> (r: Self)
        ensures
            r@ == self@,
    {
        proof {
            use_type_invariant(self);
        }
        let mut data: Vec<T> = Vec::new();
        let mut k: usize = 0;
        while k < self.data.len()
            invariant
                k <= self.data@.len(),
                data@ == self.data@.subrange(0, k as int),
            decreases self.data@.len() - k,
        {
            data.push(self.data[k]);
            k += 1;
            proof {
                assert(data@ =~= self.data@.subrange(0, k as int));
            }
        }
        proof {
            assert(data@ =~= self.data@);
        }
        Mat { rows: self.rows, cols: self.cols, data }
    }
}

} // verus!
