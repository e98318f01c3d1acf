use vstd::prelude::*;

use nalgebra::{DMatrix, RealField};

use crate::matrix::Mat;

verus! {

/// Relies on nalgebra's `&DMatrix * &DMatrix`: the product of an `r × k` and a
/// `k × c` matrix is an `r × c` matrix (it panics when the inner sizes differ).
#[verifier::external_body]
pub(crate) fn mat_mul<T: RealField + Copy>(a: &Mat<T>, b: &Mat<T>) -> (r: Mat<T>)
    requires
        a.num_cols() == b.num_rows(),
        a.num_rows() * b.num_cols() <= usize::MAX,
    ensures
        r.has_shape(a.num_rows(), b.num_cols()),
{
    let m = &DMatrix::from_column_slice(a.rows, a.cols, &a.data) * &DMatrix::from_column_slice(
        b.rows,
        b.cols,
        &b.data,
    );
    Mat { rows: m.nrows(), cols: m.ncols(), data: m.as_slice().to_vec() }
}

/// Relies on nalgebra's `&DMatrix + &DMatrix`: entrywise sum of two matrices of
/// one shape, which keeps that shape (it panics when the shapes differ).
#[verifier::external_body]
pub(crate) fn mat_add<T: RealField + Copy>(a: &Mat<T>, b: &Mat<T>) -> (r: Mat<T>)
    requires
        a.has_shape(b.num_rows(), b.num_cols()),
    ensures
        r.has_shape(a.num_rows(), a.num_cols()),
{
    let m = &DMatrix::from_column_slice(a.rows, a.cols, &a.data) + &DMatrix::from_column_slice(
        b.rows,
        b.cols,
        &b.data,
    );
    Mat { rows: m.nrows(), cols: m.ncols(), data: m.as_slice().to_vec() }
}

/// Relies on nalgebra's `&DMatrix - &DMatrix`: entrywise difference of two
/// matrices of one shape, which keeps that shape (it panics when the shapes differ).
#[verifier::external_body]
pub(crate) fn mat_sub<T: RealField + Copy>(a: &Mat<T>, b: &Mat<T>) -> (r: Mat<T>)
    requires
        a.has_shape(b.num_rows(), b.num_cols()),
    ensures
        r.has_shape(a.num_rows(), a.num_cols()),
{
    let m = &DMatrix::from_column_slice(a.rows, a.cols, &a.data) - &DMatrix::from_column_slice(
        b.rows,
        b.cols,
        &b.data,
    );
    Mat { rows: m.nrows(), cols: m.ncols(), data: m.as_slice().to_vec() }
}

/// Relies on nalgebra's `Matrix::try_inverse`: `None` when the square matrix is
/// not invertible, otherwise its inverse, of the same size (it panics on a
/// matrix that is not square).
#[verifier::external_body]
pub(crate) fn mat_try_inverse<T: RealField + Copy>(a: &Mat<T>) -> (r: Option<Mat<T>>)
    requires
        a.num_rows() == a.num_cols(),
    ensures
        r matches Some(m) ==> m.has_shape(a.num_rows(), a.num_cols()),
{
    match DMatrix::from_column_slice(a.rows, a.cols, &a.data).try_inverse() {
        Some(m) => Some(Mat { rows: m.nrows(), cols: m.ncols(), data: m.as_slice().to_vec() }),
        None => None,
    }
}

} // verus!
