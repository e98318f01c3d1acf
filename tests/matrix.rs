use kalman::{KfError, Mat};

#[test]
fn from_rows_reads_row_by_row() {
    let a = Mat::from_rows(2, 3, vec![1, 2, 3, 4, 5, 6]).unwrap();
    assert_eq!((a.nrows(), a.ncols()), (2, 3));
    assert_eq!(a.get(0, 2), Some(3));
    assert_eq!(a.get(1, 0), Some(4));
    assert_eq!(a.as_slice(), &[1, 4, 2, 5, 3, 6]);
}

#[test]
fn from_columns_reads_column_by_column() {
    let a = Mat::from_columns(2, 3, vec![1, 2, 3, 4, 5, 6]).unwrap();
    assert_eq!(a.get(1, 0), Some(2));
    assert_eq!(a.get(0, 2), Some(5));
}

#[test]
fn constructors_reject_wrong_length() {
    assert_eq!(Mat::from_rows(2, 2, vec![1, 2, 3]).err(), Some(KfError::ShapeMismatch));
    assert_eq!(Mat::from_columns(2, 2, vec![1, 2, 3, 4, 5]).err(), Some(KfError::ShapeMismatch));
    assert_eq!(Mat::from_columns(usize::MAX, 2, vec![1]).err(), Some(KfError::ShapeMismatch));
    assert!(Mat::<i32>::from_rows(0, 4, vec![]).is_ok());
}

#[test]
fn get_outside_is_none() {
    let a = Mat::from_rows(2, 2, vec![1, 2, 3, 4]).unwrap();
    assert_eq!(a.get(2, 0), None);
    assert_eq!(a.get(0, 2), None);
}

#[test]
fn transpose_swaps_indices() {
    let a = Mat::from_rows(2, 3, vec![1, 2, 3, 4, 5, 6]).unwrap();
    let t = a.transpose();
    assert_eq!((t.nrows(), t.ncols()), (3, 2));
    for i in 0..2 {
        for j in 0..3 {
            assert_eq!(t.get(j, i), a.get(i, j));
        }
    }
    let e = Mat::<i32>::from_rows(0, 3, vec![]).unwrap().transpose();
    assert_eq!((e.nrows(), e.ncols()), (3, 0));
}

#[test]
fn column_and_clone() {
    let c = Mat::column(vec![1.5, 2.5]);
    assert_eq!((c.nrows(), c.ncols()), (2, 1));
    let d = c.clone();
    assert_eq!(d.as_slice(), c.as_slice());
    assert_eq!((d.nrows(), d.ncols()), (2, 1));
}
