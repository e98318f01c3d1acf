use kalman::{Filter, KfError, Mat};

fn m(rows: usize, cols: usize, data: Vec<f64>) -> Mat<f64> {
    Mat::from_rows(rows, cols, data).unwrap()
}

fn col(data: Vec<f64>) -> Mat<f64> {
    Mat::column(data)
}

fn close(a: f64, b: f64) -> bool {
    (a - b).abs() < 1e-9
}

fn entry(a: &Mat<f64>, i: usize, j: usize) -> f64 {
    a.get(i, j).unwrap()
}

fn trace(a: &Mat<f64>) -> f64 {
    (0..a.nrows()).map(|i| entry(a, i, i)).sum()
}

fn scalar_filter() -> Filter<f64> {
    Filter::new(
        col(vec![1.0]),
        m(1, 1, vec![1.0]),
        m(1, 1, vec![1.0]),
        m(1, 1, vec![1.0]),
        m(1, 1, vec![1.0]),
        m(1, 1, vec![0.0]),
    )
    .unwrap()
}

#[test]
fn one_dimensional_step() {
    let mut kf = scalar_filter();
    let (x, p, y, s, s_inv) = kf.run(col(vec![2.0])).unwrap();
    assert!(close(entry(&x, 0, 0), 1.5));
    assert!(close(entry(&p, 0, 0), 0.5));
    assert!(close(entry(&y, 0, 0), 1.0));
    assert!(close(entry(&s, 0, 0), 2.0));
    assert!(close(entry(&s_inv, 0, 0), 0.5));
    assert!(close(entry(kf.get_x(), 0, 0), 1.5));
    assert!(close(entry(kf.get_p(), 0, 0), 0.5));
}

#[test]
fn one_dimensional_step_with_control() {
    let mut kf = Filter::new_controlled(
        col(vec![1.0]),
        m(1, 1, vec![1.0]),
        m(1, 1, vec![1.0]),
        m(1, 1, vec![1.0]),
        m(1, 1, vec![1.0]),
        m(1, 1, vec![0.0]),
        m(1, 1, vec![1.0]),
    )
    .unwrap();
    let (x, p, y, s, s_inv) = kf.run_controlled(col(vec![2.0]), col(vec![1.0])).unwrap();
    assert!(close(entry(&x, 0, 0), 2.0));
    assert!(close(entry(&p, 0, 0), 0.5));
    assert!(close(entry(&y, 0, 0), 0.0));
    assert!(close(entry(&s, 0, 0), 2.0));
    assert!(close(entry(&s_inv, 0, 0), 0.5));
}

#[test]
fn controlled_filter_without_input_uses_no_control() {
    let mut kf = Filter::new_controlled(
        col(vec![1.0]),
        m(1, 1, vec![1.0]),
        m(1, 1, vec![1.0]),
        m(1, 1, vec![1.0]),
        m(1, 1, vec![1.0]),
        m(1, 1, vec![0.0]),
        m(1, 1, vec![1.0]),
    )
    .unwrap();
    let (x, _, _, _, _) = kf.run(col(vec![2.0])).unwrap();
    assert!(close(entry(&x, 0, 0), 1.5));
}

#[test]
fn singular_innovation_covariance_fails_without_change() {
    let mut kf = Filter::new(
        col(vec![1.0]),
        m(1, 1, vec![1.0]),
        m(1, 1, vec![1.0]),
        m(1, 1, vec![0.0]),
        m(1, 1, vec![0.0]),
        m(1, 1, vec![0.0]),
    )
    .unwrap();
    let x_before = kf.get_x().clone();
    let p_before = kf.get_p().clone();
    let res = kf.run(col(vec![2.0]));
    assert_eq!(res.err(), Some(KfError::InverseError));
    assert_eq!(kf.get_x().as_slice(), x_before.as_slice());
    assert_eq!(kf.get_p().as_slice(), p_before.as_slice());
    // still usable afterwards
    assert_eq!(kf.run(col(vec![2.0])).err(), Some(KfError::InverseError));
}

#[test]
fn two_state_step_exact_values() {
    let mut kf = Filter::new(
        col(vec![0.0, 1.0]),
        m(2, 2, vec![1.0, 0.0, 0.0, 1.0]),
        m(2, 2, vec![1.0, 1.0, 0.0, 1.0]),
        m(1, 1, vec![1.0]),
        m(1, 2, vec![1.0, 0.0]),
        m(2, 2, vec![0.0, 0.0, 0.0, 0.0]),
    )
    .unwrap();
    let (x, p, y, s, s_inv) = kf.run(col(vec![2.0])).unwrap();
    assert_eq!((x.nrows(), x.ncols()), (2, 1));
    assert_eq!((p.nrows(), p.ncols()), (2, 2));
    assert_eq!((y.nrows(), y.ncols()), (1, 1));
    assert!(close(entry(&x, 0, 0), 5.0 / 3.0));
    assert!(close(entry(&x, 1, 0), 4.0 / 3.0));
    assert!(close(entry(&p, 0, 0), 2.0 / 3.0));
    assert!(close(entry(&p, 0, 1), 1.0 / 3.0));
    assert!(close(entry(&p, 1, 0), 1.0 / 3.0));
    assert!(close(entry(&p, 1, 1), 2.0 / 3.0));
    assert!(close(entry(&y, 0, 0), 1.0));
    assert!(close(entry(&s, 0, 0), 3.0));
    assert!(close(entry(&s_inv, 0, 0), 1.0 / 3.0));
}

#[test]
fn posterior_trace_does_not_exceed_predicted_trace() {
    let f = m(2, 2, vec![1.0, 0.5, 0.0, 1.0]);
    let p0 = m(2, 2, vec![2.0, 0.3, 0.3, 1.0]);
    let q = m(2, 2, vec![0.1, 0.0, 0.0, 0.2]);
    let mut kf = Filter::new(
        col(vec![0.0, 0.0]),
        p0,
        f,
        m(2, 2, vec![0.5, 0.1, 0.1, 0.4]),
        m(2, 2, vec![1.0, 0.0, 0.2, 1.0]),
        q,
    )
    .unwrap();
    for k in 0..5 {
        let (_, p_pred) = kf.predict(None);
        let (_, p_post, _, _, _) = kf.run(col(vec![k as f64, 1.0])).unwrap();
        assert!(trace(&p_post) <= trace(&p_pred) + 1e-12);
    }
}

#[test]
fn perfect_measurements_converge_to_trajectory() {
    let f = m(2, 2, vec![1.0, 1.0, 0.0, 1.0]);
    let mut kf = Filter::new(
        col(vec![5.0, -3.0]),
        m(2, 2, vec![1.0, 0.0, 0.0, 1.0]),
        f,
        m(2, 2, vec![1e-9, 0.0, 0.0, 1e-9]),
        m(2, 2, vec![1.0, 0.0, 0.0, 1.0]),
        m(2, 2, vec![0.0, 0.0, 0.0, 0.0]),
    )
    .unwrap();
    let mut truth = [0.0_f64, 1.0_f64];
    for _ in 0..20 {
        truth = [truth[0] + truth[1], truth[1]];
        kf.run(col(vec![truth[0], truth[1]])).unwrap();
    }
    let x = kf.get_x();
    assert!((entry(x, 0, 0) - truth[0]).abs() < 1e-6);
    assert!((entry(x, 1, 0) - truth[1]).abs() < 1e-6);
}

#[test]
fn setters_store_exactly() {
    let mut kf = scalar_filter();
    let v = col(vec![7.0]);
    kf.set_x(v.clone()).unwrap();
    assert_eq!(kf.get_x().as_slice(), v.as_slice());
    let cov = m(1, 1, vec![3.0]);
    kf.set_p(cov.clone()).unwrap();
    assert_eq!(kf.get_p().as_slice(), cov.as_slice());
    assert_eq!(kf.get_x().as_slice(), v.as_slice());
}

#[test]
fn setters_reject_wrong_shapes() {
    let mut kf = scalar_filter();
    assert_eq!(kf.set_x(col(vec![1.0, 2.0])), Err(KfError::ShapeMismatch));
    assert_eq!(kf.set_p(m(1, 2, vec![1.0, 2.0])), Err(KfError::ShapeMismatch));
    assert_eq!(kf.get_x().as_slice(), &[1.0]);
    assert_eq!(kf.get_p().as_slice(), &[1.0]);
}

#[test]
fn construction_rejects_inconsistent_shapes() {
    let r = Filter::new(
        col(vec![1.0, 2.0]),
        m(1, 1, vec![1.0]),
        m(1, 1, vec![1.0]),
        m(1, 1, vec![1.0]),
        m(1, 1, vec![1.0]),
        m(1, 1, vec![0.0]),
    );
    assert_eq!(r.err().map(|e| e), Some(KfError::ShapeMismatch));
    let r = Filter::new_controlled(
        col(vec![1.0]),
        m(1, 1, vec![1.0]),
        m(1, 1, vec![1.0]),
        m(1, 1, vec![1.0]),
        m(1, 1, vec![1.0]),
        m(1, 1, vec![0.0]),
        m(2, 1, vec![1.0, 1.0]),
    );
    assert_eq!(r.err(), Some(KfError::ShapeMismatch));
}

#[test]
fn run_rejects_wrong_measurement_shape() {
    let mut kf = scalar_filter();
    assert_eq!(kf.run(col(vec![1.0, 2.0])).err(), Some(KfError::ShapeMismatch));
    assert_eq!(kf.run_controlled(col(vec![1.0]), col(vec![1.0])).err(), Some(KfError::ShapeMismatch));
    assert_eq!(kf.get_x().as_slice(), &[1.0]);
}

#[test]
fn dimensions_reported() {
    let kf = Filter::new(
        col(vec![0.0, 0.0, 0.0]),
        m(3, 3, vec![1.0; 9]),
        m(3, 3, vec![1.0; 9]),
        m(2, 2, vec![1.0; 4]),
        m(2, 3, vec![1.0; 6]),
        m(3, 3, vec![1.0; 9]),
    )
    .unwrap();
    assert_eq!(kf.state_dim(), 3);
    assert_eq!(kf.measurement_dim(), 2);
    assert_eq!(kf.control_dim(), None);
}

#[test]
fn error_messages() {
    assert_eq!(KfError::InverseError.message(), "Matrix inversion failed");
    assert_eq!(KfError::ShapeMismatch.message(), "Matrix shape mismatch");
}
