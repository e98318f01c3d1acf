use vstd::prelude::*;

use nalgebra::RealField;

use crate::error::KfError;
use crate::linalg::{mat_add, mat_mul, mat_sub, mat_try_inverse};
use crate::matrix::Mat;

verus! {

/// What one successful step hands back: the posterior state, the posterior
/// covariance, the innovation, the innovation covariance and its inverse.
pub type StepOutput<T> = (Mat<T>, Mat<T>, Mat<T>, Mat<T>, Mat<T>);

/// The shapes that the matrices of a filter with `n` state components and `m`
/// measurement components must have: `x` is `n × 1`, `p`, `f` and `q` are
/// `n × n`, `h` is `m × n` and `r` is `m × m`, where `n` and `m` are read off
/// `f` and `h`.
pub open spec fn shapes_agree<T>(
    x: Mat<T>,
    p: Mat<T>,
    f: Mat<T>,
    r: Mat<T>,
    h: Mat<T>,
    q: Mat<T>,
) -> bool {
    let n = f.num_rows();
    let m = h.num_rows();
    &&& x.has_shape(n, 1)
    &&& p.has_shape(n, n)
    &&& f.has_shape(n, n)
    &&& q.has_shape(n, n)
    &&& h.has_shape(m, n)
    &&& r.has_shape(m, m)
}

/// A linear Kalman filter: the running estimate `x` with its covariance `p`,
/// and the fixed model: transition `f`, measurement model `h`, process noise
/// `q`, measurement noise `r` and, optionally, the control model `b`.
pub struct Filter<T> {
    x: Mat<T>,
    p: Mat<T>,
    f: Mat<T>,
    r: Mat<T>,
    h: Mat<T>,
    q: Mat<T>,
    b: Option<Mat<T>>,
}

impl<T> Filter<T> {
    /// The shapes of all matrices agree, for the whole life of the filter.
    #[verifier::type_invariant]
    pub open spec fn consistent(&self) -> bool {
        &&& shapes_agree(
            self.state(),
            self.covariance(),
            self.transition(),
            self.measurement_noise(),
            self.observation(),
            self.process_noise(),
        )
        &&& self.control_model() matches Some(b) ==> b.num_rows() == self.dim_x()
    }

    /// The state estimate `x`.
    pub closed spec fn state(&self) -> Mat<T> {
        self.x
    }

    /// The state covariance `P`.
    pub closed spec fn covariance(&self) -> Mat<T> {
        self.p
    }

    /// The transition model `F`.
    pub closed spec fn transition(&self) -> Mat<T> {
        self.f
    }

    /// The measurement noise covariance `R`.
    pub closed spec fn measurement_noise(&self) -> Mat<T> {
        self.r
    }

    /// The measurement model `H`.
    pub closed spec fn observation(&self) -> Mat<T> {
        self.h
    }

    /// The process noise covariance `Q`.
    pub closed spec fn process_noise(&self) -> Mat<T> {
        self.q
    }

    /// The control model `B`, if the filter has one.
    pub closed spec fn control_model(&self) -> Option<Mat<T>> {
        self.b
    }

    /// Number of state components.
    pub open spec fn dim_x(&self) -> nat {
        self.transition().num_rows()
    }

    /// Number of measurement components.
    pub open spec fn dim_z(&self) -> nat {
        self.observation().num_rows()
    }

    /// `self` with its state estimate replaced by `v`.
    pub closed spec fn with_state(&self, v: Mat<T>) -> Filter<T> {
        Filter { x: v, ..*self }
    }

    /// `self` with its state covariance replaced by `m`.
    pub closed spec fn with_covariance(&self, m: Mat<T>) -> Filter<T> {
        Filter { p: m, ..*self }
    }

    /// Reading back what a setter stored gives exactly that value, a setter
    /// touches nothing else, and setting the same value twice is the same as
    /// setting it once.
    pub proof fn lemma_setters_store_exactly(&self, v: Mat<T>, m: Mat<T>)
        ensures
            self.with_state(v).state() == v,
            self.with_state(v).covariance() == self.covariance(),
            self.same_model(&self.with_state(v)),
            self.with_state(v).with_state(v) == self.with_state(v),
            self.with_covariance(m).covariance() == m,
            self.with_covariance(m).state() == self.state(),
            self.same_model(&self.with_covariance(m)),
            self.with_covariance(m).with_covariance(m) == self.with_covariance(m),
    {
    }

    /// The fixed model of `self` and `other` is the same.
    pub open spec fn same_model(&self, other: &Filter<T>) -> bool {
        &&& other.transition() == self.transition()
        &&& other.measurement_noise() == self.measurement_noise()
        &&& other.observation() == self.observation()
        &&& other.process_noise() == self.process_noise()
        &&& other.control_model() == self.control_model()
    }

    /// `next` is `self` advanced by one step that handed back `out`: the model is
    /// kept, the stored estimate is the one handed back, and every output has
    /// the shape that the filter's dimensions give it.
    pub open spec fn advanced_to(&self, next: &Filter<T>, out: StepOutput<T>) -> bool {
        let n = self.dim_x();
        let m = self.dim_z();
        &&& self.same_model(next)
        &&& out.0@ == next.state()@
        &&& out.1@ == next.covariance()@
        &&& out.0.has_shape(n, 1)
        &&& out.1.has_shape(n, n)
        &&& out.2.has_shape(m, 1)
        &&& out.3.has_shape(m, m)
        &&& out.4.has_shape(m, m)
    }

    /// Builds a filter without a control model from the initial estimate `x`,
    /// its covariance `p`, and the model `f`, `r`, `h`, `q`. Fails with
    /// `ShapeMismatch` exactly when the shapes do not agree.
    pub fn new(x: Mat<T>, p: Mat<T>, f: Mat<T>, r: Mat<T>, h: Mat<T>, q: Mat<T>) -> (res: Result<
        Filter<T>,
        KfError,
    >)
        ensures
            res is Ok <==> shapes_agree(x, p, f, r, h, q),
            res matches Err(e) ==> e == KfError::ShapeMismatch,
            res matches Ok(k) ==> {
                &&& k.state() == x
                &&& k.covariance() == p
                &&& k.transition() == f
                &&& k.measurement_noise() == r
                &&& k.observation() == h
                &&& k.process_noise() == q
                &&& k.control_model() is None
            },
    {
        if Self::check_shapes(&x, &p, &f, &r, &h, &q) {
            Ok(Filter { x, p, f, r, h, q, b: None })
        } else {
            Err(KfError::ShapeMismatch)
        }
    }

    /// Builds a filter with the control model `b`, which must have one row per
    /// state component. Fails with `ShapeMismatch` exactly when the shapes do
    /// not agree.
    pub fn new_controlled(
        x: Mat<T>,
        p: Mat<T>,
        f: Mat<T>,
        r: Mat<T>,
        h: Mat<T>,
        q: Mat<T>,
        b: Mat<T>,
    ) -> (res: Result<Filter<T>, KfError>)
        ensures
            res is Ok <==> shapes_agree(x, p, f, r, h, q) && b.num_rows() == f.num_rows(),
            res matches Err(e) ==> e == KfError::ShapeMismatch,
            res matches Ok(k) ==> {
                &&& k.state() == x
                &&& k.covariance() == p
                &&& k.transition() == f
                &&& k.measurement_noise() == r
                &&& k.observation() == h
                &&& k.process_noise() == q
                &&& k.control_model() == Some(b)
            },
    {
        if Self::check_shapes(&x, &p, &f, &r, &h, &q) && b.nrows() == f.nrows() {
            Ok(Filter { x, p, f, r, h, q, b: Some(b) })
        } else {
            Err(KfError::ShapeMismatch)
        }
    }

    fn check_shapes(x: &Mat<T>, p: &Mat<T>, f: &Mat<T>, r: &Mat<T>, h: &Mat<T>, q: &Mat<T>) -> (ok:
        bool)
        ensures
            ok == shapes_agree(*x, *p, *f, *r, *h, *q),
    {
        let n = f.nrows();
        let m = h.nrows();
        x.nrows() == n && x.ncols() == 1 && p.nrows() == n && p.ncols() == n && f.ncols() == n
            && q.nrows() == n && q.ncols() == n && h.ncols() == n && r.nrows() == m && r.ncols()
            == m
    }

    /// Number of state components.
    pub fn state_dim(&self) -> (r: usize)
        ensures
            r == self.dim_x(),
    {
        self.f.nrows()
    }

    /// Number of measurement components.
    pub fn measurement_dim(&self) -> (r: usize)
        ensures
            r == self.dim_z(),
    {
        self.h.nrows()
    }

    /// Number of control components, if the filter has a control model.
    pub fn control_dim(&self) -> (r: Option<usize>)
        ensures
            r matches Some(k) ==> self.control_model() matches Some(b) && k == b.num_cols(),
            r is None <==> self.control_model() is None,
    {
        match &self.b {
            Some(b) => Some(b.ncols()),
            None => None,
        }
    }

    /// The current state estimate.
    pub fn get_x(&self) -> (r: &Mat<T>)
        ensures
            *r == self.state(),
    {
        &self.x
    }

    /// The current state covariance.
    pub fn get_p(&self) -> (r: &Mat<T>)
        ensures
            *r == self.covariance(),
    {
        &self.p
    }

    /// Replaces the state estimate. Fails with `ShapeMismatch`, changing
    /// nothing, unless `x` has one row per state component and one column.
    pub fn set_x(&mut self, x: Mat<T>) -> (res: Result<(), KfError>)
        ensures
            res is Ok <==> x.has_shape(old(self).dim_x(), 1),
            res matches Err(e) ==> e == KfError::ShapeMismatch && *final(self) == *old(self),
            res is Ok ==> *final(self) == old(self).with_state(x),
    {
        proof {
            use_type_invariant(&*self);
        }
        if x.nrows() == self.f.nrows() && x.ncols() == 1 {
            self.x = x;
            Ok(())
        } else {
            Err(KfError::ShapeMismatch)
        }
    }

    /// Replaces the state covariance. Fails with `ShapeMismatch`, changing
    /// nothing, unless `p` is square with one row per state component.
    pub fn set_p(&mut self, p: Mat<T>) -> (res: Result<(), KfError>)
        ensures
            res is Ok <==> p.has_shape(old(self).dim_x(), old(self).dim_x()),
            res matches Err(e) ==> e == KfError::ShapeMismatch && *final(self) == *old(self),
            res is Ok ==> *final(self) == old(self).with_covariance(p),
    {
        proof {
            use_type_invariant(&*self);
        }
        if p.nrows() == self.f.nrows() && p.ncols() == self.f.nrows() {
            self.p = p;
            Ok(())
        } else {
            Err(KfError::ShapeMismatch)
        }
    }
}

impl<T: RealField + Copy> Filter<T> {
    /// The predict stage: `x' = F·x`, plus `B·u` when a control input `u` is
    /// given, and `P' = F·P·Fᵗ + Q`.
    pub fn predict(&self, u: Option<&Mat<T>>) -> (res: (Mat<T>, Mat<T>))
        requires
            u matches Some(u) ==> self.control_model() matches Some(b) && u.has_shape(
                b.num_cols(),
                1,
            ),
        ensures
            res.0.has_shape(self.dim_x(), 1),
            res.1.has_shape(self.dim_x(), self.dim_x()),
    {
        proof {
            use_type_invariant(self);
            use_type_invariant(&self.x);
            use_type_invariant(&self.p);
        }
        let fx = mat_mul(&self.f, &self.x);
        let x_pred = match (u, &self.b) {
            (Some(u), Some(b)) => mat_add(&fx, &mat_mul(b, u)),
            _ => fx,
        };
        let ft = self.f.transpose();
        let fpft = mat_mul(&mat_mul(&self.f, &self.p), &ft);
        let p_pred = mat_add(&fpft, &self.q);
        (x_pred, p_pred)
    }

    /// The innovation covariance `S = H·P'·Hᵗ + R` of a predicted covariance `P'`.
    pub fn innovation_covariance(&self, p_pred: &Mat<T>) -> (s: Mat<T>)
        requires
            p_pred.has_shape(self.dim_x(), self.dim_x()),
        ensures
            s.has_shape(self.dim_z(), self.dim_z()),
    {
        proof {
            use_type_invariant(self);
            use_type_invariant(&self.h);
            use_type_invariant(&self.r);
        }
        let ht = self.h.transpose();
        let hpht = mat_mul(&mat_mul(&self.h, p_pred), &ht);
        mat_add(&hpht, &self.r)
    }

    /// The update stage, given the prediction `x_pred`, `p_pred`, the innovation
    /// covariance `s` and the outcome of inverting it. Without an inverse the
    /// step fails with `InverseError` and the filter is left exactly as it was.
    /// With one, `K = P'·Hᵗ·S⁻¹`, `y = z − H·x'`, and the filter stores
    /// `x = x' + K·y` and `P = P' − K·H·P'`, which it hands back together with
    /// `y`, `S` and `S⁻¹`.
    pub fn update(
        &mut self,
        x_pred: Mat<T>,
        p_pred: Mat<T>,
        s: Mat<T>,
        s_inverse: Option<Mat<T>>,
        z: &Mat<T>,
    ) -> (res: Result<StepOutput<T>, KfError>)
        requires
            x_pred.has_shape(old(self).dim_x(), 1),
            p_pred.has_shape(old(self).dim_x(), old(self).dim_x()),
            s.has_shape(old(self).dim_z(), old(self).dim_z()),
            z.has_shape(old(self).dim_z(), 1),
            s_inverse matches Some(si) ==> si.has_shape(old(self).dim_z(), old(self).dim_z()),
        ensures
            s_inverse is None ==> res == Err::<StepOutput<T>, KfError>(KfError::InverseError)
                && *final(self) == *old(self),
            s_inverse is Some <==> res is Ok,
            res matches Ok(out) ==> {
                &&& old(self).advanced_to(final(self), out)
                &&& out.3 == s
                &&& Some(out.4) == s_inverse
            },
    {
        proof {
            use_type_invariant(&*self);
            use_type_invariant(&self.x);
            use_type_invariant(&self.h);
            use_type_invariant(&p_pred);
            use_type_invariant(z);
        }
        match s_inverse {
            None => Err(KfError::InverseError),
            Some(si) => {
                let ht = self.h.transpose();
                proof {
                    use_type_invariant(&ht);
                }
                let k = mat_mul(&mat_mul(&p_pred, &ht), &si);
                let y = mat_sub(z, &mat_mul(&self.h, &x_pred));
                let x_new = mat_add(&x_pred, &mat_mul(&k, &y));
                let khp = mat_mul(&mat_mul(&k, &self.h), &p_pred);
                let p_new = mat_sub(&p_pred, &khp);
                self.x = x_new.clone();
                self.p = p_new.clone();
                Ok((x_new, p_new, y, s, si))
            },
        }
    }

    /// One predict/update step; the caller has checked the shapes of `z` and `u`.
    fn step(&mut self, z: &Mat<T>, u: Option<&Mat<T>>) -> (res: Result<StepOutput<T>, KfError>)
        requires
            z.has_shape(old(self).dim_z(), 1),
            u matches Some(u) ==> old(self).control_model() matches Some(b) && u.has_shape(
                b.num_cols(),
                1,
            ),
        ensures
            res is Ok || res == Err::<StepOutput<T>, KfError>(KfError::InverseError),
            res is Err ==> *final(self) == *old(self),
            res matches Ok(out) ==> old(self).advanced_to(final(self), out),
    {
        let (x_pred, p_pred) = self.predict(u);
        let s = self.innovation_covariance(&p_pred);
        let s_inverse = mat_try_inverse(&s);
        self.update(x_pred, p_pred, s, s_inverse, z)
    }

    /// Advances the filter by one measurement `z`, with no control input.
    ///
    /// Fails with `ShapeMismatch` when `z` does not have one row per measurement
    /// component and one column, and otherwise only with `InverseError`, when
    /// the innovation covariance cannot be inverted. A failed call changes
    /// nothing. A successful one stores and hands back the posterior estimate
    /// and covariance, with the innovation, its covariance and that inverse.
    pub fn run(&mut self, z: Mat<T>) -> (res: Result<StepOutput<T>, KfError>)
        ensures
            !z.has_shape(old(self).dim_z(), 1) ==> res == Err::<StepOutput<T>, KfError>(
                KfError::ShapeMismatch,
            ),
            z.has_shape(old(self).dim_z(), 1) ==> res is Ok || res == Err::<
                StepOutput<T>,
                KfError,
            >(KfError::InverseError),
            res is Err ==> *final(self) == *old(self),
            res matches Ok(out) ==> old(self).advanced_to(final(self), out),
    {
        if z.nrows() != self.h.nrows() || z.ncols() != 1 {
            return Err(KfError::ShapeMismatch);
        }
        self.step(&z, None)
    }

    /// Advances the filter by one measurement `z` under the control input `u`,
    /// which adds `B·u` to the predicted state.
    ///
    /// Fails with `ShapeMismatch` when the filter has no control model, or `u`
    /// or `z` is not a column of the matching length, and otherwise only with
    /// `InverseError`. A failed call changes nothing.
    pub fn run_controlled(&mut self, z: Mat<T>, u: Mat<T>) -> (res: Result<
        StepOutput<T>,
        KfError,
    >)
        ensures
            ({
                let fits = old(self).control_model() matches Some(b) && u.has_shape(
                    b.num_cols(),
                    1,
                ) && z.has_shape(old(self).dim_z(), 1);
                &&& !fits ==> res == Err::<StepOutput<T>, KfError>(KfError::ShapeMismatch)
                &&& fits ==> res is Ok || res == Err::<StepOutput<T>, KfError>(
                    KfError::InverseError,
                )
            }),
            res is Err ==> *final(self) == *old(self),
            res matches Ok(out) ==> old(self).advanced_to(final(self), out),
    {
        let fits = match &self.b {
            Some(b) => u.nrows() == b.ncols() && u.ncols() == 1,
            None => false,
        };
        if !fits || z.nrows() != self.h.nrows() || z.ncols() != 1 {
            return Err(KfError::ShapeMismatch);
        }
        self.step(&z, Some(&u))
    }
}

} // verus!
