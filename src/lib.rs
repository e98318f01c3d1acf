//! A discrete-time linear Kalman filter over dense matrices.
//!
//! The matrix arithmetic is delegated to nalgebra; this crate verifies the
//! shape bookkeeping of the predict/update recursion, the data movement it
//! performs itself (transposition, copying, reordering) and the state machine
//! of the filter: a failed step leaves the estimate untouched.
mod error;
mod linalg;
mod matrix;
mod filter;

pub use error::KfError;
pub use matrix::Mat;
pub use filter::{shapes_agree, Filter, StepOutput};
