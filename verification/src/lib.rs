//! Convolution planning for GPU tensor back-ends.
//!
//! The crate decides which convolution kernel to run, remembers which kernel was
//! fastest for a class of problem shapes, and defines the index arithmetic of the
//! col2im scatter kernel that folds GEMM results back into an image.  Everything
//! here works on shapes and indices; moving tensor data on a device is left to the
//! caller.
//!
//! * [`dispatch`] checks a call and resolves a [`strategy`] to a kernel.
//! * [`tune`] holds the autotuner and the keys of its cache.
//! * [`conv_transpose`] lays out a transposed convolution by matrix
//!   multiplication.
//! * [`col2im`] is the scatter kernel, and [`unfold`] the unfolding that it is
//!   the adjoint of.
//! * [`repeat_dim`] is the kernel that repeats a tensor along a dimension.
//! * [`launch`] plans launch grids, [`shape`] computes sizes, and [`arith`] holds
//!   the arithmetic that the kernels' proofs rest on.

pub mod arith;
pub mod col2im;
pub mod conv_transpose;
pub mod dispatch;
pub mod launch;
pub mod options;
pub mod repeat_dim;
pub mod shape;
pub mod strategy;
pub mod tune;
pub mod unfold;
