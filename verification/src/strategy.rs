//! The strategies a caller may ask for, and the kernels they resolve to.

use vstd::prelude::*;

verus! {

/// How a two-dimensional convolution is to be computed.
#[derive(Clone, Copy, Debug, PartialEq, Eq, Structural, Hash)]
pub enum Conv2dStrategy {
    /// The direct sliding-window kernel.
    Direct,
    /// Measure the candidates once per class of shapes and reuse the fastest.
    Autotune,
    /// The GEMM kernel (im2col); needs much more memory.
    Gemm,
}

impl Conv2dStrategy {
    /// The strategy used when the caller names none: autotuning where the build
    /// supports it, else the direct kernel, which needs the least memory.
    pub open spec fn spec_default_for(autotune: bool) -> Self {
        if autotune {
            Conv2dStrategy::Autotune
        } else {
            Conv2dStrategy::Direct
        }
    }

    pub fn default_for(autotune: bool) -> (s: Self)
        ensures
            s == Self::spec_default_for(autotune),
    {
        if autotune {
            Conv2dStrategy::Autotune
        } else {
            Conv2dStrategy::Direct
        }
    }
}

impl Default for Conv2dStrategy {
    fn default() -> (s: Self)
        ensures
            s == Conv2dStrategy::Autotune,
    {
        Conv2dStrategy::Autotune
    }
}

/// How a two-dimensional transposed convolution is to be computed.
#[derive(Clone, Copy, Debug, PartialEq, Eq, Structural, Hash)]
pub enum ConvTranspose2dStrategy {
    /// The direct kernel.
    Direct,
    /// Measure the candidates once per class of shapes and reuse the fastest.
    Autotune,
    /// The GEMM kernel (col2im); needs much more memory.
    Gemm,
}

impl ConvTranspose2dStrategy {
    /// The strategy used when the caller names none: autotuning where the build
    /// supports it, else the direct kernel.
    pub open spec fn spec_default_for(autotune: bool) -> Self {
        if autotune {
            ConvTranspose2dStrategy::Autotune
        } else {
            ConvTranspose2dStrategy::Direct
        }
    }

    pub fn default_for(autotune: bool) -> (s: Self)
        ensures
            s == Self::spec_default_for(autotune),
    {
        if autotune {
            ConvTranspose2dStrategy::Autotune
        } else {
            ConvTranspose2dStrategy::Direct
        }
    }
}

impl Default for ConvTranspose2dStrategy {
    fn default() -> (s: Self)
        ensures
            s == ConvTranspose2dStrategy::Autotune,
    {
        ConvTranspose2dStrategy::Autotune
    }
}

} // verus!
