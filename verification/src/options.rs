//! Convolution options and the errors raised for an invalid configuration.

use vstd::prelude::*;
use crate::launch::LaunchError;

verus! {

/// Options of a two-dimensional convolution: one value per spatial axis,
/// height first.
#[derive(Clone, Copy, Debug, PartialEq, Eq, Hash)]
pub struct ConvOptions {
    pub stride: [usize; 2],
    pub padding: [usize; 2],
    pub dilation: [usize; 2],
    pub groups: usize,
}

/// Options of a two-dimensional transposed convolution.
#[derive(Clone, Copy, Debug, PartialEq, Eq, Hash)]
pub struct ConvTransposeOptions {
    pub stride: [usize; 2],
    pub padding: [usize; 2],
    pub padding_out: [usize; 2],
    pub dilation: [usize; 2],
    pub groups: usize,
}

/// Why a convolution cannot be planned.  Every error is found before any work
/// is handed to a device.
#[derive(Clone, Copy, Debug, PartialEq, Eq, Structural, Hash)]
pub enum ConvError {
    /// A stride, a dilation or the group count is zero.
    InvalidOptions,
    /// The kernel has no taps along some axis.
    EmptyKernel,
    /// The group count does not divide a channel count.
    ChannelsNotDivisible,
    /// Input and weight disagree on the number of channels.
    ChannelMismatch,
    /// The bias does not have one value per output channel.
    BiasMismatch,
    /// An output size is not defined, or a tensor would hold more elements than
    /// can be addressed.
    SizeOutOfRange,
    /// A dimension does not fit the scalar type in which a kernel receives it.
    DimensionTooLarge,
    /// No launch grid could be planned.
    Launch(LaunchError),
}

impl ConvOptions {
    /// Strides, dilations and the group count are at least one.
    pub open spec fn valid(self) -> bool {
        &&& self.stride[0] >= 1
        &&& self.stride[1] >= 1
        &&& self.dilation[0] >= 1
        &&& self.dilation[1] >= 1
        &&& self.groups >= 1
    }

    pub fn new(stride: [usize; 2], padding: [usize; 2], dilation: [usize; 2], groups: usize) -> (o:
        Self)
        ensures
            o.stride == stride,
            o.padding == padding,
            o.dilation == dilation,
            o.groups == groups,
    {
        ConvOptions { stride, padding, dilation, groups }
    }

    /// Tells whether the options are valid.
    pub fn is_valid(&self) -> (b: bool)
        ensures
            b == self.valid(),
    {
        self.stride[0] >= 1 && self.stride[1] >= 1 && self.dilation[0] >= 1 && self.dilation[1]
            >= 1 && self.groups >= 1
    }
}

impl ConvTransposeOptions {
    /// Strides, dilations and the group count are at least one.
    pub open spec fn valid(self) -> bool {
        &&& self.stride[0] >= 1
        &&& self.stride[1] >= 1
        &&& self.dilation[0] >= 1
        &&& self.dilation[1] >= 1
        &&& self.groups >= 1
    }

    pub fn new(
        stride: [usize; 2],
        padding: [usize; 2],
        padding_out: [usize; 2],
        dilation: [usize; 2],
        groups: usize,
    ) -> (o: Self)
        ensures
            o.stride == stride,
            o.padding == padding,
            o.padding_out == padding_out,
            o.dilation == dilation,
            o.groups == groups,
    {
        ConvTransposeOptions { stride, padding, padding_out, dilation, groups }
    }

    /// Tells whether the options are valid.
    pub fn is_valid(&self) -> (b: bool)
        ensures
            b == self.valid(),
    {
        self.stride[0] >= 1 && self.stride[1] >= 1 && self.dilation[0] >= 1 && self.dilation[1]
            >= 1 && self.groups >= 1
    }
}

impl ConvError {
    /// What [`ConvError::message`] says.
    pub open spec fn spec_message(self) -> Seq<char> {
        match self {
            ConvError::InvalidOptions => "stride, dilation and groups must be at least one"@,
            ConvError::EmptyKernel => "the kernel must have at least one tap along each axis"@,
            ConvError::ChannelsNotDivisible => "the channel counts must be divisible by groups"@,
            ConvError::ChannelMismatch => "input and weight disagree on the number of channels"@,
            ConvError::BiasMismatch => "the bias must have one value per output channel"@,
            ConvError::SizeOutOfRange => "a tensor size is undefined or out of range"@,
            ConvError::DimensionTooLarge => "a dimension does not fit the kernel's scalar type"@,
            ConvError::Launch(LaunchError::DynamicCount) => "the number of cubes is not fixed"@,
            ConvError::Launch(LaunchError::GridTooSmall) => {
                "the launch grid does not cover every element"@
            },
        }
    }

    /// A sentence that describes the error.
    pub fn message(&self) -> (m: String)
        ensures
            m@ == self.spec_message(),
    {
        let text = match self {
            ConvError::InvalidOptions => "stride, dilation and groups must be at least one",
            ConvError::EmptyKernel => "the kernel must have at least one tap along each axis",
            ConvError::ChannelsNotDivisible => "the channel counts must be divisible by groups",
            ConvError::ChannelMismatch => "input and weight disagree on the number of channels",
            ConvError::BiasMismatch => "the bias must have one value per output channel",
            ConvError::SizeOutOfRange => "a tensor size is undefined or out of range",
            ConvError::DimensionTooLarge => "a dimension does not fit the kernel's scalar type",
            ConvError::Launch(LaunchError::DynamicCount) => "the number of cubes is not fixed",
            ConvError::Launch(LaunchError::GridTooSmall) => {
                "the launch grid does not cover every element"
            },
        };
        text.to_owned()
    }
}

} // verus!
