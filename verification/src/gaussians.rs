//! Settings for the difference-of-gaussians steps.
//!
//! The builder only records the blur parameters; turning them into a 3x3
//! convolution kernel is numeric work done by the capability provider.
//! Fractional settings are fixed-point integers counted in thousandths.

use vstd::prelude::*;

verus! {

/// How one output channel of the coloured blur step is filled.
#[derive(Debug, Clone, Copy)]
pub enum GaussianColorItem {
    /// Scale the accumulated kernel response, factor in thousandths.
    NormalScale(u32),
    /// A constant channel value.
    Absolute(u8),
    /// Leave the channel at zero.
    Zero,
}

/// Settings for the coloured blur step, one rule per channel.
#[derive(Debug, Clone, Copy)]
pub struct GaussianColorData {
    pub r: GaussianColorItem,
    pub g: GaussianColorItem,
    pub b: GaussianColorItem,
    pub a: GaussianColorItem,
}

/// Blur parameters for a difference-of-gaussians kernel.
///
/// The two sigmas are the widths of the inner and outer gaussian; the
/// inner one must be strictly smaller. All fields are in thousandths.
#[derive(Debug, Clone, Copy)]
pub struct GaussianBuilder {
    /// Width of the inner gaussian, in thousandths.
    pub sigma_a: u32,
    /// Width of the outer gaussian, in thousandths.
    pub sigma_b: u32,
    /// Extra scale on the outer gaussian, in thousandths, if set.
    pub scalar: Option<u32>,
    /// Binary cutoff applied to the kernel response, in thousandths, if set.
    pub cutoff: Option<u32>,
}

impl GaussianBuilder {
    /// Both sigmas must be positive and the first strictly smaller than the second.
    pub fn create(sigma_a: u32, sigma_b: u32) -> (r: GaussianBuilder)
        requires
            0 < sigma_a < sigma_b,
        ensures
            r == (GaussianBuilder { sigma_a, sigma_b, scalar: None, cutoff: None }),
    {
        GaussianBuilder { sigma_a, sigma_b, scalar: None, cutoff: None }
    }

    pub fn scalar(self, scalar: u32) -> (r: GaussianBuilder)
        ensures
            r == (GaussianBuilder { scalar: Some(scalar), ..self }),
    {
        GaussianBuilder { scalar: Some(scalar), ..self }
    }

    pub fn cutoff(self, cutoff: u32) -> (r: GaussianBuilder)
        ensures
            r == (GaussianBuilder { cutoff: Some(cutoff), ..self }),
    {
        GaussianBuilder { cutoff: Some(cutoff), ..self }
    }
}

} // verus!
