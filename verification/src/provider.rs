//! The capability provider: the external collaborator that performs the
//! real per-step numeric transforms.
//!
//! The pipeline is written against this interface and never inspects pixel
//! or cell contents; it only routes typed artifacts between these
//! operations. Every operation is expected to be pure and deterministic
//! given identical inputs. Each one receives a well-formed artifact and
//! must hand back a well-formed one.

use vstd::prelude::*;

use crate::artifact::{CharImage, LumaAImage, RgbaImage};
use crate::filters::{LuminanceAsciiFilter, LuminanceFilter, SobelAscii, SobelColorData};
use crate::gaussians::{GaussianBuilder, GaussianColorData};

verus! {

/// One operation per step kind. Implementations may be CPU-bound,
/// accelerator-backed, or test doubles; the pipeline is polymorphic over
/// any conforming implementation.
pub trait VisustaProcessor {
    /// Extract luminance and alpha from a colour raster.
    fn rgba_to_luma_a(&self, img: &RgbaImage, filter: LuminanceFilter) -> (out: LumaAImage)
        requires
            img.wf(),
        ensures
            out.wf(),
    ;

    /// Expand a luminance raster back into a grey colour raster.
    fn luma_to_rgba(&self, img: &LumaAImage) -> (out: RgbaImage)
        requires
            img.wf(),
        ensures
            out.wf(),
    ;

    /// Colour the edges found by a gradient pass.
    fn sobel_to_colour(&self, img: &LumaAImage, filter: SobelColorData) -> (out: RgbaImage)
        requires
            img.wf(),
        ensures
            out.wf(),
    ;

    /// Turn gradient directions into a glyph grid.
    fn sobel_ascii_directional(&self, img: &LumaAImage, filter: SobelAscii) -> (out: CharImage)
        requires
            img.wf(),
        ensures
            out.wf(),
    ;

    /// Convolve a luminance raster with a difference-of-gaussians kernel.
    fn gaussian_on_luma(&self, img: &LumaAImage, builder: GaussianBuilder) -> (out: LumaAImage)
        requires
            img.wf(),
        ensures
            out.wf(),
    ;

    /// Convolve and colour the response in one pass.
    fn gaussian_to_coloured(
        &self,
        img: &LumaAImage,
        builder: GaussianBuilder,
        filter: GaussianColorData,
    ) -> (out: RgbaImage)
        requires
            img.wf(),
        ensures
            out.wf(),
    ;

    /// Quantise average brightness into a glyph grid.
    fn luminance_to_ascii(&self, img: &LumaAImage, filter: LuminanceAsciiFilter) -> (out: CharImage)
        requires
            img.wf(),
        ensures
            out.wf(),
    ;
}

} // verus!
