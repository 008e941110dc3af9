//! Per-step parameter values carried by a pipeline's processing steps.
//!
//! The pipeline itself never interprets these settings; it only routes them
//! to the capability provider together with the artifact they apply to.
//! Fractional settings are fixed-point integers counted in thousandths, so
//! a value of `1000` stands for a factor of one.

use vstd::prelude::*;

verus! {

/// Settings for the luminance-extraction step.
#[derive(Debug, Clone, Copy)]
pub struct LuminanceFilter {
    /// Multiplier applied to every luminance value, in thousandths.
    pub multiplier: u32,
    /// Luminance values below this bound are treated as empty.
    pub min: u8,
}

impl LuminanceFilter {
    pub fn create() -> (r: Self)
        ensures
            r.multiplier == 1000,
            r.min == 0,
    {
        LuminanceFilter { multiplier: 1000, min: 0 }
    }

    pub fn multiplier(self, multiplier: u32) -> (r: Self)
        ensures
            r.multiplier == multiplier,
            r.min == self.min,
    {
        LuminanceFilter { multiplier, min: self.min }
    }

    pub fn min(self, min: u8) -> (r: Self)
        ensures
            r.multiplier == self.multiplier,
            r.min == min,
    {
        LuminanceFilter { multiplier: self.multiplier, min }
    }
}

/// How one output channel of the edge-colouring step is filled.
#[derive(Debug, Clone, Copy)]
pub enum SobelColorItem {
    /// Scale the normalised edge magnitude, factor in thousandths.
    NormalScale(u32),
    /// Scale the horizontal gradient, factor in thousandths.
    GxScale(u32),
    /// Scale the vertical gradient, factor in thousandths.
    GyScale(u32),
    /// A constant channel value.
    Absolute(u8),
    /// Leave the channel at zero.
    Zero,
}

/// Settings for the edge-detection colouring step, one rule per channel.
#[derive(Debug, Clone, Copy)]
pub struct SobelColorData {
    /// Edge magnitudes below this bound produce an empty pixel.
    pub magnitude_min: u8,
    pub r: SobelColorItem,
    pub g: SobelColorItem,
    pub b: SobelColorItem,
    pub a: SobelColorItem,
}

/// How the right-hand half of each doubled character cell is filled.
#[derive(Debug, Clone, Copy)]
pub enum AsciiSpaceType {
    /// Repeat the glyph of the left-hand half.
    Duplicate,
    /// Leave a space.
    Space,
    /// Use a fixed glyph.
    Raw(char),
}

/// Settings for the luminance-to-glyph quantisation step.
#[derive(Debug, Clone, Copy)]
pub struct LuminanceAsciiFilter {
    /// Edge length, in pixels, of the square block behind one glyph cell.
    pub font_size: usize,
    /// Glyph ramp indexed by quantised brightness, darkest first.
    pub chars: [char; 10],
    pub space_type: AsciiSpaceType,
}

impl LuminanceAsciiFilter {
    pub fn create() -> (r: LuminanceAsciiFilter)
        ensures
            r.font_size == 10,
            r.chars@ =~= seq![' ', '.', ';', 'c', 'o', 'P', '0', '?', '@', '#'],
            r.space_type is Space,
    {
        LuminanceAsciiFilter {
            font_size: 10,
            chars: [' ', '.', ';', 'c', 'o', 'P', '0', '?', '@', '#'],
            space_type: AsciiSpaceType::Space,
        }
    }

    pub fn font_size(self, font_size: usize) -> (r: Self)
        ensures
            r.font_size == font_size,
            r.chars == self.chars,
            r.space_type == self.space_type,
    {
        LuminanceAsciiFilter { font_size, chars: self.chars, space_type: self.space_type }
    }

    pub fn chars(self, chars: [char; 10]) -> (r: Self)
        ensures
            r.font_size == self.font_size,
            r.chars == chars,
            r.space_type == self.space_type,
    {
        LuminanceAsciiFilter { font_size: self.font_size, chars, space_type: self.space_type }
    }

    pub fn space_type(self, space_type: AsciiSpaceType) -> (r: Self)
        ensures
            r.font_size == self.font_size,
            r.chars == self.chars,
            r.space_type == space_type,
    {
        LuminanceAsciiFilter { font_size: self.font_size, chars: self.chars, space_type }
    }
}

/// Settings for the directional edge-to-glyph step.
#[derive(Debug, Clone, Copy)]
pub struct SobelAscii {
    /// Edge length, in pixels, of the square block behind one glyph cell.
    pub font_size: usize,
    /// Edge magnitudes below this bound count as empty.
    pub magnitude_min: u8,
    /// Largest tolerated share of empty pixels per cell, in thousandths.
    pub ascii_max: u32,
    /// Glyphs for the four edge directions.
    pub chars: [char; 4],
    pub space_type: AsciiSpaceType,
}

impl SobelAscii {
    pub fn create() -> (r: Self)
        ensures
            r.font_size == 10,
            r.magnitude_min == 10,
            r.ascii_max == 650,
            r.chars@ =~= seq!['|', '/', '-', '\\'],
            r.space_type is Space,
    {
        SobelAscii {
            font_size: 10,
            magnitude_min: 10,
            ascii_max: 650,
            chars: ['|', '/', '-', '\\'],
            space_type: AsciiSpaceType::Space,
        }
    }

    pub fn font_size(self, font_size: usize) -> (r: Self)
        ensures
            r == (SobelAscii { font_size, ..self }),
    {
        SobelAscii { font_size, ..self }
    }

    pub fn magnitude_min(self, magnitude_min: u8) -> (r: Self)
        ensures
            r == (SobelAscii { magnitude_min, ..self }),
    {
        SobelAscii { magnitude_min, ..self }
    }

    pub fn ascii_max(self, ascii_max: u32) -> (r: Self)
        ensures
            r == (SobelAscii { ascii_max, ..self }),
    {
        SobelAscii { ascii_max, ..self }
    }

    pub fn chars(self, chars: [char; 4]) -> (r: Self)
        ensures
            r == (SobelAscii { chars, ..self }),
    {
        SobelAscii { chars, ..self }
    }

    pub fn space_type(self, space_type: AsciiSpaceType) -> (r: Self)
        ensures
            r == (SobelAscii { space_type, ..self }),
    {
        SobelAscii { space_type, ..self }
    }
}

} // verus!

