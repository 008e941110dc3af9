//! In-memory artifact payloads that flow through a pipeline.
//!
//! Rasters are stored row-major as flat byte buffers: four bytes per pixel
//! (red, green, blue, alpha) for [`RgbaImage`], two bytes per pixel
//! (luminance, alpha) for [`LumaAImage`]. A [`CharImage`] stores one glyph
//! per cell, with the space character as the "nothing drawn" sentinel.

use vstd::prelude::*;

verus! {

/// A colour raster with an alpha channel, four bytes per pixel.
#[derive(Debug, PartialEq, Eq)]
pub struct RgbaImage {
    pub width: usize,
    pub height: usize,
    pub data: Vec<u8>,
}

impl RgbaImage {
    /// The buffer holds exactly four bytes for each of the `width * height` pixels.
    pub open spec fn wf(&self) -> bool {
        self.data@.len() == self.width * self.height * 4
    }
}

impl Clone for RgbaImage {
    fn clone(&self) -> (r: Self)
        ensures
            r.width == self.width,
            r.height == self.height,
            r.data@ == self.data@,
    {
        let data = clone_bytes(&self.data);
        RgbaImage { width: self.width, height: self.height, data }
    }
}

/// A single-channel luminance raster with an alpha channel, two bytes per pixel.
#[derive(Debug, PartialEq, Eq)]
pub struct LumaAImage {
    pub width: usize,
    pub height: usize,
    pub data: Vec<u8>,
}

impl LumaAImage {
    /// The buffer holds exactly two bytes for each of the `width * height` pixels.
    pub open spec fn wf(&self) -> bool {
        self.data@.len() == self.width * self.height * 2
    }
}

impl Clone for LumaAImage {
    fn clone(&self) -> (r: Self)
        ensures
            r.width == self.width,
            r.height == self.height,
            r.data@ == self.data@,
    {
        let data = clone_bytes(&self.data);
        LumaAImage { width: self.width, height: self.height, data }
    }
}

/// A grid of glyph cells; a space cell means "nothing drawn".
#[derive(Debug, PartialEq, Eq)]
pub struct CharImage {
    pub width: usize,
    pub height: usize,
    pub data: Vec<char>,
}

impl CharImage {
    /// The buffer holds exactly one glyph for each of the `width * height` cells.
    pub open spec fn wf(&self) -> bool {
        self.data@.len() == self.width * self.height
    }
}

impl Clone for CharImage {
    fn clone(&self) -> (r: Self)
        ensures
            r.width == self.width,
            r.height == self.height,
            r.data@ == self.data@,
    {
        let mut data: Vec<char> = Vec::new();
        let mut i: usize = 0;
        while i < self.data.len()
            invariant
                i <= self.data@.len(),
                data@ == self.data@.subrange(0, i as int),
            decreases self.data@.len() - i,
        {
            data.push(self.data[i]);
            i = i + 1;
        }
        proof {
            assert(data@ =~= self.data@);
        }
        CharImage { width: self.width, height: self.height, data }
    }
}

/// Byte-for-byte copy of a buffer.
fn clone_bytes(v: &Vec<u8>) -> (r: Vec<u8>)
    ensures
        r@ == v@,
{
    let mut r: Vec<u8> = Vec::new();
    let mut i: usize = 0;
    while i < v.len()
        invariant
            i <= v@.len(),
            r@ == v@.subrange(0, i as int),
        decreases v@.len() - i,
    {
        r.push(v[i]);
        i = i + 1;
    }
    proof {
        assert(r@ =~= v@);
    }
    r
}

} // verus!
