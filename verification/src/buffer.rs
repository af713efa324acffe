//! The pixel buffer that every stage of the pipeline works on.

use vstd::prelude::*;

verus! {

/// Number of bytes in an RGBA image of the given dimensions.
pub open spec fn byte_len(width: int, height: int) -> int {
    4 * (width * height)
}

/// The area of an image whose sides fit in 32 bits fits in 64 bits.
pub proof fn lemma_area_bound(width: int, height: int)
    requires
        0 <= width <= u32::MAX,
        0 <= height <= u32::MAX,
    ensures
        0 <= width * height <= 0xffff_fffe_0000_0001,
{
    assert(0 <= width * height <= 0xffff_ffff * 0xffff_ffff) by (nonlinear_arith)
        requires
            0 <= width <= 0xffff_ffff,
            0 <= height <= 0xffff_ffff,
    ;
}

/// One pixel: red, green, blue and alpha.
#[derive(Clone, Copy, Debug, PartialEq, Eq, Structural)]
pub struct Rgba {
    pub red: u8,
    pub green: u8,
    pub blue: u8,
    pub alpha: u8,
}

/// An owned grid of RGBA pixels: four bytes per pixel, rows from top to
/// bottom, pixels from left to right within a row.
#[derive(Debug)]
pub struct PixelBuffer {
    pub width: u32,
    pub height: u32,
    pub data: Vec<u8>,
}

/// What a pixel buffer stands for: an image of a width and a height, and
/// its bytes.
pub struct Raster {
    pub width: u32,
    pub height: u32,
    pub pixels: Seq<u8>,
}

impl View for PixelBuffer {
    type V = Raster;

    open spec fn view(&self) -> Raster {
        Raster { width: self.width, height: self.height, pixels: self.data@ }
    }
}

impl PixelBuffer {
    /// The buffer is rectangular: it holds exactly `width * height` pixels.
    pub open spec fn wf(&self) -> bool {
        self.data.len() == byte_len(self.width as int, self.height as int)
    }

    /// Same dimensions as `other`.
    pub open spec fn same_size(&self, other: &PixelBuffer) -> bool {
        self.width == other.width && self.height == other.height
    }

    /// Wraps raw bytes, if there are exactly as many as the dimensions ask for.
    pub fn new(width: u32, height: u32, data: Vec<u8>) -> (r: Option<PixelBuffer>)
        ensures
            r is Some <==> data@.len() == byte_len(width as int, height as int),
            r matches Some(b) ==> b.width == width && b.height == height && b.data == data
                && b.wf(),
    {
        proof {
            lemma_area_bound(width as int, height as int);
        }
        let pixels: u64 = (width as u64) * (height as u64);
        let len: u64 = data.len() as u64;
        if len % 4 == 0 && len / 4 == pixels {
            Some(PixelBuffer { width, height, data })
        } else {
            None
        }
    }

    /// A copy of the buffer.
    pub fn duplicate(&self) -> (r: PixelBuffer)
        ensures
            r@ == self@,
    {
        PixelBuffer { width: self.width, height: self.height, data: self.data.clone() }
    }
}

} // verus!
