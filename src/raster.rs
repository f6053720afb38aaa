//! An RGBA raster: width, height and four bytes per pixel (red, green, blue,
//! alpha), rows top to bottom, pixels left to right.
use vstd::prelude::*;

verus! {

/// An RGBA raster. Pixel `i` (row-major, `i = y * width + x`) occupies bytes
/// `4 * i .. 4 * i + 4` of `data`.
#[derive(Debug)]
pub struct Raster {
    pub width: u32,
    pub height: u32,
    pub data: Vec<u8>,
}

/// The pixel at index `i` of RGBA bytes, as (red, green, blue, alpha).
pub open spec fn pixel_of(data: Seq<u8>, i: int) -> (u8, u8, u8, u8) {
    (data[4 * i], data[4 * i + 1], data[4 * i + 2], data[4 * i + 3])
}

/// Channel `c` (0 red, 1 green, 2 blue, 3 alpha) of a pixel.
pub open spec fn channel(p: (u8, u8, u8, u8), c: int) -> u8 {
    if c == 0 {
        p.0
    } else if c == 1 {
        p.1
    } else if c == 2 {
        p.2
    } else {
        p.3
    }
}

impl Raster {
    /// The byte buffer holds exactly four bytes for each of the
    /// `width * height` pixels.
    pub open spec fn wf(&self) -> bool {
        self.data@.len() == 4 * self.pixel_count()
    }

    pub open spec fn pixel_count(&self) -> int {
        (self.width as int) * (self.height as int)
    }

    pub open spec fn pixel(&self, i: int) -> (u8, u8, u8, u8) {
        pixel_of(self.data@, i)
    }

    /// The raster of the given size over `data`; `None` when `data` does not
    /// hold exactly four bytes per pixel.
    pub fn from_rgba(width: u32, height: u32, data: Vec<u8>) -> (r: Option<Raster>)
        ensures
            r.is_some() <==> data@.len() == 4 * ((width as int) * (height as int)),
            r.is_some() ==> r.unwrap().wf() && r.unwrap().width == width && r.unwrap().height
                == height && r.unwrap().data@ == data@,
    {
        proof {
            assert((width as int) * (height as int) <= u64::MAX) by (nonlinear_arith)
                requires
                    width <= u32::MAX,
                    height <= u32::MAX,
            ;
        }
        let n: u64 = (width as u64) * (height as u64);
        let len: usize = data.len();
        if n <= (usize::MAX as u64) / 4 && len == 4 * (n as usize) {
            Some(Raster { width, height, data })
        } else {
            None
        }
    }
}

} // verus!
