//! Packing RGBA pixels into the 0xAARRGGBB words a display surface expects.
use vstd::prelude::*;
use crate::raster::Raster;

verus! {

/// The 0xAARRGGBB word of a pixel given as (red, green, blue, alpha).
pub open spec fn argb(p: (u8, u8, u8, u8)) -> u32 {
    (p.3 as u32) << 24u32 | (p.0 as u32) << 16u32 | (p.1 as u32) << 8u32 | (p.2 as u32)
}

/// The same word as a number: alpha · 2^24 + red · 2^16 + green · 2^8 + blue.
pub open spec fn argb_value(p: (u8, u8, u8, u8)) -> int {
    (p.3 as int) * 0x1000000 + (p.0 as int) * 0x10000 + (p.1 as int) * 0x100 + (p.2 as int)
}

/// The bit layout and the arithmetic reading of a packed pixel agree.
pub proof fn lemma_argb_value(p: (u8, u8, u8, u8))
    ensures
        argb(p) as int == argb_value(p),
{
    let (r, g, b, a) = p;
    assert(((a as u32) << 24u32 | (r as u32) << 16u32 | (g as u32) << 8u32 | (b as u32)) as int
        == (a as int) * 0x1000000 + (r as int) * 0x10000 + (g as int) * 0x100 + (b as int))
        by (bit_vector);
}

/// Pack one pixel: alpha in the highest byte, then red, green, and blue in the
/// lowest.
pub fn pack_pixel(p: (u8, u8, u8, u8)) -> (r: u32)
    ensures
        r == argb(p),
        r as int == argb_value(p),
{
    proof {
        lemma_argb_value(p);
    }
    let red = p.0 as u32;
    let green = p.1 as u32;
    let blue = p.2 as u32;
    let alpha = p.3 as u32;
    (alpha << 24u32) | (red << 16u32) | (green << 8u32) | blue
}

/// One packed word per pixel of `image`, in row-major order from the top-left.
pub fn create_argb_buffer(image: &Raster) -> (r: Vec<u32>)
    requires
        image.wf(),
    ensures
        r@.len() == image.pixel_count(),
        forall|i: int| 0 <= i < image.pixel_count() ==> #[trigger] r@[i] == argb(image.pixel(i)),
{
    let n: usize = image.data.len() / 4;
    assert(n == image.pixel_count());
    let mut buffer: Vec<u32> = Vec::with_capacity(n);
    let mut i: usize = 0;
    while i < n
        invariant
            image.wf(),
            n == image.pixel_count(),
            4 * n == image.data@.len(),
            image.data@.len() <= usize::MAX,
            i <= n,
            buffer@.len() == i,
            forall|j: int| 0 <= j < i ==> #[trigger] buffer@[j] == argb(image.pixel(j)),
        decreases n - i,
    {
        let k: usize = 4 * i;
        let px = (image.data[k], image.data[k + 1], image.data[k + 2], image.data[k + 3]);
        buffer.push(pack_pixel(px));
        i = i + 1;
    }
    buffer
}

} // verus!
