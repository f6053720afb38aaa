//! "Over" compositing of a uniform tint onto an RGBA raster.
use vstd::prelude::*;
use crate::cycle::Rgb;
use crate::raster::{Raster, channel, pixel_of};

verus! {

/// What `Pixel::blend` of the image crate makes of an RGBA pixel `bottom`
/// when the pixel `top` is composited over it; both as (red, green, blue, alpha).
pub uninterp spec fn blend_of(bottom: (u8, u8, u8, u8), top: (u8, u8, u8, u8)) -> (u8, u8, u8, u8);

/// Relies on `image::Pixel::blend` for `Rgba<u8>`, the step that
/// `image::imageops::overlay` takes at each pixel: the result depends on the
/// two pixels alone; a fully transparent `top` leaves `bottom` as it was, and a
/// fully opaque `top` replaces it.
#[verifier::external_body]
fn blend_pixel(bottom: (u8, u8, u8, u8), top: (u8, u8, u8, u8)) -> (r: (u8, u8, u8, u8))
    ensures
        r == blend_of(bottom, top),
        top.3 == 0 ==> r == bottom,
        top.3 == 255 ==> r == top,
{
    let mut px = image::Rgba([bottom.0, bottom.1, bottom.2, bottom.3]);
    image::Pixel::blend(&mut px, &image::Rgba([top.0, top.1, top.2, top.3]));
    (px.0[0], px.0[1], px.0[2], px.0[3])
}

/// The overlay pixel of a tint: its colour with the given alpha.
pub open spec fn tint(color: Rgb, alpha: u8) -> (u8, u8, u8, u8) {
    (color.r, color.g, color.b, alpha)
}

/// The bytes of an RGBA raster `data` with the pixel `top` composited over
/// every pixel.
pub open spec fn blended(data: Seq<u8>, top: (u8, u8, u8, u8)) -> Seq<u8> {
    Seq::new(data.len(), |k: int| channel(blend_of(pixel_of(data, k / 4), top), k % 4))
}

/// Blending only reads the base: blends of one base with two tints both start
/// from the same base pixels, pixel `i` of each being that tint over pixel `i`
/// of the base.
pub proof fn lemma_blend_starts_from_base(
    base: Seq<u8>,
    first: (u8, u8, u8, u8),
    second: (u8, u8, u8, u8),
    i: int,
)
    requires
        base.len() % 4 == 0,
        0 <= i < base.len() / 4,
    ensures
        blended(base, first).len() == base.len(),
        blended(base, second).len() == base.len(),
        pixel_of(blended(base, first), i) == blend_of(pixel_of(base, i), first),
        pixel_of(blended(base, second), i) == blend_of(pixel_of(base, i), second),
{
    lemma_blended_pixel(base, first, i);
    lemma_blended_pixel(base, second, i);
}

proof fn lemma_blended_pixel(base: Seq<u8>, top: (u8, u8, u8, u8), i: int)
    requires
        base.len() % 4 == 0,
        0 <= i < base.len() / 4,
    ensures
        blended(base, top).len() == base.len(),
        pixel_of(blended(base, top), i) == blend_of(pixel_of(base, i), top),
{
    let s = blended(base, top);
    assert((4 * i) / 4 == i && (4 * i + 1) / 4 == i && (4 * i + 2) / 4 == i && (4 * i + 3) / 4 == i);
    assert((4 * i) % 4 == 0 && (4 * i + 1) % 4 == 1 && (4 * i + 2) % 4 == 2 && (4 * i + 3) % 4 == 3);
    assert(s[4 * i] == channel(blend_of(pixel_of(base, i), top), 0));
}

/// A new raster of the size of `base`, each pixel the tint composited over the
/// base pixel at the same place. `base` itself is only read.
pub fn blend(base: &Raster, color: Rgb, alpha: u8) -> (r: Raster)
    requires
        base.wf(),
    ensures
        r.wf(),
        r.width == base.width,
        r.height == base.height,
        r.data@ == blended(base.data@, tint(color, alpha)),
        forall|i: int|
            0 <= i < base.pixel_count() ==> #[trigger] r.pixel(i) == blend_of(
                base.pixel(i),
                tint(color, alpha),
            ),
        alpha == 0 ==> r.data@ == base.data@,
        alpha == 255 ==> forall|i: int|
            0 <= i < base.pixel_count() ==> #[trigger] r.pixel(i) == tint(color, alpha),
{
    let top = (color.r, color.g, color.b, alpha);
    let n: usize = base.data.len() / 4;
    let mut data: Vec<u8> = Vec::with_capacity(base.data.len());
    let mut i: usize = 0;
    while i < n
        invariant
            base.wf(),
            n == base.pixel_count(),
            4 * n == base.data@.len(),
            base.data@.len() <= usize::MAX,
            top == tint(color, alpha),
            i <= n,
            data@.len() == 4 * i,
            forall|j: int|
                0 <= j < i ==> #[trigger] pixel_of(data@, j) == blend_of(base.pixel(j), top),
            alpha == 0 ==> data@ == base.data@.subrange(0, 4 * i as int),
            alpha == 255 ==> forall|j: int| 0 <= j < i ==> #[trigger] pixel_of(data@, j) == top,
        decreases n - i,
    {
        let k: usize = 4 * i;
        let bottom = (base.data[k], base.data[k + 1], base.data[k + 2], base.data[k + 3]);
        let out = blend_pixel(bottom, top);
        let ghost before = data@;
        data.push(out.0);
        data.push(out.1);
        data.push(out.2);
        data.push(out.3);
        assert forall|j: int| 0 <= j < i + 1 implies #[trigger] pixel_of(data@, j) == blend_of(
            base.pixel(j),
            top,
        ) by {
            if j < i {
                assert(pixel_of(data@, j) == pixel_of(before, j));
            }
        }
        if alpha == 0 {
            assert(data@ =~= base.data@.subrange(0, 4 * (i + 1) as int));
        }
        if alpha == 255 {
            assert forall|j: int| 0 <= j < i + 1 implies #[trigger] pixel_of(data@, j) == top by {
                if j < i {
                    assert(pixel_of(data@, j) == pixel_of(before, j));
                }
            }
        }
        i = i + 1;
    }
    if alpha == 0 {
        assert(data@ =~= base.data@);
    }
    assert forall|k: int| 0 <= k < data@.len() implies data@[k] == #[trigger] blended(
        base.data@,
        top,
    )[k] by {
        let j = k / 4;
        assert(0 <= j < n && k == 4 * j + k % 4);
        assert(pixel_of(data@, j) == blend_of(base.pixel(j), top));
    }
    assert(data@ =~= blended(base.data@, top));
    Raster { width: base.width, height: base.height, data }
}

} // verus!
