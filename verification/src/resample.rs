//! Square resizing of rasters through a Lanczos-class filter.

use vstd::prelude::*;

use crate::raster::{spec_bytes_pixels, spec_pixels_bytes, Raster, MAX_DIM};

verus! {

/// The interleaved RGBA bytes that the Lanczos-3 resampler produces for
/// the given source bytes and dimensions. The resampler is a pure
/// function of its inputs: the same source and sizes always yield the
/// same bytes.
pub uninterp spec fn lanczos_of(src: Seq<u8>, sw: int, sh: int, nw: int, nh: int) -> Seq<u8>;

/// Relies on `image::imageops::resize` with `FilterType::Lanczos3`: it
/// returns a buffer of exactly `nw x nh` pixels resampled from the
/// source, deterministically in its inputs.
#[verifier::external_body]
fn lanczos_resize_rgba(bytes: &Vec<u8>, sw: u32, sh: u32, nw: u32, nh: u32) -> (r: Vec<u8>)
    requires
        1 <= sw <= MAX_DIM,
        1 <= sh <= MAX_DIM,
        1 <= nw <= MAX_DIM,
        1 <= nh <= MAX_DIM,
        bytes@.len() == 4 * (sw * sh),
    ensures
        r@.len() == 4 * (nw * nh),
        r@ == lanczos_of(bytes@, sw as int, sh as int, nw as int, nh as int),
{
    let img: image::RgbaImage = image::RgbaImage::from_raw(sw, sh, bytes.clone()).unwrap();
    let out = image::imageops::resize(&img, nw, nh, image::imageops::FilterType::Lanczos3);
    out.into_raw()
}

/// The pixels of `resize(img, n)`.
pub open spec fn spec_resized(img: &Raster, nw: int, nh: int) -> Seq<crate::raster::Rgba> {
    spec_bytes_pixels(
        lanczos_of(spec_pixels_bytes(img.pixels@), img.width as int, img.height as int, nw, nh),
    )
}

/// Resample a raster to `size x size` with the Lanczos-3 filter. Always
/// yields a raster of exactly the requested dimensions; resizing itself
/// cannot fail for positive sizes in range.
pub fn resize(img: &Raster, size: u32) -> (out: Raster)
    requires
        img.wf(),
        1 <= img.width,
        1 <= img.height,
        1 <= size <= MAX_DIM,
    ensures
        out.wf(),
        out.width == size,
        out.height == size,
        out.pixels@ == spec_resized(img, size as int, size as int),
{
    let bytes = img.to_bytes();
    let resized = lanczos_resize_rgba(&bytes, img.width, img.height, size, size);
    Raster::from_bytes(&resized, size, size)
}

/// Resample a raster to fit inside a `target x target` box while keeping
/// its aspect ratio: the longer edge becomes `target`, the shorter one is
/// scaled in proportion (never below one pixel).
pub fn resize_to_fit(img: &Raster, target: u32) -> (out: Raster)
    requires
        img.wf(),
        1 <= img.width,
        1 <= img.height,
        1 <= target <= MAX_DIM,
    ensures
        out.wf(),
        out.width == spec_fit_width(img.width as int, img.height as int, target as int),
        out.height == spec_fit_height(img.width as int, img.height as int, target as int),
        out.width <= target,
        out.height <= target,
        1 <= out.width,
        1 <= out.height,
        out.pixels@ == spec_resized(img, out.width as int, out.height as int),
{
    let (nw, nh): (u32, u32) = if img.width > img.height {
        proof {
            crate::compose::lemma_mul_le(target as int, img.height as int, 0x4000, 0x4000);
            lemma_fit_side_in_range(img.width as int, img.height as int, target as int);
        }
        let h: u64 = (target as u64) * (img.height as u64) / (img.width as u64);
        (target, if h < 1 {
            1u32
        } else {
            h as u32
        })
    } else {
        proof {
            crate::compose::lemma_mul_le(target as int, img.width as int, 0x4000, 0x4000);
            lemma_fit_side_in_range(img.height as int, img.width as int, target as int);
        }
        let w: u64 = (target as u64) * (img.width as u64) / (img.height as u64);
        (if w < 1 {
            1u32
        } else {
            w as u32
        }, target)
    };
    let bytes = img.to_bytes();
    let resized = lanczos_resize_rgba(&bytes, img.width, img.height, nw, nh);
    Raster::from_bytes(&resized, nw, nh)
}

/// Width of the aspect-preserving fit of (w, h) into a `t`-sized box.
pub open spec fn spec_fit_width(w: int, h: int, t: int) -> int {
    if w > h {
        t
    } else {
        let s = t * w / h;
        if s < 1 {
            1
        } else {
            s
        }
    }
}

/// Height of the aspect-preserving fit of (w, h) into a `t`-sized box.
pub open spec fn spec_fit_height(w: int, h: int, t: int) -> int {
    if w > h {
        let s = t * h / w;
        if s < 1 {
            1
        } else {
            s
        }
    } else {
        t
    }
}

/// The scaled shorter side `t * b / a` of an aspect-preserving fit stays
/// within `[0, t]` when `b <= a`.
proof fn lemma_fit_side_in_range(a: int, b: int, t: int)
    requires
        1 <= b <= a,
        1 <= t,
    ensures
        0 <= t * b / a <= t,
{
    assert(0 <= t * b / a) by (nonlinear_arith)
        requires
            1 <= b,
            1 <= t,
            1 <= a,
    ;
    assert(t * b / a <= t) by (nonlinear_arith)
        requires
            1 <= b <= a,
            1 <= t,
    ;
}

} // verus!
