//! Development badges: the red banner with its diagonal hatch, and the
//! decorative bug overlay with optional rotation.
//!
//! The decorative bug images are small shapes generated in code — one
//! coloured disc per identifier — so the crate carries no binary image
//! assets and every pixel of a badge is covered by the contracts.

use vstd::prelude::*;
use vstd::string::StrSliceExecFns;

use crate::compose::{lemma_mul_le, overlay_centered, spec_blend, spec_overlay_seq};
use crate::error::IconError;
use crate::raster::{
    lemma_dims_bound, lemma_row_major_index_in_range, spec_bytes_pixels, spec_pixels_bytes, Raster,
    Rgba,
};
use crate::resample::{lanczos_of, resize_to_fit};
use crate::textfmt::str_eq;

verus! {

/// The banner's base colour: semi-transparent red.
pub open spec fn spec_banner_color() -> Rgba {
    Rgba { r: 220, g: 40, b: 50, a: 200 }
}

/// The darker red of the diagonal hatch lines.
pub open spec fn spec_hatch_color() -> Rgba {
    Rgba { r: 150, g: 16, b: 24, a: 220 }
}

/// The banner pattern pixel for the absolute image coordinates (x, y):
/// hatch on the diagonal stripes, banner colour elsewhere.
pub open spec fn spec_banner_pattern(x: int, y: int) -> Rgba {
    if (x + y) % 12 < 4 {
        spec_hatch_color()
    } else {
        spec_banner_color()
    }
}

/// The flat pixels of the banner strip for a `w x h` image: a strip of
/// height `h/4` that will sit at vertical offset `h - h/4`.
pub open spec fn spec_banner_seq(w: int, h: int) -> Seq<Rgba> {
    Seq::new((w * (h / 4)) as nat, |i: int| spec_banner_pattern(i % w, i / w + (h - h / 4)))
}

/// The pixels of an image after the banner badge: the strip is
/// alpha-blended across the bottom quarter, everything above unchanged.
pub open spec fn spec_banner_badged(ps: Seq<Rgba>, w: int, h: int) -> Seq<Rgba> {
    spec_overlay_seq(ps, w, spec_banner_seq(w, h), w, h / 4, 0, h - h / 4)
}

/// Build the banner strip raster for a `w x h` image.
fn banner_pattern(w: u32, h: u32) -> (out: Raster)
    requires
        w <= crate::raster::MAX_DIM,
        h <= crate::raster::MAX_DIM,
    ensures
        out.wf(),
        out.width == w,
        out.height == h / 4,
        out.pixels@ == spec_banner_seq(w as int, h as int),
{
    let bh: u32 = h / 4;
    let oy: u32 = h - bh;
    proof {
        lemma_dims_bound(w as int, bh as int);
    }
    let n: usize = (w as usize) * (bh as usize);
    let mut pixels: Vec<Rgba> = Vec::new();
    let mut i: usize = 0;
    while i < n
        invariant
            i <= n,
            n <= 0x1000_0000,
            n == w * (h / 4),
            oy == h - h / 4,
            w <= crate::raster::MAX_DIM,
            h <= crate::raster::MAX_DIM,
            pixels@.len() == i,
            forall|j: int|
                0 <= j < i ==> pixels@[j] == spec_banner_pattern(
                    j % (w as int),
                    j / (w as int) + (h - h / 4),
                ),
        decreases n - i,
    {
        proof {
            assert(w as int > 0) by (nonlinear_arith)
                requires
                    0 <= (i as int) < (w as int) * (h as int / 4),
                    w >= 0,
            ;
            assert(0 <= i as int % (w as int) < w as int) by (nonlinear_arith)
                requires
                    w as int > 0,
                    i >= 0,
            ;
            assert(0 <= i as int / (w as int) <= i as int) by (nonlinear_arith)
                requires
                    w as int > 0,
                    i >= 0,
            ;
        }
        let x: usize = i % (w as usize);
        let y: usize = i / (w as usize);
        let gx: u64 = (x as u64) + (y as u64) + (oy as u64);
        let p = if gx % 12 < 4 {
            Rgba { r: 150, g: 16, b: 24, a: 220 }
        } else {
            Rgba { r: 220, g: 40, b: 50, a: 200 }
        };
        pixels.push(p);
        i = i + 1;
    }
    let out = Raster { width: w, height: bh, pixels };
    proof {
        assert(out.pixels@ =~= spec_banner_seq(w as int, h as int));
    }
    out
}

/// Draw the development banner across the bottom quarter of the image:
/// a semi-transparent red strip with a darker diagonal hatch blended on
/// top of the existing pixels.
pub fn apply_dev_badge(img: &mut Raster) -> (r: Result<(), IconError>)
    requires
        old(img).wf(),
    ensures
        r is Ok,
        final(img).wf(),
        final(img).width == old(img).width,
        final(img).height == old(img).height,
        final(img).pixels@ == spec_banner_badged(
            old(img).pixels@,
            old(img).width as int,
            old(img).height as int,
        ),
{
    let strip = banner_pattern(img.width, img.height);
    let oy: u32 = img.height - img.height / 4;
    let out = overlay_centered_strip(img, &strip, oy);
    *img = out;
    Ok(())
}

/// Place the banner strip at the bottom of the image.
fn overlay_centered_strip(base: &Raster, strip: &Raster, oy: u32) -> (out: Raster)
    requires
        base.wf(),
        strip.wf(),
        strip.width == base.width,
        oy + strip.height <= base.height,
    ensures
        out.wf(),
        out.width == base.width,
        out.height == base.height,
        out.pixels@ == spec_overlay_seq(
            base.pixels@,
            base.width as int,
            strip.pixels@,
            strip.width as int,
            strip.height as int,
            0,
            oy as int,
        ),
{
    crate::compose::overlay_at(base, strip, 0, oy)
}

/// The supported bug identifiers, as a code: a non-negative code for a
/// known identifier, -1 for anything else.
pub open spec fn spec_bug_kind(s: Seq<char>) -> int {
    if s == "moth"@ {
        0
    } else if s == "cockroach"@ {
        1
    } else if s == "ladybug"@ {
        2
    } else if s == "spider"@ {
        3
    } else {
        -1
    }
}

/// The body colour of each built-in bug image.
pub open spec fn spec_bug_color(k: int) -> Rgba {
    if k == 0 {
        Rgba { r: 142, g: 118, b: 86, a: 255 }
    } else if k == 1 {
        Rgba { r: 96, g: 56, b: 24, a: 255 }
    } else if k == 2 {
        Rgba { r: 204, g: 32, b: 32, a: 255 }
    } else {
        Rgba { r: 24, g: 24, b: 24, a: 255 }
    }
}

/// One pixel of the 64 x 64 built-in bug image: an opaque disc of the
/// bug's colour on a transparent field.
pub open spec fn spec_bug_pixel(k: int, x: int, y: int) -> Rgba {
    let ddx = 2 * x - 63;
    let ddy = 2 * y - 63;
    if ddx * ddx + ddy * ddy <= 2304 {
        spec_bug_color(k)
    } else {
        Rgba { r: 0, g: 0, b: 0, a: 0 }
    }
}

/// The flat pixels of the 64 x 64 built-in bug image for kind `k`.
pub open spec fn spec_bug_seq(k: int) -> Seq<Rgba> {
    Seq::new(64 * 64, |i: int| spec_bug_pixel(k, i % 64, i / 64))
}

/// The built-in decorative bug image for an identifier: a generated
/// placeholder disc in the identifier's colour, not stored artwork.
/// `Ok` exactly for the four supported identifiers (moth, cockroach,
/// ladybug, spider); anything else is an unknown-bug-kind error naming
/// the rejected identifier.
pub fn get_embedded_bug_image(bug_type: &str) -> (r: Result<Raster, IconError>)
    ensures
        r is Ok <==> spec_bug_kind(bug_type@) >= 0,
        r is Ok ==> (r->Ok_0).wf() && (r->Ok_0).width == 64 && (r->Ok_0).height == 64 && (
        r->Ok_0).pixels@ == spec_bug_seq(spec_bug_kind(bug_type@)),
        r is Err ==> (r->Err_0 matches IconError::UnknownBugKind { name } && name@ == bug_type@),
{
    let code: i32 = if str_eq(bug_type, "moth") {
        0
    } else if str_eq(bug_type, "cockroach") {
        1
    } else if str_eq(bug_type, "ladybug") {
        2
    } else if str_eq(bug_type, "spider") {
        3
    } else {
        -1
    };
    if code < 0 {
        return Err(IconError::UnknownBugKind { name: bug_type.to_owned() });
    }
    Ok(build_bug_raster(code as u32))
}

/// Build the 64 x 64 bug raster for a kind code.
fn build_bug_raster(k: u32) -> (out: Raster)
    requires
        k < 4,
    ensures
        out.wf(),
        out.width == 64,
        out.height == 64,
        out.pixels@ == spec_bug_seq(k as int),
{
    let color = if k == 0 {
        Rgba { r: 142, g: 118, b: 86, a: 255 }
    } else if k == 1 {
        Rgba { r: 96, g: 56, b: 24, a: 255 }
    } else if k == 2 {
        Rgba { r: 204, g: 32, b: 32, a: 255 }
    } else {
        Rgba { r: 24, g: 24, b: 24, a: 255 }
    };
    let mut pixels: Vec<Rgba> = Vec::new();
    let mut i: usize = 0;
    while i < 4096
        invariant
            i <= 4096,
            color == spec_bug_color(k as int),
            pixels@.len() == i,
            forall|j: int| 0 <= j < i ==> pixels@[j] == spec_bug_pixel(k as int, j % 64, j / 64),
        decreases 4096 - i,
    {
        let x: u64 = (i as u64) % 64;
        let y: u64 = (i as u64) / 64;
        let dx: u64 = if 2 * x >= 63 {
            2 * x - 63
        } else {
            63 - 2 * x
        };
        let dy: u64 = if 2 * y >= 63 {
            2 * y - 63
        } else {
            63 - 2 * y
        };
        proof {
            assert(dx as int * dx as int == (2 * (i as int % 64) - 63) * (2 * (i as int % 64)
                - 63)) by (nonlinear_arith)
                requires
                    dx as int == 2 * (i as int % 64) - 63 || dx as int == 63 - 2 * (i as int % 64),
            ;
            assert(dy as int * dy as int == (2 * (i as int / 64) - 63) * (2 * (i as int / 64)
                - 63)) by (nonlinear_arith)
                requires
                    dy as int == 2 * (i as int / 64) - 63 || dy as int == 63 - 2 * (i as int / 64),
            ;
            lemma_mul_le(dx as int, dx as int, 63, 63);
            lemma_mul_le(dy as int, dy as int, 63, 63);
        }
        let p = if dx * dx + dy * dy <= 2304 {
            color
        } else {
            Rgba { r: 0, g: 0, b: 0, a: 0 }
        };
        pixels.push(p);
        i = i + 1;
    }
    let out = Raster { width: 64, height: 64, pixels };
    proof {
        assert(out.pixels@ =~= spec_bug_seq(k as int));
    }
    out
}

/// Bhaskara's rational approximation of the sine of `d` degrees for
/// `0 <= d <= 180`, in 1/1024 fixed point.
pub open spec fn spec_sin_half(d: int) -> int {
    (4 * d * (180 - d) * 1024) / (40500 - d * (180 - d))
}

/// The approximate sine of `d` degrees (0 <= d < 360) in 1/1024 fixed
/// point.
pub open spec fn spec_sin_q10(d: int) -> int {
    if d <= 180 {
        spec_sin_half(d)
    } else {
        -spec_sin_half(d - 180)
    }
}

/// The approximate cosine of `d` degrees (0 <= d < 360) in 1/1024 fixed
/// point.
pub open spec fn spec_cos_q10(d: int) -> int {
    spec_sin_q10((d + 90) % 360)
}

/// The core quotient of the sine approximation stays within [0, 1024].
proof fn lemma_bha_quotient(x: int)
    requires
        0 <= x <= 8100,
    ensures
        0 <= (4 * x * 1024) / (40500 - x) <= 1024,
{
    let num = 4 * x * 1024;
    let den = 40500 - x;
    assert(num == 4096 * x);
    assert(num <= 1024 * den);
    vstd::arithmetic::div_mod::lemma_div_is_ordered(0, num, den);
    vstd::arithmetic::div_mod::lemma_div_is_ordered(num, 1024 * den, den);
    vstd::arithmetic::div_mod::lemma_div_multiples_vanish(0, den);
    assert((den * 1024) / den == 1024) by {
        vstd::arithmetic::div_mod::lemma_div_multiples_vanish(1024, den);
    }
    assert(1024 * den == den * 1024) by (nonlinear_arith);
}

/// The half-range sine approximation stays within [0, 1024].
proof fn lemma_sin_half_bounds(d: int)
    requires
        0 <= d <= 180,
    ensures
        0 <= spec_sin_half(d) <= 1024,
{
    let x = d * (180 - d);
    assert(0 <= x <= 8100) by (nonlinear_arith)
        requires
            0 <= d <= 180,
            x == d * (180 - d),
    ;
    lemma_bha_quotient(x);
    assert(4 * d * (180 - d) * 1024 == 4 * x * 1024) by (nonlinear_arith)
        requires
            x == d * (180 - d),
    ;
}

/// The approximate sine of `d` degrees in 1/1024 fixed point.
pub fn sin_q10(d: u32) -> (s: i32)
    requires
        d < 360,
    ensures
        s as int == spec_sin_q10(d as int),
        -1024 <= s <= 1024,
{
    if d <= 180 {
        sin_half(d)
    } else {
        let v = sin_half(d - 180);
        -v
    }
}

/// The approximate cosine of `d` degrees in 1/1024 fixed point.
pub fn cos_q10(d: u32) -> (c: i32)
    requires
        d < 360,
    ensures
        c as int == spec_cos_q10(d as int),
        -1024 <= c <= 1024,
{
    sin_q10((d + 90) % 360)
}

/// The half-range sine approximation.
fn sin_half(d: u32) -> (s: i32)
    requires
        d <= 180,
    ensures
        s as int == spec_sin_half(d as int),
        0 <= s <= 1024,
{
    proof {
        assert(0 <= (d as int) * (180 - d as int) <= 8100) by (nonlinear_arith)
            requires
                0 <= d as int <= 180,
        ;
    }
    let x: u32 = d * (180 - d);
    let num: u32 = 4 * x * 1024;
    let den: u32 = 40500 - x;
    let s: u32 = num / den;
    proof {
        lemma_bha_quotient(x as int);
        assert(4 * (d as int) * (180 - d as int) * 1024 == 4 * (x as int) * 1024)
            by (nonlinear_arith)
            requires
                x as int == (d as int) * (180 - d as int),
        ;
        assert(s as int == spec_sin_half(d as int));
    }
    s as i32
}

/// Products of values bounded in magnitude are bounded in magnitude.
proof fn lemma_mul_abs_bound(a: int, b: int, m1: int, m2: int)
    requires
        -m1 <= a <= m1,
        -m2 <= b <= m2,
        0 <= m1,
        0 <= m2,
    ensures
        -(m1 * m2) <= a * b <= m1 * m2,
{
    assert(-(m1 * m2) <= a * b <= m1 * m2) by (nonlinear_arith)
        requires
            -m1 <= a <= m1,
            -m2 <= b <= m2,
            0 <= m1,
            0 <= m2,
    ;
}

/// The pixel of a rotated image at (x, y): the source pixel at the
/// inverse-rotated destination offset (doubled, centre-relative
/// coordinates in 1/1024 fixed point), or transparent black when that
/// point falls outside the source.
pub open spec fn spec_rot_pixel(
    ps: Seq<Rgba>,
    w: int,
    h: int,
    cq: int,
    sq: int,
    x: int,
    y: int,
) -> Rgba {
    let tx = (2 * x - w) * cq + (2 * y - h) * sq + 1024 * w;
    let ty = (2 * y - h) * cq - (2 * x - w) * sq + 1024 * h;
    if 0 <= tx && 0 <= ty && tx / 2048 < w && ty / 2048 < h {
        ps[(ty / 2048) * w + tx / 2048]
    } else {
        Rgba { r: 0, g: 0, b: 0, a: 0 }
    }
}

/// The flat pixels of an image rotated by the direction (cq, sq).
pub open spec fn spec_rotated_seq(ps: Seq<Rgba>, w: int, h: int, cq: int, sq: int) -> Seq<Rgba> {
    Seq::new(ps.len(), |i: int| spec_rot_pixel(ps, w, h, cq, sq, i % w, i / w))
}

/// The flat pixels of an image rotated by `deg` degrees about its
/// centre, nearest-neighbour.
pub open spec fn spec_rotated(ps: Seq<Rgba>, w: int, h: int, deg: int) -> Seq<Rgba> {
    spec_rotated_seq(ps, w, h, spec_cos_q10(deg), spec_sin_q10(deg))
}

/// Rotate an image by `deg` degrees about its centre with
/// nearest-neighbour sampling; destination pixels whose source falls
/// outside the image stay transparent.
pub fn rotate_image(img: &Raster, deg: u32) -> (out: Raster)
    requires
        img.wf(),
        deg < 360,
    ensures
        out.wf(),
        out.width == img.width,
        out.height == img.height,
        out.pixels@ == spec_rotated(img.pixels@, img.width as int, img.height as int, deg as int),
{
    let cq: i32 = cos_q10(deg);
    let sq: i32 = sin_q10(deg);
    let w: usize = img.width as usize;
    let h: usize = img.height as usize;
    let n: usize = img.pixels.len();
    let mut pixels: Vec<Rgba> = Vec::new();
    let mut i: usize = 0;
    proof {
        lemma_dims_bound(img.width as int, img.height as int);
    }
    while i < n
        invariant
            i <= n,
            img.wf(),
            w == img.width,
            h == img.height,
            n == img.pixels@.len(),
            cq as int == spec_cos_q10(deg as int),
            sq as int == spec_sin_q10(deg as int),
            -1024 <= cq <= 1024,
            -1024 <= sq <= 1024,
            pixels@.len() == i,
            forall|j: int|
                0 <= j < i ==> pixels@[j] == spec_rot_pixel(
                    img.pixels@,
                    img.width as int,
                    img.height as int,
                    cq as int,
                    sq as int,
                    j % (w as int),
                    j / (w as int),
                ),
        decreases n - i,
    {
        proof {
            assert(w as int > 0) by (nonlinear_arith)
                requires
                    0 <= (i as int) < (w as int) * (h as int),
                    w >= 0,
            ;
            assert(0 <= i as int % (w as int) < w as int) by (nonlinear_arith)
                requires
                    w as int > 0,
                    i >= 0,
            ;
            assert(0 <= (i as int) / (w as int) < h as int) by (nonlinear_arith)
                requires
                    w as int > 0,
                    0 <= (i as int) < (w as int) * (h as int),
            ;
        }
        let x: usize = i % w;
        let y: usize = i / w;
        let ddx: i64 = 2 * (x as i64) - (w as i64);
        let ddy: i64 = 2 * (y as i64) - (h as i64);
        proof {
            lemma_mul_abs_bound(ddx as int, cq as int, 0x8000, 1024);
            lemma_mul_abs_bound(ddy as int, sq as int, 0x8000, 1024);
            lemma_mul_abs_bound(ddx as int, sq as int, 0x8000, 1024);
            lemma_mul_abs_bound(ddy as int, cq as int, 0x8000, 1024);
        }
        let tx: i64 = ddx * (cq as i64) + ddy * (sq as i64) + 1024 * (w as i64);
        let ty: i64 = ddy * (cq as i64) - ddx * (sq as i64) + 1024 * (h as i64);
        let p: Rgba = if tx >= 0 && ty >= 0 && tx / 2048 < w as i64 && ty / 2048 < h as i64 {
            let sx: u32 = (tx / 2048) as u32;
            let sy: u32 = (ty / 2048) as u32;
            proof {
                assert(0 <= tx as int / 2048) by (nonlinear_arith)
                    requires
                        tx as int >= 0,
                ;
                assert(0 <= ty as int / 2048) by (nonlinear_arith)
                    requires
                        ty as int >= 0,
                ;
            }
            img.pixel(sx, sy)
        } else {
            Rgba { r: 0, g: 0, b: 0, a: 0 }
        };
        pixels.push(p);
        i = i + 1;
    }
    let out = Raster { width: img.width, height: img.height, pixels };
    proof {
        assert(out.pixels@ =~= spec_rotated(
            img.pixels@,
            img.width as int,
            img.height as int,
            deg as int,
        ));
    }
    out
}

/// The bug-overlay target edge for an image: a quarter of the smaller
/// dimension, at least one pixel.
pub open spec fn spec_bug_target(w: int, h: int) -> int {
    let m = if w <= h {
        w
    } else {
        h
    };
    if m / 4 < 1 {
        1
    } else {
        m / 4
    }
}

/// The pixels of an image after the bug badge: the built-in bug image
/// for `k`, resampled to a quarter of the smaller dimension, rotated by
/// `deg` degrees when that is not zero, and alpha-blended centred on the
/// image.
pub open spec fn spec_bug_badged(ps: Seq<Rgba>, w: int, h: int, k: int, deg: int) -> Seq<Rgba> {
    let t = spec_bug_target(w, h);
    let resized = spec_bytes_pixels(lanczos_of(spec_pixels_bytes(spec_bug_seq(k)), 64, 64, t, t));
    let turned = if deg != 0 {
        spec_rotated(resized, t, t, deg)
    } else {
        resized
    };
    spec_overlay_seq(ps, w, turned, t, t, (w - t) / 2, (h - t) / 2)
}

/// Overlay the decorative bug image for `bug_type` centred on the
/// image, resized to a quarter of its smaller dimension and rotated by
/// `angle_degrees` (taken modulo a full turn). Fails exactly on an
/// unknown bug identifier, leaving the image untouched.
pub fn apply_dev_badge_with_bug(img: &mut Raster, bug_type: &str, angle_degrees: u32) -> (r:
    Result<(), IconError>)
    requires
        old(img).wf(),
        1 <= old(img).width,
        1 <= old(img).height,
    ensures
        r is Ok <==> spec_bug_kind(bug_type@) >= 0,
        r is Err ==> *final(img) == *old(img) && (r->Err_0 matches IconError::UnknownBugKind {
            name,
        } && name@ == bug_type@),
        r is Ok ==> final(img).wf() && final(img).width == old(img).width && final(img).height
            == old(img).height && final(img).pixels@ == spec_bug_badged(
            old(img).pixels@,
            old(img).width as int,
            old(img).height as int,
            spec_bug_kind(bug_type@),
            angle_degrees as int % 360,
        ),
{
    let bug = match get_embedded_bug_image(bug_type) {
        Ok(b) => b,
        Err(e) => {
            return Err(e);
        },
    };
    let m: u32 = if img.width <= img.height {
        img.width
    } else {
        img.height
    };
    let t: u32 = if m / 4 < 1 {
        1
    } else {
        m / 4
    };
    let resized = resize_to_fit(&bug, t);
    proof {
        assert((t as int * 64) / 64 == t as int) by (nonlinear_arith)
            requires
                t >= 1,
        ;
    }
    let deg: u32 = angle_degrees % 360;
    let turned = if deg != 0 {
        rotate_image(&resized, deg)
    } else {
        resized
    };
    let out = overlay_centered(img, &turned);
    *img = out;
    Ok(())
}

/// Relies on `rand::Rng::gen_range` over `rand::thread_rng`: a random
/// angle in degrees; nothing is assumed beyond its range.
#[verifier::external_body]
fn random_angle_degrees() -> (r: u32)
    ensures
        r < 360,
{
    rand::Rng::gen_range(&mut rand::thread_rng(), 0..360u32)
}

/// The pixels of an image after the badge pass that precedes every
/// save: the banner for the default (empty) selector, the bug overlay
/// for a named bug.
pub open spec fn spec_save_badged(
    ps: Seq<Rgba>,
    w: int,
    h: int,
    bug: Seq<char>,
    deg: int,
) -> Seq<Rgba> {
    if bug.len() == 0 {
        spec_banner_badged(ps, w, h)
    } else {
        spec_bug_badged(ps, w, h, spec_bug_kind(bug), deg)
    }
}

/// Apply the configured development badge to an image before it is
/// encoded: the banner for the default selector, the bug overlay (with
/// a random rotation for the moth) for a named bug. Fails exactly on an
/// unknown bug identifier.
pub fn apply_save_badge(img: &mut Raster, dev_bug: &str) -> (r: Result<(), IconError>)
    requires
        old(img).wf(),
        1 <= old(img).width,
        1 <= old(img).height,
    ensures
        r is Ok <==> (dev_bug@.len() == 0 || spec_bug_kind(dev_bug@) >= 0),
        r is Err ==> *final(img) == *old(img) && (r->Err_0 matches IconError::UnknownBugKind {
            name,
        } && name@ == dev_bug@),
        r is Ok ==> final(img).wf() && final(img).width == old(img).width && final(img).height
            == old(img).height && (exists|deg: int|
            0 <= deg < 360 && final(img).pixels@ == spec_save_badged(
                old(img).pixels@,
                old(img).width as int,
                old(img).height as int,
                dev_bug@,
                deg,
            )),
{
    if dev_bug.unicode_len() == 0 {
        let r = apply_dev_badge(img);
        proof {
            assert(img.pixels@ == spec_save_badged(
                old(img).pixels@,
                old(img).width as int,
                old(img).height as int,
                dev_bug@,
                0,
            ));
        }
        r
    } else {
        let angle: u32 = if str_eq(dev_bug, "moth") {
            random_angle_degrees()
        } else {
            0
        };
        let r = apply_dev_badge_with_bug(img, dev_bug, angle);
        proof {
            if r is Ok {
                assert(img.pixels@ == spec_save_badged(
                    old(img).pixels@,
                    old(img).width as int,
                    old(img).height as int,
                    dev_bug@,
                    angle as int % 360,
                ));
                assert(0 <= angle as int % 360 < 360) by (nonlinear_arith);
            }
        }
        r
    }
}

/// Anywhere in the banner strip, the badge leaves a pixel whose red
/// channel is at least 100 and whose alpha is positive, whatever lay
/// beneath.
pub proof fn lemma_banner_red(ps: Seq<Rgba>, w: int, h: int, x: int, y: int)
    requires
        ps.len() == w * h,
        0 <= x < w,
        h - h / 4 <= y < h,
        h >= 4,
    ensures
        spec_banner_badged(ps, w, h)[y * w + x].r >= 100,
        spec_banner_badged(ps, w, h)[y * w + x].a > 0,
{
    let i = y * w + x;
    lemma_row_major_index_in_range(w, h, x, y);
    vstd::arithmetic::div_mod::lemma_fundamental_div_mod_converse(i, w, y, x);
    let strip = spec_banner_seq(w, h);
    let oy = h - h / 4;
    let sy = y - oy;
    assert(0 <= sy < h / 4);
    lemma_row_major_index_in_range(w, h / 4, x, sy);
    vstd::arithmetic::div_mod::lemma_fundamental_div_mod_converse(sy * w + x, w, sy, x);
    let top = strip[sy * w + x];
    assert(top == spec_banner_pattern(x, sy + oy));
    assert(top == spec_banner_pattern(x, y));
    let base = ps[i];
    assert(spec_banner_badged(ps, w, h)[i] == spec_blend(top, base));
    lemma_blend_red_floor(top, base);
}

/// Blending a top pixel that is strongly red and mostly opaque keeps
/// the result red and visible.
proof fn lemma_blend_red_floor(top: Rgba, bottom: Rgba)
    requires
        top.r >= 150,
        top.a >= 200,
    ensures
        spec_blend(top, bottom).r >= 100,
        spec_blend(top, bottom).a > 0,
{
    let ta = top.a as int;
    let ba = bottom.a as int;
    let an = crate::compose::spec_alpha_num(ta, ba);
    assert(an >= 255 * 200) by (nonlinear_arith)
        requires
            ta >= 200,
            0 <= ba <= 255,
            an == 255 * ta + ba * (255 - ta),
    ;
    assert(an <= 255 * 255) by (nonlinear_arith)
        requires
            ta <= 255,
            0 <= ba <= 255,
            an == 255 * ta + ba * (255 - ta),
    ;
    assert(an / 255 >= 200);
    let num = 255 * (top.r as int) * ta + (bottom.r as int) * ba * (255 - ta);
    assert(num >= 255 * 150 * 200) by (nonlinear_arith)
        requires
            top.r as int >= 150,
            ta >= 200,
            0 <= (bottom.r as int) * ba * (255 - ta),
            num == 255 * (top.r as int) * ta + (bottom.r as int) * ba * (255 - ta),
            0 <= bottom.r as int,
            0 <= ba,
            ta <= 255,
    ;
    assert(num / an >= 100) by {
        assert(num >= 100 * an + an) by (nonlinear_arith)
            requires
                num >= 255 * 150 * 200,
                0 < an <= 255 * 255,
        ;
        vstd::arithmetic::div_mod::lemma_div_is_ordered(100 * an + an, num, an);
        assert((an * 101) / an == 101) by {
            vstd::arithmetic::div_mod::lemma_div_multiples_vanish(101, an);
        }
        assert(100 * an + an == an * 101) by (nonlinear_arith);
    }
    let chan = crate::compose::spec_blend_chan(top.r as int, ta, bottom.r as int, ba);
    crate::compose::lemma_blend_chan_bounds(top.r as int, ta, bottom.r as int, ba);
    assert(chan == num / an);
    assert(spec_blend(top, bottom).r as int == chan);
    assert(spec_blend(top, bottom).a as int == an / 255);
}

} // verus!
