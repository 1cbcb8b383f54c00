//! Pixel compositing: straight-alpha blending, background flattening,
//! overlay placement and the circular mask used for round launcher icons.

use vstd::prelude::*;

use crate::raster::{lemma_dims_bound, lemma_row_major_index_in_range, Raster, Rgba};

verus! {

/// Numerator of the blended alpha, scaled by 255: `255*ta + ba*(255-ta)`.
pub open spec fn spec_alpha_num(ta: int, ba: int) -> int {
    255 * ta + ba * (255 - ta)
}

/// One blended colour channel, scaled against `spec_alpha_num`.
pub open spec fn spec_blend_chan(tc: int, ta: int, bc: int, ba: int) -> int {
    (255 * tc * ta + bc * ba * (255 - ta)) / spec_alpha_num(ta, ba)
}

/// Straight-alpha "top over bottom" blending:
/// `out_a = ta + ba*(1-ta)`, `out_c = (tc*ta + bc*ba*(1-ta)) / out_a`,
/// evaluated in 1/255 fixed point; fully transparent black when both
/// layers are fully transparent.
pub open spec fn spec_blend(top: Rgba, bottom: Rgba) -> Rgba {
    let ta = top.a as int;
    let ba = bottom.a as int;
    let an = spec_alpha_num(ta, ba);
    if an == 0 {
        Rgba { r: 0, g: 0, b: 0, a: 0 }
    } else {
        Rgba {
            r: spec_blend_chan(top.r as int, ta, bottom.r as int, ba) as u8,
            g: spec_blend_chan(top.g as int, ta, bottom.g as int, ba) as u8,
            b: spec_blend_chan(top.b as int, ta, bottom.b as int, ba) as u8,
            a: (an / 255) as u8,
        }
    }
}

/// A foreground pixel flattened onto an opaque background colour:
/// `out_c = (fg_c*fg_a + bg_c*(255-fg_a)) / 255`, output fully opaque.
pub open spec fn spec_bg_composite(fg: Rgba, bg_r: u8, bg_g: u8, bg_b: u8) -> Rgba {
    let fa = fg.a as int;
    Rgba {
        r: ((fg.r as int * fa + bg_r as int * (255 - fa)) / 255) as u8,
        g: ((fg.g as int * fa + bg_g as int * (255 - fa)) / 255) as u8,
        b: ((fg.b as int * fa + bg_b as int * (255 - fa)) / 255) as u8,
        a: 255,
    }
}

/// Products grow monotonically with their factors.
pub proof fn lemma_mul_le(a: int, b: int, a2: int, b2: int)
    requires
        0 <= a <= a2,
        0 <= b <= b2,
    ensures
        0 <= a * b <= a2 * b2,
{
    assert(0 <= a * b <= a2 * b2) by (nonlinear_arith)
        requires
            0 <= a <= a2,
            0 <= b <= b2,
    ;
}

/// A channel blended against an in-range alpha numerator stays a byte.
pub proof fn lemma_blend_chan_bounds(tc: int, ta: int, bc: int, ba: int)
    requires
        0 <= tc <= 255,
        0 <= ta <= 255,
        0 <= bc <= 255,
        0 <= ba <= 255,
        spec_alpha_num(ta, ba) > 0,
    ensures
        0 <= spec_blend_chan(tc, ta, bc, ba) <= 255,
{
    let an = spec_alpha_num(ta, ba);
    assert(255 * tc * ta + bc * ba * (255 - ta) <= 255 * an) by (nonlinear_arith)
        requires
            0 <= tc <= 255,
            0 <= ta <= 255,
            0 <= bc <= 255,
            0 <= ba <= 255,
            an == 255 * ta + ba * (255 - ta),
    ;
    assert(255 * tc * ta + bc * ba * (255 - ta) >= 0) by (nonlinear_arith)
        requires
            0 <= tc,
            0 <= ta <= 255,
            0 <= bc,
            0 <= ba,
    ;
    assert((255 * tc * ta + bc * ba * (255 - ta)) / an <= 255) by (nonlinear_arith)
        requires
            an > 0,
            255 * tc * ta + bc * ba * (255 - ta) <= 255 * an,
            255 * tc * ta + bc * ba * (255 - ta) >= 0,
    ;
}

/// Blend one pixel over another with the straight-alpha formula.
pub fn blend_pixel(top: Rgba, bottom: Rgba) -> (out: Rgba)
    ensures
        out == spec_blend(top, bottom),
{
    let ta: u32 = top.a as u32;
    let ba: u32 = bottom.a as u32;
    let tr: u32 = 255 - ta;
    proof {
        lemma_mul_le(ba as int, tr as int, 255, 255);
    }
    let an: u32 = 255 * ta + ba * tr;
    if an == 0 {
        Rgba { r: 0, g: 0, b: 0, a: 0 }
    } else {
        proof {
            lemma_blend_chan_bounds(top.r as int, ta as int, bottom.r as int, ba as int);
            lemma_blend_chan_bounds(top.g as int, ta as int, bottom.g as int, ba as int);
            lemma_blend_chan_bounds(top.b as int, ta as int, bottom.b as int, ba as int);
            lemma_mul_le(255 * top.r as int, ta as int, (255 * 255) as int, 255int);
            lemma_mul_le(255 * top.g as int, ta as int, (255 * 255) as int, 255int);
            lemma_mul_le(255 * top.b as int, ta as int, (255 * 255) as int, 255int);
            lemma_mul_le(bottom.r as int, ba as int, 255, 255);
            lemma_mul_le(bottom.g as int, ba as int, 255, 255);
            lemma_mul_le(bottom.b as int, ba as int, 255, 255);
            lemma_mul_le(bottom.r as int * ba as int, tr as int, (255 * 255) as int, 255int);
            lemma_mul_le(bottom.g as int * ba as int, tr as int, (255 * 255) as int, 255int);
            lemma_mul_le(bottom.b as int * ba as int, tr as int, (255 * 255) as int, 255int);
        }
        let r: u32 = (255 * (top.r as u32) * ta + (bottom.r as u32) * ba * tr) / an;
        let g: u32 = (255 * (top.g as u32) * ta + (bottom.g as u32) * ba * tr) / an;
        let b: u32 = (255 * (top.b as u32) * ta + (bottom.b as u32) * ba * tr) / an;
        Rgba { r: r as u8, g: g as u8, b: b as u8, a: (an / 255) as u8 }
    }
}

/// Flatten one pixel onto an opaque background colour.
pub fn bg_composite_pixel(fg: Rgba, bg_r: u8, bg_g: u8, bg_b: u8) -> (out: Rgba)
    ensures
        out == spec_bg_composite(fg, bg_r, bg_g, bg_b),
{
    let fa: u32 = fg.a as u32;
    let tr: u32 = 255 - fa;
    proof {
        lemma_mul_le(fg.r as int, fa as int, 255, 255);
        lemma_mul_le(fg.g as int, fa as int, 255, 255);
        lemma_mul_le(fg.b as int, fa as int, 255, 255);
        lemma_mul_le(bg_r as int, tr as int, 255, 255);
        lemma_mul_le(bg_g as int, tr as int, 255, 255);
        lemma_mul_le(bg_b as int, tr as int, 255, 255);
        lemma_mul_le(fg.r as int, fa as int, 255, fa as int);
        lemma_mul_le(fg.g as int, fa as int, 255, fa as int);
        lemma_mul_le(fg.b as int, fa as int, 255, fa as int);
        lemma_mul_le(bg_r as int, tr as int, 255, tr as int);
        lemma_mul_le(bg_g as int, tr as int, 255, tr as int);
        lemma_mul_le(bg_b as int, tr as int, 255, tr as int);
    }
    let r: u32 = ((fg.r as u32) * fa + (bg_r as u32) * tr) / 255;
    let g: u32 = ((fg.g as u32) * fa + (bg_g as u32) * tr) / 255;
    let b: u32 = ((fg.b as u32) * fa + (bg_b as u32) * tr) / 255;
    Rgba { r: r as u8, g: g as u8, b: b as u8, a: 255 }
}

/// A pixel sequence flattened onto an opaque background colour.
pub open spec fn spec_bg_composite_seq(ps: Seq<Rgba>, bg_r: u8, bg_g: u8, bg_b: u8) -> Seq<Rgba> {
    Seq::new(ps.len(), |i: int| spec_bg_composite(ps[i], bg_r, bg_g, bg_b))
}

/// The pixel of `composite_background(img, ..)` at flat index `i`.
pub open spec fn spec_bg_composite_at(img: &Raster, bg_r: u8, bg_g: u8, bg_b: u8, i: int) -> Rgba {
    spec_bg_composite(img.pixels@[i], bg_r, bg_g, bg_b)
}

/// Flatten a raster onto an opaque background colour; the result carries
/// no transparency.
pub fn composite_background(img: &Raster, bg_r: u8, bg_g: u8, bg_b: u8) -> (out: Raster)
    requires
        img.wf(),
    ensures
        out.wf(),
        out.width == img.width,
        out.height == img.height,
        forall|i: int|
            0 <= i < img.pixels@.len() ==> out.pixels@[i] == spec_bg_composite_at(
                img,
                bg_r,
                bg_g,
                bg_b,
                i,
            ),
        out.pixels@ == spec_bg_composite_seq(img.pixels@, bg_r, bg_g, bg_b),
{
    let n: usize = img.pixels.len();
    let mut pixels: Vec<Rgba> = Vec::new();
    let mut i: usize = 0;
    while i < n
        invariant
            i <= n,
            n == img.pixels@.len(),
            pixels@.len() == i,
            forall|j: int|
                0 <= j < i ==> pixels@[j] == spec_bg_composite_at(img, bg_r, bg_g, bg_b, j),
        decreases n - i,
    {
        let p = bg_composite_pixel(img.pixels[i], bg_r, bg_g, bg_b);
        pixels.push(p);
        i = i + 1;
    }
    proof {
        assert(pixels@ =~= spec_bg_composite_seq(img.pixels@, bg_r, bg_g, bg_b));
    }
    Raster { width: img.width, height: img.height, pixels }
}

/// Fully opaque foreground: the background colour never shows through;
/// every channel keeps the foreground value and alpha stays 255.
pub proof fn lemma_bg_composite_opaque(fg: Rgba, bg_r: u8, bg_g: u8, bg_b: u8)
    requires
        fg.a == 255,
    ensures
        spec_bg_composite(fg, bg_r, bg_g, bg_b) == (Rgba {
            r: fg.r,
            g: fg.g,
            b: fg.b,
            a: 255,
        }),
{
    assert(fg.r as int * 255 + bg_r as int * 0 == fg.r as int * 255);
    assert((fg.r as int * 255) / 255 == fg.r as int);
    assert((fg.g as int * 255) / 255 == fg.g as int);
    assert((fg.b as int * 255) / 255 == fg.b as int);
}

/// Fully transparent foreground: the output is exactly the background
/// colour, fully opaque.
pub proof fn lemma_bg_composite_transparent(fg: Rgba, bg_r: u8, bg_g: u8, bg_b: u8)
    requires
        fg.a == 0,
    ensures
        spec_bg_composite(fg, bg_r, bg_g, bg_b) == (Rgba {
            r: bg_r,
            g: bg_g,
            b: bg_b,
            a: 255,
        }),
{
    assert((fg.r as int * 0 + bg_r as int * 255) / 255 == bg_r as int);
    assert((fg.g as int * 0 + bg_g as int * 255) / 255 == bg_g as int);
    assert((fg.b as int * 0 + bg_b as int * 255) / 255 == bg_b as int);
}

/// Splitting a flat row-major index back into its coordinates.
pub proof fn lemma_flat_coord(w: int, x: int, y: int)
    requires
        0 <= x < w,
        0 <= y,
    ensures
        (y * w + x) % w == x,
        (y * w + x) / w == y,
{
    vstd::arithmetic::div_mod::lemma_fundamental_div_mod_converse(y * w + x, w, y, x);
}

/// The pixel of `overlay_at(base, top, ox, oy)` at (x, y): inside the
/// placed rectangle the top layer is alpha-blended over the base, outside
/// it the base shows unchanged.
pub open spec fn spec_overlay_pixel(
    base: &Raster,
    top: &Raster,
    ox: int,
    oy: int,
    x: int,
    y: int,
) -> Rgba {
    if ox <= x < ox + top.width && oy <= y < oy + top.height {
        spec_blend(top.spec_pixel(x - ox, y - oy), base.spec_pixel(x, y))
    } else {
        base.spec_pixel(x, y)
    }
}

/// The flat pixel sequence of an overlay, for chaining operations in
/// specifications.
pub open spec fn spec_overlay_seq(
    base: Seq<Rgba>,
    bw: int,
    top: Seq<Rgba>,
    tw: int,
    th: int,
    ox: int,
    oy: int,
) -> Seq<Rgba> {
    Seq::new(
        base.len(),
        |i: int|
            {
                let x = i % bw;
                let y = i / bw;
                if ox <= x < ox + tw && oy <= y < oy + th {
                    spec_blend(top[(y - oy) * tw + (x - ox)], base[i])
                } else {
                    base[i]
                }
            },
    )
}

/// Alpha-composite `top` onto `base` with its upper-left corner at
/// (ox, oy); the placed rectangle must lie inside the base.
pub fn overlay_at(base: &Raster, top: &Raster, ox: u32, oy: u32) -> (out: Raster)
    requires
        base.wf(),
        top.wf(),
        ox + top.width <= base.width,
        oy + top.height <= base.height,
    ensures
        out.wf(),
        out.width == base.width,
        out.height == base.height,
        forall|x: int, y: int|
            0 <= x < base.width && 0 <= y < base.height ==> out.spec_pixel(x, y)
                == spec_overlay_pixel(base, top, ox as int, oy as int, x, y),
        out.pixels@ == spec_overlay_seq(
            base.pixels@,
            base.width as int,
            top.pixels@,
            top.width as int,
            top.height as int,
            ox as int,
            oy as int,
        ),
{
    let w: usize = base.width as usize;
    let n: usize = base.pixels.len();
    let mut pixels: Vec<Rgba> = Vec::new();
    let mut i: usize = 0;
    proof {
        lemma_dims_bound(base.width as int, base.height as int);
    }
    while i < n
        invariant
            i <= n,
            base.wf(),
            top.wf(),
            w == base.width,
            n == base.pixels@.len(),
            ox + top.width <= base.width,
            oy + top.height <= base.height,
            pixels@.len() == i,
            forall|j: int|
                0 <= j < i ==> pixels@[j] == spec_overlay_pixel(
                    base,
                    top,
                    ox as int,
                    oy as int,
                    j % (w as int),
                    j / (w as int),
                ),
        decreases n - i,
    {
        let x: usize = i % w;
        let y: usize = i / w;
        proof {
            assert(w > 0);
            assert(0 <= i as int % (w as int) < w as int) by (nonlinear_arith)
                requires
                    w > 0,
                    i >= 0,
            ;
            assert(i as int / (w as int) < base.height as int) by (nonlinear_arith)
                requires
                    w > 0,
                    (i as int) < base.width * base.height,
                    w == base.width,
            ;
            assert(i as int / (w as int) >= 0) by (nonlinear_arith)
                requires
                    w > 0,
                    i >= 0,
            ;
            lemma_row_major_index_in_range(
                base.width as int,
                base.height as int,
                x as int,
                y as int,
            );
            vstd::arithmetic::div_mod::lemma_fundamental_div_mod(i as int, w as int);
        }
        let base_px = base.pixel(x as u32, y as u32);
        let in_top = x as u32 >= ox && (x as u32 - ox) < top.width && y as u32 >= oy && (y as u32
            - oy) < top.height;
        let px = if in_top {
            let tp = top.pixel(x as u32 - ox, y as u32 - oy);
            blend_pixel(tp, base_px)
        } else {
            base_px
        };
        pixels.push(px);
        i = i + 1;
    }
    let out = Raster { width: base.width, height: base.height, pixels };
    proof {
        assert forall|x: int, y: int|
            0 <= x < base.width && 0 <= y < base.height implies out.spec_pixel(x, y)
            == spec_overlay_pixel(base, top, ox as int, oy as int, x, y) by {
            lemma_row_major_index_in_range(base.width as int, base.height as int, x, y);
            lemma_flat_coord(base.width as int, x, y);
        }
        assert forall|i: int| 0 <= i < base.pixels@.len() implies pixels@[i] == spec_overlay_seq(
            base.pixels@,
            base.width as int,
            top.pixels@,
            top.width as int,
            top.height as int,
            ox as int,
            oy as int,
        )[i] by {
            let bw = base.width as int;
            assert(base.pixels@.len() == bw * (base.height as int));
            assert(bw > 0) by (nonlinear_arith)
                requires
                    0 <= i < bw * (base.height as int),
                    bw >= 0,
            ;
            assert(0 <= i % bw < bw) by (nonlinear_arith)
                requires
                    bw > 0,
                    i >= 0,
            ;
            assert(0 <= i / bw < base.height as int) by (nonlinear_arith)
                requires
                    bw > 0,
                    0 <= i < bw * (base.height as int),
            ;
            vstd::arithmetic::div_mod::lemma_fundamental_div_mod(i, bw);
            lemma_row_major_index_in_range(bw, base.height as int, i % bw, i / bw);
        }
        assert(pixels@ =~= spec_overlay_seq(
            base.pixels@,
            base.width as int,
            top.pixels@,
            top.width as int,
            top.height as int,
            ox as int,
            oy as int,
        ));
    }
    out
}

/// Alpha-composite `top` centred on `base`.
pub fn overlay_centered(base: &Raster, top: &Raster) -> (out: Raster)
    requires
        base.wf(),
        top.wf(),
        top.width <= base.width,
        top.height <= base.height,
    ensures
        out.wf(),
        out.width == base.width,
        out.height == base.height,
        forall|x: int, y: int|
            0 <= x < base.width && 0 <= y < base.height ==> out.spec_pixel(x, y)
                == spec_overlay_pixel(
                base,
                top,
                ((base.width - top.width) as int) / 2,
                ((base.height - top.height) as int) / 2,
                x,
                y,
            ),
        out.pixels@ == spec_overlay_seq(
            base.pixels@,
            base.width as int,
            top.pixels@,
            top.width as int,
            top.height as int,
            ((base.width - top.width) as int) / 2,
            ((base.height - top.height) as int) / 2,
        ),
{
    let ox: u32 = (base.width - top.width) / 2;
    let oy: u32 = (base.height - top.height) / 2;
    overlay_at(base, top, ox, oy)
}

/// `r` is the integer square root of `n`.
pub open spec fn spec_is_sqrt(n: int, r: int) -> bool {
    &&& 0 <= r
    &&& r * r <= n
    &&& n < (r + 1) * (r + 1)
}

/// The integer square root, defined by its characteristic property.
pub open spec fn spec_sqrt_floor(n: int) -> int {
    choose|r: int| spec_is_sqrt(n, r)
}

/// The characteristic property picks out exactly one root.
pub proof fn lemma_sqrt_floor_is(n: int, r: int)
    requires
        spec_is_sqrt(n, r),
    ensures
        spec_sqrt_floor(n) == r,
{
    assert(spec_is_sqrt(n, spec_sqrt_floor(n))) by {
        assert(spec_is_sqrt(n, r));
    }
    let q = spec_sqrt_floor(n);
    assert(q == r) by (nonlinear_arith)
        requires
            0 <= r,
            r * r <= n,
            n < (r + 1) * (r + 1),
            0 <= q,
            q * q <= n,
            n < (q + 1) * (q + 1),
    ;
}

/// Integer square root by bisection.
pub fn isqrt(n: u64) -> (r: u64)
    requires
        n < 0x1_0000_0000_0000,
    ensures
        spec_is_sqrt(n as int, r as int),
        spec_sqrt_floor(n as int) == r,
{
    let mut lo: u64 = 0;
    let mut hi: u64 = 0x100_0000;
    assert(hi * hi == 0x1_0000_0000_0000) by (nonlinear_arith)
        requires
            hi == 0x100_0000,
    ;
    while hi - lo > 1
        invariant
            lo < hi <= 0x100_0000,
            lo * lo <= n,
            n < hi * hi,
        decreases hi - lo,
    {
        let mid: u64 = lo + (hi - lo) / 2;
        assert(lo < mid < hi);
        proof {
            lemma_mul_le(mid as int, mid as int, 0x100_0000, 0x100_0000);
        }
        if mid * mid <= n {
            lo = mid;
        } else {
            hi = mid;
        }
    }
    proof {
        assert(hi == lo + 1);
        lemma_sqrt_floor_is(n as int, lo as int);
    }
    lo
}

/// Squared doubled distance of pixel (x, y) from the raster centre.
pub open spec fn spec_mask_d2(w: int, h: int, x: int, y: int) -> int {
    let ddx = 2 * x - w;
    let ddy = 2 * y - h;
    ddx * ddx + ddy * ddy
}

/// The alpha left by the circular mask at (x, y) for an input alpha `a`:
/// zero strictly outside the inscribed circle, scaled linearly within one
/// pixel of the boundary, unchanged inside.
pub open spec fn spec_masked_alpha(w: int, h: int, x: int, y: int, a: int) -> int {
    let m = if w <= h {
        w
    } else {
        h
    };
    let d2 = spec_mask_d2(w, h, x, y);
    if d2 > m * m {
        0
    } else if d2 > (m - 2) * (m - 2) {
        (a * (256 * m - spec_sqrt_floor(65536 * d2))) / 512
    } else {
        a
    }
}

/// The pixel of `apply_circular_mask(img)` at (x, y): colour channels are
/// kept, alpha is masked.
pub open spec fn spec_mask_pixel(img: &Raster, x: int, y: int) -> Rgba {
    let p = img.spec_pixel(x, y);
    Rgba {
        r: p.r,
        g: p.g,
        b: p.b,
        a: spec_masked_alpha(img.width as int, img.height as int, x, y, p.a as int) as u8,
    }
}

/// The flat pixel sequence of a circular-masked raster.
pub open spec fn spec_mask_seq(ps: Seq<Rgba>, w: int, h: int) -> Seq<Rgba> {
    Seq::new(
        ps.len(),
        |i: int|
            {
                let p = ps[i];
                Rgba {
                    r: p.r,
                    g: p.g,
                    b: p.b,
                    a: spec_masked_alpha(w, h, i % w, i / w, p.a as int) as u8,
                }
            },
    )
}

/// In the anti-aliasing band the scaled-alpha factor lies in [0, 512], so
/// the masked alpha stays a byte and never exceeds the input alpha.
proof fn lemma_mask_band_bounds(m: int, d2: int, a: int)
    requires
        2 <= m,
        (m - 2) * (m - 2) < d2 <= m * m,
        0 <= a <= 255,
    ensures
        0 <= (a * (256 * m - spec_sqrt_floor(65536 * d2))) / 512 <= a,
        256 * (m - 2) <= spec_sqrt_floor(65536 * d2) <= 256 * m,
{
    let s = spec_sqrt_floor(65536 * d2);
    assert(exists|r: int| #[trigger] spec_is_sqrt(65536 * d2, r)) by {
        lemma_sqrt_exists(65536 * d2);
    }
    assert(spec_is_sqrt(65536 * d2, s));
    assert(256 * (m - 2) <= s) by (nonlinear_arith)
        requires
            spec_is_sqrt(65536 * d2, s),
            (m - 2) * (m - 2) < d2,
            2 <= m,
    ;
    assert(s <= 256 * m) by (nonlinear_arith)
        requires
            spec_is_sqrt(65536 * d2, s),
            d2 <= m * m,
            2 <= m,
    ;
    assert(0 <= a * (256 * m - s) <= 512 * a) by (nonlinear_arith)
        requires
            0 <= a,
            0 <= 256 * m - s <= 512,
    ;
    assert(0 <= (a * (256 * m - s)) / 512 <= a) by (nonlinear_arith)
        requires
            0 <= a * (256 * m - s) <= 512 * a,
            0 <= a,
    ;
}

/// Every non-negative integer has an integer square root.
proof fn lemma_sqrt_exists(n: int)
    requires
        0 <= n,
    ensures
        exists|r: int| #[trigger] spec_is_sqrt(n, r),
    decreases n,
{
    if n == 0 {
        assert(spec_is_sqrt(0, 0));
    } else {
        lemma_sqrt_exists(n - 1);
        let r = choose|r: int| #[trigger] spec_is_sqrt(n - 1, r);
        if n < (r + 1) * (r + 1) {
            assert(spec_is_sqrt(n, r));
        } else {
            assert(n == (r + 1) * (r + 1));
            assert(spec_is_sqrt(n, r + 1)) by (nonlinear_arith)
                requires
                    n == (r + 1) * (r + 1),
                    0 <= r,
            ;
        }
    }
}

/// Zero the alpha of every pixel outside the inscribed circle, with one
/// pixel of linear edge anti-aliasing; colour channels are untouched.
pub fn apply_circular_mask(img: &Raster) -> (out: Raster)
    requires
        img.wf(),
    ensures
        out.wf(),
        out.width == img.width,
        out.height == img.height,
        forall|x: int, y: int|
            0 <= x < img.width && 0 <= y < img.height ==> out.spec_pixel(x, y) == spec_mask_pixel(
                img,
                x,
                y,
            ),
        out.pixels@ == spec_mask_seq(img.pixels@, img.width as int, img.height as int),
{
    let w: usize = img.width as usize;
    let n: usize = img.pixels.len();
    let m: u64 = if img.width <= img.height {
        img.width as u64
    } else {
        img.height as u64
    };
    let mut pixels: Vec<Rgba> = Vec::new();
    let mut i: usize = 0;
    proof {
        lemma_dims_bound(img.width as int, img.height as int);
    }
    while i < n
        invariant
            i <= n,
            img.wf(),
            w == img.width,
            n == img.pixels@.len(),
            m == if img.width <= img.height {
                img.width as int
            } else {
                img.height as int
            },
            pixels@.len() == i,
            forall|j: int|
                0 <= j < i ==> pixels@[j] == spec_mask_pixel(img, j % (w as int), j / (w as int)),
        decreases n - i,
    {
        let x: usize = i % w;
        let y: usize = i / w;
        proof {
            assert(0 <= i as int % (w as int) < w as int) by (nonlinear_arith)
                requires
                    w > 0,
                    i >= 0,
            ;
            assert(0 <= i as int / (w as int) < img.height as int) by (nonlinear_arith)
                requires
                    w > 0,
                    i >= 0,
                    (i as int) < img.width * img.height,
                    w == img.width,
            ;
            lemma_row_major_index_in_range(
                img.width as int,
                img.height as int,
                x as int,
                y as int,
            );
            vstd::arithmetic::div_mod::lemma_fundamental_div_mod(i as int, w as int);
        }
        let p = img.pixel(x as u32, y as u32);
        let dx2: u64 = if 2 * (x as u64) >= img.width as u64 {
            2 * (x as u64) - img.width as u64
        } else {
            img.width as u64 - 2 * (x as u64)
        };
        let dy2: u64 = if 2 * (y as u64) >= img.height as u64 {
            2 * (y as u64) - img.height as u64
        } else {
            img.height as u64 - 2 * (y as u64)
        };
        proof {
            lemma_mul_le(dx2 as int, dx2 as int, 0x8000, 0x8000);
            lemma_mul_le(dy2 as int, dy2 as int, 0x8000, 0x8000);
            lemma_mul_le(m as int, m as int, 0x4000, 0x4000);
            assert(dx2 as int * dx2 as int == (2 * x as int - img.width as int) * (2 * x as int
                - img.width as int)) by (nonlinear_arith)
                requires
                    dx2 as int == 2 * x as int - img.width as int || dx2 as int == img.width as int
                        - 2 * x as int,
            ;
            assert(dy2 as int * dy2 as int == (2 * y as int - img.height as int) * (2 * y as int
                - img.height as int)) by (nonlinear_arith)
                requires
                    dy2 as int == 2 * y as int - img.height as int || dy2 as int
                        == img.height as int - 2 * y as int,
            ;
            if m >= 2 {
                lemma_mul_le(m as int - 2, m as int - 2, 0x4000, 0x4000);
            }
        }
        let d2: u64 = dx2 * dx2 + dy2 * dy2;
        let ghost gm = m as int;
        let ghost gd2 = d2 as int;
        let new_a: u8 = if d2 > m * m {
            0
        } else if m >= 2 && d2 > (m - 2) * (m - 2) {
            proof {
                lemma_mask_band_bounds(gm, gd2, p.a as int);
            }
            let s: u64 = isqrt(65536 * d2);
            ((p.a as u64 * (256 * m - s)) / 512) as u8
        } else {
            proof {
                if gm < 2 {
                    assert((gm - 2) * (gm - 2) >= gd2) by (nonlinear_arith)
                        requires
                            gm < 2,
                            gm * gm >= gd2,
                            gd2 >= 0,
                    ;
                }
            }
            p.a
        };
        pixels.push(Rgba { r: p.r, g: p.g, b: p.b, a: new_a });
        i = i + 1;
    }
    let out = Raster { width: img.width, height: img.height, pixels };
    proof {
        assert forall|x: int, y: int|
            0 <= x < img.width && 0 <= y < img.height implies out.spec_pixel(x, y)
            == spec_mask_pixel(img, x, y) by {
            lemma_row_major_index_in_range(img.width as int, img.height as int, x, y);
            lemma_flat_coord(img.width as int, x, y);
        }
        assert forall|i: int| 0 <= i < img.pixels@.len() implies pixels@[i] == spec_mask_seq(
            img.pixels@,
            img.width as int,
            img.height as int,
        )[i] by {
            let w = img.width as int;
            assert(img.pixels@.len() == w * (img.height as int));
            assert(w > 0) by (nonlinear_arith)
                requires
                    0 <= i < w * (img.height as int),
                    w >= 0,
            ;
            assert(0 <= i % w < w) by (nonlinear_arith)
                requires
                    w > 0,
                    i >= 0,
            ;
            assert(0 <= i / w < img.height as int) by (nonlinear_arith)
                requires
                    w > 0,
                    0 <= i < w * (img.height as int),
            ;
            vstd::arithmetic::div_mod::lemma_fundamental_div_mod(i, w);
            lemma_row_major_index_in_range(w, img.height as int, i % w, i / w);
        }
        assert(pixels@ =~= spec_mask_seq(img.pixels@, img.width as int, img.height as int));
    }
    out
}

/// For a fully opaque pixel at the exact centre of a square raster the
/// circular mask leaves the alpha at 255. The two smallest squares whose
/// centre pixel sits measurably off the true centre are excluded.
pub proof fn lemma_mask_center_opaque(w: int, h: int)
    requires
        w == h,
        w >= 2,
        w != 3,
    ensures
        spec_masked_alpha(w, h, w / 2, h / 2, 255) == 255,
{
    let x = w / 2;
    let ddx = 2 * x - w;
    assert(ddx == -(w % 2));
    let d2 = spec_mask_d2(w, h, x, x);
    assert(d2 == 2 * (w % 2) * (w % 2)) by (nonlinear_arith)
        requires
            d2 == (2 * x - w) * (2 * x - w) + (2 * x - w) * (2 * x - w),
            2 * x - w == -(w % 2),
    ;
    assert(0 <= w % 2 < 2);
    assert(d2 <= 2);
    assert(!(d2 > w * w)) by (nonlinear_arith)
        requires
            w >= 2,
            d2 <= 2,
    ;
    if w == 2 {
        assert(w % 2 == 0);
        assert(d2 == 0);
        assert(!(d2 > (w - 2) * (w - 2)));
    } else {
        assert(w >= 4);
        assert(!(d2 > (w - 2) * (w - 2))) by (nonlinear_arith)
            requires
                w >= 4,
                d2 <= 2,
        ;
    }
}

/// For a fully opaque pixel in the top-left corner of a square raster the
/// circular mask forces the alpha to 0.
pub proof fn lemma_mask_corner_transparent(w: int, h: int)
    requires
        w == h,
        w >= 1,
    ensures
        spec_masked_alpha(w, h, 0, 0, 255) == 0,
{
    let d2 = spec_mask_d2(w, h, 0, 0);
    assert(d2 == 2 * w * w) by (nonlinear_arith)
        requires
            d2 == (0 - w) * (0 - w) + (0 - w) * (0 - w),
    ;
    assert(d2 > w * w) by (nonlinear_arith)
        requires
            d2 == 2 * w * w,
            w >= 1,
    ;
}

} // verus!
