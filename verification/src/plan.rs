//! The produce/persist split: every recipe yields the files it would
//! write as in-memory path/byte pairs, and the configuration surface
//! that selects the recipes.

use vstd::prelude::*;

use crate::badge::{apply_save_badge, spec_bug_kind, spec_save_badged};
use crate::error::IconError;
use crate::pngenc::{encode_png, png_of};
use crate::raster::{spec_pixels_bytes, Raster, Rgba, MAX_DIM};

verus! {

/// One file a recipe wants written: a path relative to the output root
/// (with `/` separators) and the file's bytes.
#[derive(Debug)]
pub struct OutputFile {
    pub path: String,
    pub bytes: Vec<u8>,
}

/// The configuration surface the engine consumes; the caller has
/// already parsed and validated the command line that fills it.
pub struct Args {
    /// Path of the source image, as the caller received it.
    pub input: String,
    /// Output directory root, as the caller received it.
    pub output: String,
    /// Custom PNG sizes; when set, only these are generated.
    pub png: Option<Vec<u32>>,
    /// Generate only the Windows container.
    pub ico_only: bool,
    /// Generate only the macOS family.
    pub icns_only: bool,
    /// Generate only desktop platforms.
    pub desktop_only: bool,
    /// Generate only mobile platforms.
    pub mobile_only: bool,
    /// Windows selected explicitly.
    pub windows: bool,
    /// macOS selected explicitly.
    pub macos: bool,
    /// Linux selected explicitly.
    pub linux: bool,
    /// Android selected explicitly.
    pub android: bool,
    /// Round Android launcher icons.
    pub android_round: bool,
    /// Adaptive Android launcher icons.
    pub android_adaptive: bool,
    /// Background colour for the adaptive background layer.
    pub android_adaptive_bg: String,
    /// iOS selected explicitly.
    pub ios: bool,
    /// Background colour for iOS icons.
    pub ios_color: String,
    /// Apply the development badge to every generated icon.
    pub dev_mode: bool,
    /// Badge variant selector: empty for the banner, or a bug name.
    pub dev_bug: String,
}

/// Whether the configured badge pass can succeed: badges are off, the
/// default banner is selected, or the bug identifier is known.
pub open spec fn spec_badge_ok(dev_mode: bool, bug: Seq<char>) -> bool {
    !dev_mode || bug.len() == 0 || spec_bug_kind(bug) >= 0
}

/// The PNG stream for a raster as it is saved: badged first when badge
/// mode is on, with the chosen rotation angle for the bug variant.
pub open spec fn spec_saved_png(
    ps: Seq<Rgba>,
    w: int,
    h: int,
    dev_mode: bool,
    bug: Seq<char>,
    deg: int,
    best: bool,
) -> Seq<u8> {
    let shown = if dev_mode {
        spec_save_badged(ps, w, h, bug, deg)
    } else {
        ps
    };
    png_of(spec_pixels_bytes(shown), w, h, best)
}

/// Whether any explicit platform flag is set.
pub open spec fn spec_has_platform_flags(a: Args) -> bool {
    a.windows || a.macos || a.linux || a.android || a.ios
}

/// Whether no selector narrows the run down: the default that
/// generates every platform.
pub open spec fn spec_default_run(a: Args) -> bool {
    !spec_has_platform_flags(a) && !a.icns_only && !a.ico_only && !a.desktop_only && !a.mobile_only
}

/// When the iOS writer runs: on the explicit flag, in the default run,
/// or in the mobile-only run — never otherwise.
pub open spec fn spec_should_ios(a: Args) -> bool {
    a.ios || spec_default_run(a) || a.mobile_only
}

/// When the macOS writer runs: on the explicit flag, in the
/// family-only run, in the desktop-only run, or in the default run —
/// never otherwise.
pub open spec fn spec_should_macos(a: Args) -> bool {
    a.macos || a.icns_only || a.desktop_only || spec_default_run(a)
}

/// Decide whether the iOS writer should run for this configuration.
pub fn should_invoke_ios_writer(args: &Args, has_platform_flags: bool) -> (r: bool)
    requires
        has_platform_flags == spec_has_platform_flags(*args),
    ensures
        r == spec_should_ios(*args),
{
    if args.ios {
        return true;
    }
    if !has_platform_flags && !args.icns_only && !args.ico_only && !args.desktop_only
        && !args.mobile_only {
        return true;
    }
    if args.mobile_only {
        return true;
    }
    false
}

/// Decide whether the macOS writer should run for this configuration.
pub fn should_invoke_macos_writer(args: &Args, has_platform_flags: bool) -> (r: bool)
    requires
        has_platform_flags == spec_has_platform_flags(*args),
    ensures
        r == spec_should_macos(*args),
{
    if args.macos {
        return true;
    }
    if args.icns_only {
        return true;
    }
    if args.desktop_only {
        return true;
    }
    if !has_platform_flags && !args.icns_only && !args.ico_only && !args.desktop_only
        && !args.mobile_only {
        return true;
    }
    false
}

/// Move every produced file onto the end of the output list, in order.
pub fn append_all(out: &mut Vec<OutputFile>, produced: Vec<OutputFile>)
    ensures
        final(out)@ == old(out)@ + produced@,
{
    let n = produced.len();
    let ghost gproduced = produced@;
    let mut rest = produced;
    let mut t: usize = 0;
    while t < n
        invariant
            t <= n,
            n == gproduced.len(),
            rest@ == gproduced.skip(t as int),
            out@ == old(out)@ + gproduced.take(t as int),
        decreases n - t,
    {
        let f = rest.remove(0);
        proof {
            assert(f == gproduced[t as int]);
        }
        out.push(f);
        proof {
            assert(rest@ =~= gproduced.skip(t + 1int));
            assert(out@ =~= old(out)@ + gproduced.take(t + 1int));
        }
        t = t + 1;
    }
    proof {
        assert(gproduced.take(n as int) =~= gproduced);
        assert(final(out)@ =~= old(out)@ + gproduced);
    }
}

/// Badge rotation angles for `n` files: one angle in [0, 360) per
/// file.
pub open spec fn spec_degs_ok(degs: Seq<int>, n: int) -> bool {
    &&& degs.len() == n
    &&& forall|i: int| 0 <= i < n ==> 0 <= #[trigger] degs[i] < 360
}

/// Whether every size of a configured custom size list lies in the
/// supported range (vacuously true without a list).
pub open spec fn spec_sizes_ok(a: Args) -> bool {
    match a.png {
        Option::Some(sizes) => forall|i: int|
            0 <= i < sizes@.len() ==> 1 <= #[trigger] sizes@[i] <= MAX_DIM,
        Option::None => true,
    }
}

/// An owned copy of a raster.
pub fn clone_raster(img: &Raster) -> (out: Raster)
    requires
        img.wf(),
    ensures
        out.wf(),
        out.width == img.width,
        out.height == img.height,
        out.pixels@ == img.pixels@,
{
    let n: usize = img.pixels.len();
    let mut pixels: Vec<Rgba> = Vec::new();
    let mut i: usize = 0;
    while i < n
        invariant
            i <= n,
            n == img.pixels@.len(),
            pixels@.len() == i,
            forall|j: int| 0 <= j < i ==> pixels@[j] == img.pixels@[j],
        decreases n - i,
    {
        pixels.push(img.pixels[i]);
        i = i + 1;
    }
    proof {
        assert(pixels@ =~= img.pixels@);
    }
    Raster { width: img.width, height: img.height, pixels }
}

/// Encode a raster as the PNG that would be saved for it: the badge
/// pass first when badge mode is on, then PNG emission. Fails on an
/// unknown bug identifier or a rejected encode, never otherwise.
pub fn render_png(img: &Raster, dev_mode: bool, dev_bug: &str, best: bool) -> (r: Result<
    Vec<u8>,
    IconError,
>)
    requires
        img.wf(),
        1 <= img.width,
        1 <= img.height,
    ensures
        r is Ok ==> exists|deg: int|
            0 <= deg < 360 && (r->Ok_0)@ == spec_saved_png(
                img.pixels@,
                img.width as int,
                img.height as int,
                dev_mode,
                dev_bug@,
                deg,
                best,
            ),
        r is Ok <==> spec_badge_ok(dev_mode, dev_bug@),
        r is Err ==> (r->Err_0 matches IconError::UnknownBugKind { name } && name@ == dev_bug@),
{
    let mut work = clone_raster(img);
    if dev_mode {
        match apply_save_badge(&mut work, dev_bug) {
            Ok(()) => {},
            Err(e) => {
                return Err(e);
            },
        }
    }
    match encode_png(&work, best) {
        Ok(bytes) => {
            proof {
                if dev_mode {
                    let deg = choose|deg: int|
                        0 <= deg < 360 && work.pixels@ == spec_save_badged(
                            img.pixels@,
                            img.width as int,
                            img.height as int,
                            dev_bug@,
                            deg,
                        );
                    assert(bytes@ == spec_saved_png(
                        img.pixels@,
                        img.width as int,
                        img.height as int,
                        dev_mode,
                        dev_bug@,
                        deg,
                        best,
                    ));
                } else {
                    assert(bytes@ == spec_saved_png(
                        img.pixels@,
                        img.width as int,
                        img.height as int,
                        dev_mode,
                        dev_bug@,
                        0,
                        best,
                    ));
                }
            }
            Ok(bytes)
        },
        Err(e) => Err(e),
    }
}

} // verus!
