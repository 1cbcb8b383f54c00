//! The Android launcher-icon recipes: standard mipmap PNGs per density
//! bucket, round variants through the circular mask, and adaptive
//! foreground/background layers with their XML descriptors.

use vstd::prelude::*;
use vstd::string::StringExecFns;

use crate::color::{parse_background_color, spec_bg_color, Rgb};
use crate::compose::{apply_circular_mask, overlay_at, spec_mask_seq, spec_overlay_seq};
use crate::error::IconError;
use crate::plan::{render_png, spec_badge_ok, spec_saved_png, OutputFile};
use crate::raster::{Raster, Rgba};
use crate::resample::{resize, spec_resized};

verus! {

/// The density bucket name at index `i`.
pub open spec fn spec_density_name(i: int) -> Seq<char> {
    if i == 0 {
        "mdpi"@
    } else if i == 1 {
        "hdpi"@
    } else if i == 2 {
        "xhdpi"@
    } else if i == 3 {
        "xxhdpi"@
    } else {
        "xxxhdpi"@
    }
}

/// The launcher icon edge for density bucket `i`.
pub open spec fn spec_density_size(i: int) -> u32 {
    if i == 0 {
        48
    } else if i == 1 {
        72
    } else if i == 2 {
        96
    } else if i == 3 {
        144
    } else {
        192
    }
}

/// The adaptive-icon canvas edge for density bucket `i`.
pub open spec fn spec_adaptive_size(i: int) -> u32 {
    if i == 0 {
        108
    } else if i == 1 {
        162
    } else if i == 2 {
        216
    } else if i == 3 {
        324
    } else {
        432
    }
}

/// The density bucket at index `i`.
fn density_at(i: usize) -> (r: (&'static str, u32, u32))
    requires
        i < 5,
    ensures
        r.0@ == spec_density_name(i as int),
        r.1 == spec_density_size(i as int),
        r.2 == spec_adaptive_size(i as int),
{
    if i == 0 {
        ("mdpi", 48, 108)
    } else if i == 1 {
        ("hdpi", 72, 162)
    } else if i == 2 {
        ("xhdpi", 96, 216)
    } else if i == 3 {
        ("xxhdpi", 144, 324)
    } else {
        ("xxxhdpi", 192, 432)
    }
}

/// The mipmap path prefix for a density bucket: `android/mipmap-<name>/`.
pub open spec fn spec_mipmap_prefix(i: int) -> Seq<char> {
    "android/mipmap-"@ + spec_density_name(i) + "/"@
}

/// Build the mipmap path for a density bucket and file name.
fn mipmap_path(name: &str, file: &str) -> (s: String)
    ensures
        s@ == "android/mipmap-"@ + name@ + "/"@ + file@,
{
    let mut s = String::from_str("android/mipmap-");
    s.append(name);
    s.append("/");
    s.append(file);
    proof {
        assert(s@ =~= "android/mipmap-"@ + name@ + "/"@ + file@);
    }
    s
}

/// One standard launcher PNG matches its density bucket.
pub open spec fn spec_android_std_ok(
    f: OutputFile,
    deg: int,
    source: Raster,
    dev_mode: bool,
    bug: Seq<char>,
    i: int,
) -> bool {
    let px = spec_density_size(i) as int;
    &&& f.path@ == spec_mipmap_prefix(i) + "ic_launcher.png"@
    &&& 0 <= deg < 360
    &&& f.bytes@ == spec_saved_png(
        spec_resized(&source, px, px),
        px,
        px,
        dev_mode,
        bug,
        deg,
        false,
    )
}

/// One round launcher PNG matches its density bucket: the resampled
/// icon through the circular mask.
pub open spec fn spec_android_round_ok(
    f: OutputFile,
    deg: int,
    source: Raster,
    dev_mode: bool,
    bug: Seq<char>,
    i: int,
) -> bool {
    let px = spec_density_size(i) as int;
    &&& f.path@ == spec_mipmap_prefix(i) + "ic_launcher_round.png"@
    &&& 0 <= deg < 360
    &&& f.bytes@ == spec_saved_png(
        spec_mask_seq(spec_resized(&source, px, px), px, px),
        px,
        px,
        dev_mode,
        bug,
        deg,
        false,
    )
}

/// The safe-zone edge of the adaptive foreground: 66% of the canvas.
pub open spec fn spec_safe_zone(size: int) -> int {
    size * 66 / 100
}

/// The pixels of one adaptive foreground layer: the source scaled to
/// the safe zone and centred on a transparent canvas.
pub open spec fn spec_adaptive_fg_pixels(source: Raster, i: int) -> Seq<Rgba> {
    let size = spec_adaptive_size(i) as int;
    let isz = spec_safe_zone(size);
    let pad = (size - isz) / 2;
    spec_overlay_seq(
        Seq::new((size * size) as nat, |j: int| Rgba { r: 0, g: 0, b: 0, a: 0 }),
        size,
        spec_resized(&source, isz, isz),
        isz,
        isz,
        pad,
        pad,
    )
}

/// One adaptive foreground PNG matches its density bucket.
pub open spec fn spec_adaptive_fg_ok(
    f: OutputFile,
    deg: int,
    source: Raster,
    dev_mode: bool,
    bug: Seq<char>,
    i: int,
) -> bool {
    let size = spec_adaptive_size(i) as int;
    &&& f.path@ == spec_mipmap_prefix(i) + "ic_launcher_foreground.png"@
    &&& 0 <= deg < 360
    &&& f.bytes@ == spec_saved_png(
        spec_adaptive_fg_pixels(source, i),
        size,
        size,
        dev_mode,
        bug,
        deg,
        false,
    )
}

/// One adaptive background PNG matches its density bucket: a solid
/// fill of the configured colour, never badged.
pub open spec fn spec_adaptive_bg_ok(f: OutputFile, bg: Rgb, i: int) -> bool {
    let size = spec_adaptive_size(i) as int;
    &&& f.path@ == spec_mipmap_prefix(i) + "ic_launcher_background.png"@
    &&& f.bytes@ == crate::pngenc::png_of(
        crate::raster::spec_pixels_bytes(
            Seq::new((size * size) as nat, |j: int| Rgba { r: bg.r, g: bg.g, b: bg.b, a: 255 }),
        ),
        size,
        size,
        false,
    )
}

/// The pair of layers for density bucket `i` inside a produced file
/// list: the foreground at position 2i, the background right after it.
pub open spec fn spec_adaptive_pair_ok(
    files: Seq<OutputFile>,
    degs: Seq<int>,
    source: Raster,
    bg: Rgb,
    dev_mode: bool,
    bug: Seq<char>,
    i: int,
) -> bool {
    &&& spec_adaptive_fg_ok(files[2 * i], degs[i], source, dev_mode, bug, i)
    &&& spec_adaptive_bg_ok(files[2 * i + 1], bg, i)
}

/// The round variant for density bucket `i` inside a produced file
/// list that starts with the five standard icons.
pub open spec fn spec_android_round_at(
    files: Seq<OutputFile>,
    degs: Seq<int>,
    source: Raster,
    dev_mode: bool,
    bug: Seq<char>,
    i: int,
) -> bool {
    spec_android_round_ok(files[5 + i], degs[5 + i], source, dev_mode, bug, i)
}

/// The standard icon for density bucket `i` inside a produced file
/// list.
pub open spec fn spec_android_std_at(
    files: Seq<OutputFile>,
    degs: Seq<int>,
    source: Raster,
    dev_mode: bool,
    bug: Seq<char>,
    i: int,
) -> bool {
    spec_android_std_ok(files[i], degs[i], source, dev_mode, bug, i)
}

/// The adaptive-icon XML descriptor: both the square and the round
/// launcher reference the same two layers; the system applies the
/// shape.
pub open spec fn spec_adaptive_xml() -> Seq<char> {
    "<?xml version=\"1.0\" encoding=\"utf-8\"?>\n<adaptive-icon xmlns:android=\"http://schemas.android.com/apk/res/android\">\n    <background android:drawable=\"@mipmap/ic_launcher_background\" />\n    <foreground android:drawable=\"@mipmap/ic_launcher_foreground\" />\n</adaptive-icon>"@
}

/// The two XML descriptor files of the adaptive icon.
pub open spec fn spec_adaptive_xml_ok(f1: OutputFile, f2: OutputFile) -> bool {
    &&& f1.path@ == "android/mipmap-anydpi-v26/ic_launcher.xml"@
    &&& f1.bytes@ == vstd::utf8::encode_utf8(spec_adaptive_xml())
    &&& f2.path@ == "android/mipmap-anydpi-v26/ic_launcher_round.xml"@
    &&& f2.bytes@ == vstd::utf8::encode_utf8(spec_adaptive_xml())
}

/// Write the XML descriptors for the adaptive icon into the
/// version-gated mipmap directory.
pub fn generate_adaptive_icon_xml(out: &mut Vec<OutputFile>)
    ensures
        final(out)@.len() == old(out)@.len() + 2,
        spec_adaptive_xml_ok(
            final(out)@[final(out)@.len() - 2],
            final(out)@[final(out)@.len() - 1],
        ),
        forall|j: int| 0 <= j < old(out)@.len() ==> final(out)@[j] == old(out)@[j],
{
    let xml = String::from_str(
        "<?xml version=\"1.0\" encoding=\"utf-8\"?>\n<adaptive-icon xmlns:android=\"http://schemas.android.com/apk/res/android\">\n    <background android:drawable=\"@mipmap/ic_launcher_background\" />\n    <foreground android:drawable=\"@mipmap/ic_launcher_foreground\" />\n</adaptive-icon>",
    );
    let b1 = vstd::string::StrSliceExecFns::as_bytes_vec(xml.as_str());
    let b2 = vstd::string::StrSliceExecFns::as_bytes_vec(xml.as_str());
    out.push(
        OutputFile { path: String::from_str("android/mipmap-anydpi-v26/ic_launcher.xml"), bytes: b1 },
    );
    out.push(
        OutputFile {
            path: String::from_str("android/mipmap-anydpi-v26/ic_launcher_round.xml"),
            bytes: b2,
        },
    );
}

/// The adaptive plan: for each density a foreground layer and a solid
/// background layer, then the two XML descriptors.
pub open spec fn spec_adaptive_plan_ok(
    files: Seq<OutputFile>,
    degs: Seq<int>,
    source: Raster,
    color: Seq<char>,
    dev_mode: bool,
    bug: Seq<char>,
) -> bool {
    &&& files.len() == 12
    &&& degs.len() == 5
    &&& forall|i: int|
        0 <= i < 5 ==> #[trigger] spec_adaptive_pair_ok(
            files,
            degs,
            source,
            spec_bg_color(color),
            dev_mode,
            bug,
            i,
        )
    &&& spec_adaptive_xml_ok(files[10], files[11])
}

/// The adaptive recipe: per density a foreground layer (the source
/// scaled to the safe zone, centred on a transparent canvas, badged
/// when badge mode is on) and a background layer (a solid fill of the
/// configured colour, never badged), then the two XML descriptors.
pub fn generate_adaptive_icons(
    source: &Raster,
    out: &mut Vec<OutputFile>,
    bg_color_str: &str,
    dev_mode: bool,
    dev_bug: &str,
) -> (r: Result<(), IconError>)
    requires
        source.wf(),
        1 <= source.width,
        1 <= source.height,
    ensures
        r is Ok ==> final(out)@.len() == old(out)@.len() + 12 && (exists|degs: Seq<int>|
            #[trigger] spec_adaptive_plan_ok(
                final(out)@.skip(old(out)@.len() as int),
                degs,
                *source,
                bg_color_str@,
                dev_mode,
                dev_bug@,
            )),
        r is Ok ==> forall|j: int|
            0 <= j < old(out)@.len() ==> final(out)@[j] == old(out)@[j],
        r is Err ==> final(out)@ == old(out)@,
        r is Err ==> !(r->Err_0 is NonSquareSource),
        r is Ok <==> spec_badge_ok(dev_mode, dev_bug@),
{
    let bg: Rgb = parse_background_color(bg_color_str);
    let ghost base = out@.len();
    let mut produced: Vec<OutputFile> = Vec::new();
    let ghost mut degs: Seq<int> = Seq::empty();
    let mut i: usize = 0;
    while i < 5
        invariant
            i <= 5,
            source.wf(),
            1 <= source.width,
            1 <= source.height,
            bg == spec_bg_color(bg_color_str@),
            produced@.len() == 2 * i,
            degs.len() == i,
            i > 0 ==> spec_badge_ok(dev_mode, dev_bug@),
            forall|k: int|
                0 <= k < i ==> #[trigger] spec_adaptive_pair_ok(
                    produced@,
                    degs,
                    *source,
                    spec_bg_color(bg_color_str@),
                    dev_mode,
                    dev_bug@,
                    k,
                ),
        decreases 5 - i,
    {
        let ghost produced0 = produced@;
        let ghost degs0 = degs;
        let (name, _std, size) = density_at(i);
        let icon_size: u32 = size * 66 / 100;
        proof {
            assert(icon_size >= 1 && icon_size <= size);
        }
        let padding: u32 = (size - icon_size) / 2;
        let resized = resize(source, icon_size);
        let canvas = Raster::filled(size, size, Rgba { r: 0, g: 0, b: 0, a: 0 });
        let fg = overlay_at(&canvas, &resized, padding, padding);
        proof {
            assert(canvas.pixels@ =~= Seq::new(
                ((size as int) * (size as int)) as nat,
                |j: int| Rgba { r: 0, g: 0, b: 0, a: 0 },
            ));
            assert(fg.pixels@ == spec_adaptive_fg_pixels(*source, i as int));
        }
        let fg_data = match render_png(&fg, dev_mode, dev_bug, false) {
            Ok(d) => d,
            Err(e) => {
                return Err(e);
            },
        };
        let ghost gdeg = choose|deg: int|
            0 <= deg < 360 && fg_data@ == spec_saved_png(
                fg.pixels@,
                fg.width as int,
                fg.height as int,
                dev_mode,
                dev_bug@,
                deg,
                false,
            );
        proof {
            degs = degs.push(gdeg);
        }
        produced.push(
            OutputFile { path: mipmap_path(name, "ic_launcher_foreground.png"), bytes: fg_data },
        );
        // Background layer: a solid fill, never badged.
        let bg_canvas = Raster::filled(size, size, Rgba { r: bg.r, g: bg.g, b: bg.b, a: 255 });
        let bg_data = match crate::pngenc::encode_png(&bg_canvas, false) {
            Ok(d) => d,
            Err(e) => {
                return Err(e);
            },
        };
        produced.push(
            OutputFile { path: mipmap_path(name, "ic_launcher_background.png"), bytes: bg_data },
        );
        proof {
            assert(bg_canvas.pixels@ =~= Seq::new(
                ((size as int) * (size as int)) as nat,
                |j: int| Rgba { r: bg.r, g: bg.g, b: bg.b, a: 255 },
            ));
            assert(spec_adaptive_fg_ok(
                produced@[2 * i as int],
                gdeg,
                *source,
                dev_mode,
                dev_bug@,
                i as int,
            ));
            assert(spec_adaptive_bg_ok(
                produced@[2 * i as int + 1],
                spec_bg_color(bg_color_str@),
                i as int,
            ));
            assert forall|k: int| 0 <= k < i + 1 implies #[trigger] spec_adaptive_pair_ok(
                produced@,
                degs,
                *source,
                spec_bg_color(bg_color_str@),
                dev_mode,
                dev_bug@,
                k,
            ) by {
                if k < i {
                    assert(spec_adaptive_pair_ok(
                        produced0,
                        degs0,
                        *source,
                        spec_bg_color(bg_color_str@),
                        dev_mode,
                        dev_bug@,
                        k,
                    ));
                    assert(produced@[2 * k] == produced0[2 * k]);
                    assert(produced@[2 * k + 1] == produced0[2 * k + 1]);
                    assert(degs[k] == degs0[k]);
                }
            }
        }
        i = i + 1;
    }
    let ghost prexml = produced@;
    generate_adaptive_icon_xml(&mut produced);
    let n = produced.len();
    let ghost gproduced = produced@;
    let mut t: usize = 0;
    let mut rest = produced;
    while t < n
        invariant
            t <= n,
            n == gproduced.len(),
            rest@ == gproduced.skip(t as int),
            out@ == old(out)@ + gproduced.take(t as int),
        decreases n - t,
    {
        let f = rest.remove(0);
        proof {
            assert(f == gproduced[t as int]);
        }
        out.push(f);
        proof {
            assert(rest@ =~= gproduced.skip(t + 1int));
            assert(out@ =~= old(out)@ + gproduced.take(t + 1int));
        }
        t = t + 1;
    }
    proof {
        assert(gproduced.take(n as int) =~= gproduced);
        let tail = out@.skip(base as int);
        assert(tail =~= gproduced);
        assert forall|k: int| 0 <= k < 5 implies #[trigger] spec_adaptive_pair_ok(
            tail,
            degs,
            *source,
            spec_bg_color(bg_color_str@),
            dev_mode,
            dev_bug@,
            k,
        ) by {
            assert(spec_adaptive_pair_ok(
                prexml,
                degs,
                *source,
                spec_bg_color(bg_color_str@),
                dev_mode,
                dev_bug@,
                k,
            ));
            assert(gproduced[2 * k] == prexml[2 * k]);
            assert(gproduced[2 * k + 1] == prexml[2 * k + 1]);
            assert(tail[2 * k] == gproduced[2 * k]);
            assert(tail[2 * k + 1] == gproduced[2 * k + 1]);
        }
        assert(spec_adaptive_plan_ok(tail, degs, *source, bg_color_str@, dev_mode, dev_bug@));
    }
    Ok(())
}

/// The standard plan: one launcher PNG per density, then the round
/// variants when selected, then the adaptive set when selected.
pub open spec fn spec_android_plan_ok(
    files: Seq<OutputFile>,
    degs: Seq<int>,
    source: Raster,
    round: bool,
    adaptive: bool,
    adaptive_bg: Seq<char>,
    dev_mode: bool,
    bug: Seq<char>,
) -> bool {
    &&& files.len() == 5 + (if round {
        5int
    } else {
        0int
    }) + (if adaptive {
        12int
    } else {
        0int
    })
    &&& degs.len() == 10
    &&& forall|i: int|
        0 <= i < 5 ==> #[trigger] spec_android_std_at(files, degs, source, dev_mode, bug, i)
    &&& round ==> forall|i: int|
        0 <= i < 5 ==> #[trigger] spec_android_round_at(files, degs, source, dev_mode, bug, i)
    &&& adaptive && round ==> (exists|adegs: Seq<int>|
        #[trigger] spec_adaptive_plan_ok(files.skip(10), adegs, source, adaptive_bg, dev_mode, bug))
    &&& adaptive && !round ==> (exists|adegs: Seq<int>|
        #[trigger] spec_adaptive_plan_ok(files.skip(5), adegs, source, adaptive_bg, dev_mode, bug))
}

/// Assemble the Android plan from its proven pieces.
proof fn lemma_android_plan_assemble(
    files: Seq<OutputFile>,
    degs: Seq<int>,
    source: Raster,
    round: bool,
    adaptive: bool,
    adaptive_bg: Seq<char>,
    dev_mode: bool,
    bug: Seq<char>,
)
    requires
        files.len() == 5 + (if round {
            5int
        } else {
            0int
        }) + (if adaptive {
            12int
        } else {
            0int
        }),
        degs.len() == 10,
        forall|i: int|
            0 <= i < 5 ==> #[trigger] spec_android_std_at(files, degs, source, dev_mode, bug, i),
        round ==> forall|i: int|
            0 <= i < 5 ==> #[trigger] spec_android_round_at(files, degs, source, dev_mode, bug, i),
        adaptive && round ==> (exists|adegs: Seq<int>|
            #[trigger] spec_adaptive_plan_ok(
                files.skip(10),
                adegs,
                source,
                adaptive_bg,
                dev_mode,
                bug,
            )),
        adaptive && !round ==> (exists|adegs: Seq<int>|
            #[trigger] spec_adaptive_plan_ok(
                files.skip(5),
                adegs,
                source,
                adaptive_bg,
                dev_mode,
                bug,
            )),
    ensures
        spec_android_plan_ok(files, degs, source, round, adaptive, adaptive_bg, dev_mode, bug),
{
}

/// The Android recipe: standard launcher icons per density bucket, the
/// round variants through the circular mask when selected, and the
/// adaptive layers with their XML descriptors when selected.
#[verifier::rlimit(100)]
pub fn generate_android_icons_extended(
    source: &Raster,
    out: &mut Vec<OutputFile>,
    android_round: bool,
    android_adaptive: bool,
    android_adaptive_bg: &str,
    dev_mode: bool,
    dev_bug: &str,
) -> (r: Result<(), IconError>)
    requires
        source.wf(),
        1 <= source.width,
        1 <= source.height,
    ensures
        r is Ok ==> (exists|degs: Seq<int>|
            #[trigger] spec_android_plan_ok(
                final(out)@.skip(old(out)@.len() as int),
                degs,
                *source,
                android_round,
                android_adaptive,
                android_adaptive_bg@,
                dev_mode,
                dev_bug@,
            )),
        r is Ok ==> forall|j: int|
            0 <= j < old(out)@.len() ==> final(out)@[j] == old(out)@[j],
        r is Ok ==> final(out)@.len() >= old(out)@.len(),
        r is Err ==> final(out)@ == old(out)@,
        r is Err ==> !(r->Err_0 is NonSquareSource),
        r is Ok <==> spec_badge_ok(dev_mode, dev_bug@),
{
    let ghost base = out@.len();
    let mut produced: Vec<OutputFile> = Vec::new();
    let ghost mut degs: Seq<int> = Seq::empty();
    let mut i: usize = 0;
    while i < 5
        invariant
            i <= 5,
            source.wf(),
            1 <= source.width,
            1 <= source.height,
            produced@.len() == i,
            degs.len() == i,
            i > 0 ==> spec_badge_ok(dev_mode, dev_bug@),
            forall|k: int|
                0 <= k < i ==> #[trigger] spec_android_std_ok(
                    produced@[k],
                    degs[k],
                    *source,
                    dev_mode,
                    dev_bug@,
                    k,
                ),
        decreases 5 - i,
    {
        let ghost produced0 = produced@;
        let ghost degs0 = degs;
        let (name, size, _ad) = density_at(i);
        let resized = resize(source, size);
        let data = match render_png(&resized, dev_mode, dev_bug, false) {
            Ok(d) => d,
            Err(e) => {
                return Err(e);
            },
        };
        let ghost gdeg = choose|deg: int|
            0 <= deg < 360 && data@ == spec_saved_png(
                resized.pixels@,
                resized.width as int,
                resized.height as int,
                dev_mode,
                dev_bug@,
                deg,
                false,
            );
        proof {
            degs = degs.push(gdeg);
        }
        produced.push(OutputFile { path: mipmap_path(name, "ic_launcher.png"), bytes: data });
        proof {
            assert(spec_android_std_ok(
                produced@[i as int],
                gdeg,
                *source,
                dev_mode,
                dev_bug@,
                i as int,
            ));
            assert forall|k: int| 0 <= k < i + 1 implies #[trigger] spec_android_std_ok(
                produced@[k],
                degs[k],
                *source,
                dev_mode,
                dev_bug@,
                k,
            ) by {
                if k < i {
                    assert(spec_android_std_ok(
                        produced0[k],
                        degs0[k],
                        *source,
                        dev_mode,
                        dev_bug@,
                        k,
                    ));
                    assert(produced@[k] == produced0[k]);
                    assert(degs[k] == degs0[k]);
                }
            }
        }
        i = i + 1;
    }
    if android_round {
        let mut j: usize = 0;
        while j < 5
            invariant
                j <= 5,
                source.wf(),
                1 <= source.width,
                1 <= source.height,
                produced@.len() == 5 + j,
                degs.len() == 5 + j,
                spec_badge_ok(dev_mode, dev_bug@),
                forall|k: int|
                    0 <= k < 5 ==> #[trigger] spec_android_std_ok(
                        produced@[k],
                        degs[k],
                        *source,
                        dev_mode,
                        dev_bug@,
                        k,
                    ),
                forall|k: int|
                    0 <= k < j ==> #[trigger] spec_android_round_at(
                        produced@,
                        degs,
                        *source,
                        dev_mode,
                        dev_bug@,
                        k,
                    ),
            decreases 5 - j,
        {
            let ghost produced0 = produced@;
            let ghost degs0 = degs;
            let (name, size, _ad) = density_at(j);
            let resized = resize(source, size);
            let round_icon = apply_circular_mask(&resized);
            let data = match render_png(&round_icon, dev_mode, dev_bug, false) {
                Ok(d) => d,
                Err(e) => {
                    return Err(e);
                },
            };
            let ghost gdeg = choose|deg: int|
                0 <= deg < 360 && data@ == spec_saved_png(
                    round_icon.pixels@,
                    round_icon.width as int,
                    round_icon.height as int,
                    dev_mode,
                    dev_bug@,
                    deg,
                    false,
                );
            proof {
                degs = degs.push(gdeg);
            }
            produced.push(
                OutputFile { path: mipmap_path(name, "ic_launcher_round.png"), bytes: data },
            );
            proof {
                assert(spec_android_round_ok(
                    produced@[5 + j as int],
                    gdeg,
                    *source,
                    dev_mode,
                    dev_bug@,
                    j as int,
                ));
                assert forall|k: int| 0 <= k < 5 implies #[trigger] spec_android_std_ok(
                    produced@[k],
                    degs[k],
                    *source,
                    dev_mode,
                    dev_bug@,
                    k,
                ) by {
                    assert(spec_android_std_ok(
                        produced0[k],
                        degs0[k],
                        *source,
                        dev_mode,
                        dev_bug@,
                        k,
                    ));
                    assert(produced@[k] == produced0[k]);
                    assert(degs[k] == degs0[k]);
                }
                assert forall|k: int| 0 <= k < j + 1 implies #[trigger] spec_android_round_at(
                    produced@,
                    degs,
                    *source,
                    dev_mode,
                    dev_bug@,
                    k,
                ) by {
                    if k < j {
                        assert(spec_android_round_at(
                            produced0,
                            degs0,
                            *source,
                            dev_mode,
                            dev_bug@,
                            k,
                        ));
                        assert(produced@[5 + k] == produced0[5 + k]);
                        assert(degs[5 + k] == degs0[5 + k]);
                    } else {
                        assert(spec_android_round_ok(
                            produced@[5 + k],
                            degs[5 + k],
                            *source,
                            dev_mode,
                            dev_bug@,
                            k,
                        ));
                    }
                }
            }
            j = j + 1;
        }
    }
    let ghost degs_pre = degs;
    proof {
        // Keep the angle list at its full length whichever variants ran.
        if degs.len() < 10 {
            degs = degs + Seq::new((10 - degs.len()) as nat, |k: int| 0int);
        }
    }
    let ghost std_round = produced@;
    if android_adaptive {
        match generate_adaptive_icons(
            source,
            &mut produced,
            android_adaptive_bg,
            dev_mode,
            dev_bug,
        ) {
            Ok(()) => {},
            Err(e) => {
                return Err(e);
            },
        }
    }
    let n = produced.len();
    let ghost gproduced = produced@;
    let mut t: usize = 0;
    let mut rest = produced;
    while t < n
        invariant
            t <= n,
            n == gproduced.len(),
            rest@ == gproduced.skip(t as int),
            out@ == old(out)@ + gproduced.take(t as int),
        decreases n - t,
    {
        let f = rest.remove(0);
        proof {
            assert(f == gproduced[t as int]);
        }
        out.push(f);
        proof {
            assert(rest@ =~= gproduced.skip(t + 1int));
            assert(out@ =~= old(out)@ + gproduced.take(t + 1int));
        }
        t = t + 1;
    }
    proof {
        assert(gproduced.take(n as int) =~= gproduced);
        let tail = out@.skip(base as int);
        assert(tail =~= gproduced);
        let n_round: int = if android_round {
            5
        } else {
            0
        };
        assert(std_round.len() == 5 + n_round);
        if android_adaptive {
            let adegs = choose|adegs: Seq<int>|
                #[trigger] spec_adaptive_plan_ok(
                    gproduced.skip(std_round.len() as int),
                    adegs,
                    *source,
                    android_adaptive_bg@,
                    dev_mode,
                    dev_bug@,
                );
            assert(tail.skip(5 + n_round) =~= gproduced.skip(std_round.len() as int));
            assert(spec_adaptive_plan_ok(
                tail.skip(5 + n_round),
                adegs,
                *source,
                android_adaptive_bg@,
                dev_mode,
                dev_bug@,
            ));
        }
        assert forall|k: int| 0 <= k < 5 implies #[trigger] spec_android_std_at(
            tail,
            degs,
            *source,
            dev_mode,
            dev_bug@,
            k,
        ) by {
            assert(tail[k] == std_round[k]);
            assert(degs[k] == degs_pre[k]);
            assert(spec_android_std_ok(std_round[k], degs_pre[k], *source, dev_mode, dev_bug@, k));
        }
        if android_round {
            assert forall|k: int| 0 <= k < 5 implies #[trigger] spec_android_round_at(
                tail,
                degs,
                *source,
                dev_mode,
                dev_bug@,
                k,
            ) by {
                assert(tail[5 + k] == std_round[5 + k]);
                assert(degs[5 + k] == degs_pre[5 + k]);
                assert(spec_android_round_at(std_round, degs_pre, *source, dev_mode, dev_bug@, k));
                assert(spec_android_round_ok(
                    std_round[5 + k],
                    degs_pre[5 + k],
                    *source,
                    dev_mode,
                    dev_bug@,
                    k,
                ));
            }
        }
        lemma_android_plan_assemble(
            tail,
            degs,
            *source,
            android_round,
            android_adaptive,
            android_adaptive_bg@,
            dev_mode,
            dev_bug@,
        );
    }
    Ok(())
}

} // verus!
