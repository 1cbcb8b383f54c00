//! The per-platform recipes that emit flat PNGs, and the top-level
//! routing that selects which recipes run for a configuration.

use vstd::prelude::*;
use vstd::string::StringExecFns;

use crate::android::{generate_android_icons_extended, spec_android_plan_ok};
use crate::error::IconError;
use crate::icns::{generate_icns, spec_icns_fits, spec_macos_plan_ok, IcnsElement};
use crate::ico::{generate_ico, spec_ico_fits, spec_ico_plan_ok, IcoFrame};
use crate::ios::{generate_ios_icons, spec_ios_plan_ok};
use crate::plan::{
    append_all, render_png, spec_badge_ok, spec_degs_ok, spec_has_platform_flags, spec_saved_png,
    spec_should_ios, spec_should_macos, spec_sizes_ok, should_invoke_ios_writer,
    should_invoke_macos_writer, Args, OutputFile,
};
use crate::raster::{Raster, MAX_DIM};
use crate::resample::{resize, spec_resized};
use crate::textfmt::{push_dec, spec_dec};

verus! {

/// One flat PNG of a custom-size run: `NxN.png` at the requested edge.
pub open spec fn spec_custom_at(
    files: Seq<OutputFile>,
    degs: Seq<int>,
    source: Raster,
    sizes: Seq<u32>,
    dev_mode: bool,
    bug: Seq<char>,
    i: int,
) -> bool {
    let px = sizes[i] as int;
    &&& files[i].path@ == spec_dec(px) + "x"@ + spec_dec(px) + ".png"@
    &&& 0 <= degs[i] < 360
    &&& files[i].bytes@ == spec_saved_png(
        spec_resized(&source, px, px),
        px,
        px,
        dev_mode,
        bug,
        degs[i],
        false,
    )
}

/// The custom-size plan: exactly the requested sizes as flat PNGs, in
/// order.
pub open spec fn spec_custom_plan_ok(
    files: Seq<OutputFile>,
    degs: Seq<int>,
    source: Raster,
    sizes: Seq<u32>,
    dev_mode: bool,
    bug: Seq<char>,
) -> bool {
    &&& files.len() == sizes.len()
    &&& degs.len() == sizes.len()
    &&& forall|i: int|
        0 <= i < sizes.len() ==> #[trigger] spec_custom_at(
            files,
            degs,
            source,
            sizes,
            dev_mode,
            bug,
            i,
        )
}

/// When a custom-size run succeeds: every size lies in the supported
/// range, and (unless the list is empty, in which case nothing runs)
/// the badge pass can succeed.
pub open spec fn spec_custom_run_ok(sizes: Seq<u32>, dev_mode: bool, bug: Seq<char>) -> bool {
    &&& (sizes.len() == 0 || spec_badge_ok(dev_mode, bug))
    &&& forall|i: int| 0 <= i < sizes.len() ==> 1 <= #[trigger] sizes[i] <= MAX_DIM
}

/// Both container builds fit their 32-bit length fields whatever badge
/// angles are drawn: the condition under which a whole run is owed
/// success.
pub open spec fn spec_containers_fit(source: Raster, dev_mode: bool, bug: Seq<char>) -> bool {
    &&& forall|degs: Seq<int>|
        spec_degs_ok(degs, 6) ==> #[trigger] spec_ico_fits(source, dev_mode, bug, degs)
    &&& forall|degs: Seq<int>|
        spec_degs_ok(degs, 10) ==> #[trigger] spec_icns_fits(source, dev_mode, bug, degs)
}

/// The custom-size recipe: when a size list is configured, only these
/// flat PNGs are generated; a size outside 1..=16384 is rejected
/// before any file is produced.
pub fn generate_custom_sizes(
    source: &Raster,
    out: &mut Vec<OutputFile>,
    sizes: &Vec<u32>,
    dev_mode: bool,
    dev_bug: &str,
) -> (r: Result<(), IconError>)
    requires
        source.wf(),
        1 <= source.width,
        1 <= source.height,
    ensures
        r is Ok ==> (exists|degs: Seq<int>|
            #[trigger] spec_custom_plan_ok(
                final(out)@.skip(old(out)@.len() as int),
                degs,
                *source,
                sizes@,
                dev_mode,
                dev_bug@,
            )),
        r is Ok ==> forall|j: int|
            0 <= j < old(out)@.len() ==> final(out)@[j] == old(out)@[j],
        r is Ok ==> final(out)@.len() == old(out)@.len() + sizes@.len(),
        r is Err ==> final(out)@ == old(out)@,
        r is Err ==> !(r->Err_0 is NonSquareSource),
        r is Ok <==> spec_custom_run_ok(sizes@, dev_mode, dev_bug@),
{
    let ghost base = out@.len();
    // Validate every requested size before producing anything.
    let mut v: usize = 0;
    let n = sizes.len();
    while v < n
        invariant
            v <= n,
            n == sizes@.len(),
            forall|i: int| 0 <= i < v ==> 1 <= #[trigger] sizes@[i] <= MAX_DIM,
        decreases n - v,
    {
        let s = sizes[v];
        if s < 1 || s > MAX_DIM {
            return Err(IconError::InvalidSize { size: s });
        }
        v = v + 1;
    }
    let mut produced: Vec<OutputFile> = Vec::new();
    let ghost mut degs: Seq<int> = Seq::empty();
    let mut i: usize = 0;
    while i < n
        invariant
            i <= n,
            n == sizes@.len(),
            source.wf(),
            1 <= source.width,
            1 <= source.height,
            forall|k: int| 0 <= k < n ==> 1 <= #[trigger] sizes@[k] <= MAX_DIM,
            produced@.len() == i,
            degs.len() == i,
            i > 0 ==> spec_badge_ok(dev_mode, dev_bug@),
            forall|k: int|
                0 <= k < i ==> #[trigger] spec_custom_at(
                    produced@,
                    degs,
                    *source,
                    sizes@,
                    dev_mode,
                    dev_bug@,
                    k,
                ),
        decreases n - i,
    {
        let ghost produced0 = produced@;
        let ghost degs0 = degs;
        let size = sizes[i];
        let resized = resize(source, size);
        let data = match render_png(&resized, dev_mode, dev_bug, false) {
            Ok(d) => d,
            Err(e) => {
                return Err(e);
            },
        };
        let ghost gdeg = choose|deg: int|
            0 <= deg < 360 && data@ == spec_saved_png(
                resized.pixels@,
                resized.width as int,
                resized.height as int,
                dev_mode,
                dev_bug@,
                deg,
                false,
            );
        proof {
            degs = degs.push(gdeg);
        }
        let mut path = String::new();
        push_dec(&mut path, size);
        path.append("x");
        push_dec(&mut path, size);
        path.append(".png");
        proof {
            assert(path@ =~= spec_dec(size as int) + "x"@ + spec_dec(size as int) + ".png"@);
        }
        produced.push(OutputFile { path, bytes: data });
        proof {
            assert forall|k: int| 0 <= k < i + 1 implies #[trigger] spec_custom_at(
                produced@,
                degs,
                *source,
                sizes@,
                dev_mode,
                dev_bug@,
                k,
            ) by {
                if k < i {
                    assert(spec_custom_at(produced0, degs0, *source, sizes@, dev_mode, dev_bug@, k));
                    assert(produced@[k] == produced0[k]);
                    assert(degs[k] == degs0[k]);
                }
            }
        }
        i = i + 1;
    }
    let ghost gproduced = produced@;
    let ghost gdegs = degs;
    append_all(out, produced);
    proof {
        assert(out@.skip(base as int) =~= gproduced);
        assert(spec_custom_plan_ok(gproduced, gdegs, *source, sizes@, dev_mode, dev_bug@));
    }
    Ok(())
}

/// The pixel edge of Linux desktop icon `i`.
pub open spec fn spec_linux_size(i: int) -> u32 {
    if i == 0 {
        32
    } else if i == 1 {
        64
    } else if i == 2 {
        128
    } else if i == 3 {
        256
    } else {
        512
    }
}

/// The file name of Linux desktop icon `i`: the 512-pixel icon takes
/// the platform's canonical launcher name.
pub open spec fn spec_linux_name(i: int) -> Seq<char> {
    if i == 4 {
        "icon.png"@
    } else {
        spec_dec(spec_linux_size(i) as int) + "x"@ + spec_dec(spec_linux_size(i) as int) + ".png"@
    }
}

/// One Linux desktop PNG matches its rung.
pub open spec fn spec_linux_at(
    files: Seq<OutputFile>,
    degs: Seq<int>,
    source: Raster,
    dev_mode: bool,
    bug: Seq<char>,
    i: int,
) -> bool {
    let px = spec_linux_size(i) as int;
    &&& files[i].path@ == spec_linux_name(i)
    &&& 0 <= degs[i] < 360
    &&& files[i].bytes@ == spec_saved_png(
        spec_resized(&source, px, px),
        px,
        px,
        dev_mode,
        bug,
        degs[i],
        false,
    )
}

/// The Linux plan: the five desktop rungs, in order.
pub open spec fn spec_linux_plan_ok(
    files: Seq<OutputFile>,
    degs: Seq<int>,
    source: Raster,
    dev_mode: bool,
    bug: Seq<char>,
) -> bool {
    &&& files.len() == 5
    &&& degs.len() == 5
    &&& forall|i: int|
        0 <= i < 5 ==> #[trigger] spec_linux_at(files, degs, source, dev_mode, bug, i)
}

/// The Linux recipe: flat PNGs at the desktop ladder, the largest
/// under the canonical launcher name.
pub fn generate_linux_icons(
    source: &Raster,
    out: &mut Vec<OutputFile>,
    dev_mode: bool,
    dev_bug: &str,
) -> (r: Result<(), IconError>)
    requires
        source.wf(),
        1 <= source.width,
        1 <= source.height,
    ensures
        r is Ok ==> (exists|degs: Seq<int>|
            #[trigger] spec_linux_plan_ok(
                final(out)@.skip(old(out)@.len() as int),
                degs,
                *source,
                dev_mode,
                dev_bug@,
            )),
        r is Ok ==> forall|j: int|
            0 <= j < old(out)@.len() ==> final(out)@[j] == old(out)@[j],
        r is Ok ==> final(out)@.len() == old(out)@.len() + 5,
        r is Err ==> final(out)@ == old(out)@,
        r is Err ==> !(r->Err_0 is NonSquareSource),
        r is Ok <==> spec_badge_ok(dev_mode, dev_bug@),
{
    let ghost base = out@.len();
    let mut produced: Vec<OutputFile> = Vec::new();
    let ghost mut degs: Seq<int> = Seq::empty();
    let mut i: usize = 0;
    while i < 5
        invariant
            i <= 5,
            source.wf(),
            1 <= source.width,
            1 <= source.height,
            produced@.len() == i,
            degs.len() == i,
            i > 0 ==> spec_badge_ok(dev_mode, dev_bug@),
            forall|k: int|
                0 <= k < i ==> #[trigger] spec_linux_at(
                    produced@,
                    degs,
                    *source,
                    dev_mode,
                    dev_bug@,
                    k,
                ),
        decreases 5 - i,
    {
        let ghost produced0 = produced@;
        let ghost degs0 = degs;
        let size: u32 = if i == 0 {
            32
        } else if i == 1 {
            64
        } else if i == 2 {
            128
        } else if i == 3 {
            256
        } else {
            512
        };
        let resized = resize(source, size);
        let data = match render_png(&resized, dev_mode, dev_bug, false) {
            Ok(d) => d,
            Err(e) => {
                return Err(e);
            },
        };
        let ghost gdeg = choose|deg: int|
            0 <= deg < 360 && data@ == spec_saved_png(
                resized.pixels@,
                resized.width as int,
                resized.height as int,
                dev_mode,
                dev_bug@,
                deg,
                false,
            );
        proof {
            degs = degs.push(gdeg);
        }
        let path = if i == 4 {
            String::from_str("icon.png")
        } else {
            let mut p = String::new();
            push_dec(&mut p, size);
            p.append("x");
            push_dec(&mut p, size);
            p.append(".png");
            proof {
                assert(p@ =~= spec_dec(size as int) + "x"@ + spec_dec(size as int) + ".png"@);
            }
            p
        };
        produced.push(OutputFile { path, bytes: data });
        proof {
            assert(spec_linux_at(produced@, degs, *source, dev_mode, dev_bug@, i as int));
            assert forall|k: int| 0 <= k < i + 1 implies #[trigger] spec_linux_at(
                produced@,
                degs,
                *source,
                dev_mode,
                dev_bug@,
                k,
            ) by {
                if k < i {
                    assert(spec_linux_at(produced0, degs0, *source, dev_mode, dev_bug@, k));
                    assert(produced@[k] == produced0[k]);
                    assert(degs[k] == degs0[k]);
                }
            }
        }
        i = i + 1;
    }
    let ghost gdegs = degs;
    let ghost gproduced = produced@;
    append_all(out, produced);
    proof {
        assert(out@.skip(base as int) =~= gproduced);
        assert(spec_linux_plan_ok(gproduced, gdegs, *source, dev_mode, dev_bug@));
    }
    Ok(())
}

/// The Windows segment of a composed plan: one container file.
pub open spec fn spec_ico_segment_ok(
    files: Seq<OutputFile>,
    source: Raster,
    dev_mode: bool,
    bug: Seq<char>,
) -> bool {
    &&& files.len() == 1
    &&& files[0].path@ == "icon.ico"@
    &&& exists|frames: Seq<IcoFrame>, degs: Seq<int>|
        #[trigger] spec_ico_plan_ok(files[0].bytes@, frames, degs, source, dev_mode, bug)
}

/// The macOS segment of a composed plan: the family file, the flat
/// PNGs its manifest references, and the catalog manifest.
pub open spec fn spec_icns_segment_ok(
    files: Seq<OutputFile>,
    source: Raster,
    dev_mode: bool,
    bug: Seq<char>,
) -> bool {
    exists|
        elems: Seq<IcnsElement>,
        edegs: Seq<int>,
        pdegs: Seq<int>,
        cf: crate::contents_json::ContentsFile,
    |
        #[trigger] spec_macos_plan_ok(files, elems, edegs, pdegs, cf, source, dev_mode, bug)
}

/// The iOS segment of a composed plan.
pub open spec fn spec_ios_segment_ok(
    files: Seq<OutputFile>,
    source: Raster,
    color: Seq<char>,
    dev_mode: bool,
    bug: Seq<char>,
) -> bool {
    exists|degs: Seq<int>, cf: crate::contents_json::ContentsFile|
        #[trigger] spec_ios_plan_ok(files, degs, cf, source, color, dev_mode, bug)
}

/// The Android segment of a composed plan.
pub open spec fn spec_android_segment_ok(
    files: Seq<OutputFile>,
    source: Raster,
    a: Args,
) -> bool {
    exists|degs: Seq<int>|
        #[trigger] spec_android_plan_ok(
            files,
            degs,
            source,
            a.android_round,
            a.android_adaptive,
            a.android_adaptive_bg@,
            a.dev_mode,
            a.dev_bug@,
        )
}

/// The Linux segment of a composed plan: either the custom size list
/// (which suppresses the platform ladder) or the desktop ladder.
pub open spec fn spec_linux_segment_ok(files: Seq<OutputFile>, source: Raster, a: Args) -> bool {
    match a.png {
        Option::Some(sizes) => exists|degs: Seq<int>|
            #[trigger] spec_custom_plan_ok(files, degs, source, sizes@, a.dev_mode, a.dev_bug@),
        Option::None => exists|degs: Seq<int>|
            #[trigger] spec_linux_plan_ok(files, degs, source, a.dev_mode, a.dev_bug@),
    }
}

/// A mobile run split into its Android and iOS parts: the iOS part is
/// present exactly when the iOS writer is selected.
pub open spec fn spec_mobile_parts_ok(
    tail: Seq<OutputFile>,
    aseg: Seq<OutputFile>,
    iseg: Seq<OutputFile>,
    source: Raster,
    a: Args,
) -> bool {
    &&& tail == aseg + iseg
    &&& spec_android_segment_ok(aseg, source, a)
    &&& spec_should_ios(a) ==> spec_ios_segment_ok(iseg, source, a.ios_color@, a.dev_mode, a.dev_bug@)
    &&& !spec_should_ios(a) ==> iseg.len() == 0
}

/// The mobile recipe: Android icons always, iOS icons when the iOS
/// writer is selected for this configuration.
pub fn generate_mobile(source: &Raster, out: &mut Vec<OutputFile>, args: &Args) -> (r: Result<
    (),
    IconError,
>)
    requires
        source.wf(),
        1 <= source.width,
        1 <= source.height,
    ensures
        r is Ok ==> (exists|aseg: Seq<OutputFile>, iseg: Seq<OutputFile>|
            #[trigger] spec_mobile_parts_ok(
                final(out)@.skip(old(out)@.len() as int),
                aseg,
                iseg,
                *source,
                *args,
            )),
        r is Ok ==> forall|j: int|
            0 <= j < old(out)@.len() ==> final(out)@[j] == old(out)@[j],
        r is Err ==> final(out)@ == old(out)@,
        r is Err ==> !(r->Err_0 is NonSquareSource),
        r is Ok <==> spec_badge_ok(args.dev_mode, args.dev_bug@),
{
    let ghost base = out@.len();
    let mut produced: Vec<OutputFile> = Vec::new();
    match generate_android_icons_extended(
        source,
        &mut produced,
        args.android_round,
        args.android_adaptive,
        args.android_adaptive_bg.as_str(),
        args.dev_mode,
        args.dev_bug.as_str(),
    ) {
        Ok(()) => {},
        Err(e) => {
            return Err(e);
        },
    }
    let ghost aseg = produced@;
    let has_platform_flags = args.windows || args.macos || args.linux || args.android || args.ios;
    let ios_on = should_invoke_ios_writer(args, has_platform_flags);
    if ios_on {
        match generate_ios_icons(
            source,
            &mut produced,
            args.ios_color.as_str(),
            args.dev_mode,
            args.dev_bug.as_str(),
        ) {
            Ok(()) => {},
            Err(e) => {
                return Err(e);
            },
        }
    }
    let ghost iseg = produced@.skip(aseg.len() as int);
    let ghost whole = produced@;
    append_all(out, produced);
    proof {
        assert(out@.skip(base as int) =~= whole);
        assert(whole =~= aseg + iseg);
        if !ios_on {
            assert(iseg.len() == 0);
        }
        assert(spec_android_segment_ok(aseg, *source, *args)) by {
            let adegs = choose|degs: Seq<int>|
                #[trigger] spec_android_plan_ok(
                    aseg.skip(0),
                    degs,
                    *source,
                    args.android_round,
                    args.android_adaptive,
                    args.android_adaptive_bg@,
                    args.dev_mode,
                    args.dev_bug@,
                );
            assert(aseg.skip(0) =~= aseg);
            assert(spec_android_plan_ok(
                aseg,
                adegs,
                *source,
                args.android_round,
                args.android_adaptive,
                args.android_adaptive_bg@,
                args.dev_mode,
                args.dev_bug@,
            ));
        }
        assert(spec_mobile_parts_ok(whole, aseg, iseg, *source, *args));
    }
    Ok(())
}

/// A whole mobile run.
pub open spec fn spec_mobile_ok(tail: Seq<OutputFile>, source: Raster, a: Args) -> bool {
    exists|aseg: Seq<OutputFile>, iseg: Seq<OutputFile>|
        #[trigger] spec_mobile_parts_ok(tail, aseg, iseg, source, a)
}

/// Run the Windows recipe and hand back its single-file segment.
fn run_ico_segment(source: &Raster, out: &mut Vec<OutputFile>, a: &Args) -> (r: Result<
    (),
    IconError,
>)
    requires
        source.wf(),
        1 <= source.width,
        1 <= source.height,
    ensures
        r is Ok ==> final(out)@.len() == old(out)@.len() + 1 && spec_ico_segment_ok(
            final(out)@.skip(old(out)@.len() as int),
            *source,
            a.dev_mode,
            a.dev_bug@,
        ),
        r is Ok ==> forall|j: int|
            0 <= j < old(out)@.len() ==> final(out)@[j] == old(out)@[j],
        r is Err ==> final(out)@ == old(out)@,
        r is Err ==> !(r->Err_0 is NonSquareSource),
        r is Err ==> !spec_badge_ok(a.dev_mode, a.dev_bug@) || (r->Err_0
            == IconError::EncodeFailed && (exists|degs: Seq<int>|
            spec_degs_ok(degs, 6) && !spec_ico_fits(*source, a.dev_mode, a.dev_bug@, degs))),
        (spec_badge_ok(a.dev_mode, a.dev_bug@) && (forall|degs: Seq<int>|
            spec_degs_ok(degs, 6) ==> #[trigger] spec_ico_fits(
                *source,
                a.dev_mode,
                a.dev_bug@,
                degs,
            ))) ==> r is Ok,
{
    match generate_ico(source, out, a.dev_mode, a.dev_bug.as_str()) {
        Ok(()) => {
            proof {
                let seg = out@.skip(out@.len() - 1);
                assert(seg.len() == 1);
                assert(seg[0] == out@.last());
                let (frames, degs) = choose|frames: Seq<IcoFrame>, degs: Seq<int>|
                    #[trigger] spec_ico_plan_ok(
                        out@.last().bytes@,
                        frames,
                        degs,
                        *source,
                        a.dev_mode,
                        a.dev_bug@,
                    );
                assert(spec_ico_plan_ok(
                    seg[0].bytes@,
                    frames,
                    degs,
                    *source,
                    a.dev_mode,
                    a.dev_bug@,
                ));
                assert(spec_ico_segment_ok(seg, *source, a.dev_mode, a.dev_bug@));
            }
            Ok(())
        },
        Err(e) => Err(e),
    }
}

/// Run the macOS recipe and hand back its segment: the family, the
/// flat PNGs its manifest references, and the manifest.
fn run_icns_segment(source: &Raster, out: &mut Vec<OutputFile>, a: &Args) -> (r: Result<
    (),
    IconError,
>)
    requires
        source.wf(),
        1 <= source.width,
        1 <= source.height,
    ensures
        r is Ok ==> final(out)@.len() == old(out)@.len() + 9 && spec_icns_segment_ok(
            final(out)@.skip(old(out)@.len() as int),
            *source,
            a.dev_mode,
            a.dev_bug@,
        ),
        r is Ok ==> forall|j: int|
            0 <= j < old(out)@.len() ==> final(out)@[j] == old(out)@[j],
        r is Err ==> final(out)@ == old(out)@,
        r is Err ==> !(r->Err_0 is NonSquareSource),
        r is Err ==> !spec_badge_ok(a.dev_mode, a.dev_bug@) || (r->Err_0
            == IconError::EncodeFailed && (exists|degs: Seq<int>|
            spec_degs_ok(degs, 10) && !spec_icns_fits(*source, a.dev_mode, a.dev_bug@, degs))),
        (spec_badge_ok(a.dev_mode, a.dev_bug@) && (forall|degs: Seq<int>|
            spec_degs_ok(degs, 10) ==> #[trigger] spec_icns_fits(
                *source,
                a.dev_mode,
                a.dev_bug@,
                degs,
            ))) ==> r is Ok,
{
    generate_icns(source, out, a.dev_mode, a.dev_bug.as_str())
}

/// Run the Linux-or-custom segment: a configured size list suppresses
/// the platform ladder.
fn run_linux_segment(source: &Raster, out: &mut Vec<OutputFile>, a: &Args) -> (r: Result<
    (),
    IconError,
>)
    requires
        source.wf(),
        1 <= source.width,
        1 <= source.height,
    ensures
        r is Ok ==> spec_linux_segment_ok(
            final(out)@.skip(old(out)@.len() as int),
            *source,
            *a,
        ),
        r is Ok ==> final(out)@.len() >= old(out)@.len(),
        r is Ok ==> forall|j: int|
            0 <= j < old(out)@.len() ==> final(out)@[j] == old(out)@[j],
        r is Err ==> final(out)@ == old(out)@,
        r is Err ==> !(r->Err_0 is NonSquareSource),
        r is Ok <==> (match a.png {
            Option::Some(sizes) => spec_custom_run_ok(sizes@, a.dev_mode, a.dev_bug@),
            Option::None => spec_badge_ok(a.dev_mode, a.dev_bug@),
        }),
{
    match &a.png {
        Option::Some(sizes) => generate_custom_sizes(
            source,
            out,
            sizes,
            a.dev_mode,
            a.dev_bug.as_str(),
        ),
        Option::None => generate_linux_icons(source, out, a.dev_mode, a.dev_bug.as_str()),
    }
}

/// The four segments of a default (everything) run: the Windows
/// container, the macOS family when its writer is selected, the Linux
/// ladder, and the mobile set.
pub open spec fn spec_all_parts_ok(
    tail: Seq<OutputFile>,
    s1: Seq<OutputFile>,
    s2: Seq<OutputFile>,
    s3: Seq<OutputFile>,
    s4: Seq<OutputFile>,
    source: Raster,
    a: Args,
) -> bool {
    &&& tail == s1 + s2 + s3 + s4
    &&& spec_ico_segment_ok(s1, source, a.dev_mode, a.dev_bug@)
    &&& spec_should_macos(a) ==> spec_icns_segment_ok(s2, source, a.dev_mode, a.dev_bug@)
    &&& !spec_should_macos(a) ==> s2.len() == 0
    &&& exists|degs: Seq<int>|
        #[trigger] spec_linux_plan_ok(s3, degs, source, a.dev_mode, a.dev_bug@)
    &&& spec_mobile_ok(s4, source, a)
}

/// A default run: the custom size list alone when one is configured,
/// otherwise every platform.
pub open spec fn spec_all_ok(tail: Seq<OutputFile>, source: Raster, a: Args) -> bool {
    match a.png {
        Option::Some(sizes) => exists|degs: Seq<int>|
            #[trigger] spec_custom_plan_ok(tail, degs, source, sizes@, a.dev_mode, a.dev_bug@),
        Option::None => exists|s1: Seq<OutputFile>, s2: Seq<OutputFile>, s3: Seq<OutputFile>, s4: Seq<OutputFile>|
            #[trigger] spec_all_parts_ok(tail, s1, s2, s3, s4, source, a),
    }
}

/// The default run: a custom size list suppresses every platform
/// recipe; otherwise the Windows container, the macOS family when its
/// writer is selected, the Linux ladder and the mobile set.
#[verifier::rlimit(100)]
pub fn generate_all(source: &Raster, out: &mut Vec<OutputFile>, args: &Args) -> (r: Result<
    (),
    IconError,
>)
    requires
        source.wf(),
        1 <= source.width,
        1 <= source.height,
    ensures
        r is Ok ==> spec_all_ok(final(out)@.skip(old(out)@.len() as int), *source, *args),
        r is Ok ==> forall|j: int|
            0 <= j < old(out)@.len() ==> final(out)@[j] == old(out)@[j],
        r is Err ==> final(out)@ == old(out)@,
        r is Err ==> !(r->Err_0 is NonSquareSource),
        r is Err ==> !spec_badge_ok(args.dev_mode, args.dev_bug@) || !spec_sizes_ok(*args)
            || r->Err_0 == IconError::EncodeFailed,
        (spec_badge_ok(args.dev_mode, args.dev_bug@) && spec_sizes_ok(*args)
            && spec_containers_fit(*source, args.dev_mode, args.dev_bug@)) ==> r is Ok,
{
    let ghost base = out@.len();
    match &args.png {
        Option::Some(sizes) => {
            return generate_custom_sizes(source, out, sizes, args.dev_mode, args.dev_bug.as_str());
        },
        Option::None => {},
    }
    let mut v1: Vec<OutputFile> = Vec::new();
    match run_ico_segment(source, &mut v1, args) {
        Ok(()) => {},
        Err(e) => {
            return Err(e);
        },
    }
    let ghost s1 = v1@;
    let has_platform_flags = args.windows || args.macos || args.linux || args.android || args.ios;
    let macos_on = should_invoke_macos_writer(args, has_platform_flags);
    let mut v2: Vec<OutputFile> = Vec::new();
    if macos_on {
        match run_icns_segment(source, &mut v2, args) {
            Ok(()) => {},
            Err(e) => {
                return Err(e);
            },
        }
    }
    let ghost s2 = v2@;
    let mut v3: Vec<OutputFile> = Vec::new();
    match generate_linux_icons(source, &mut v3, args.dev_mode, args.dev_bug.as_str()) {
        Ok(()) => {},
        Err(e) => {
            return Err(e);
        },
    }
    let ghost s3 = v3@;
    let mut v4: Vec<OutputFile> = Vec::new();
    match generate_mobile(source, &mut v4, args) {
        Ok(()) => {},
        Err(e) => {
            return Err(e);
        },
    }
    let ghost s4 = v4@;
    append_all(out, v1);
    append_all(out, v2);
    append_all(out, v3);
    append_all(out, v4);
    proof {
        assert(s2.skip(0) =~= s2);
        assert(s3.skip(0) =~= s3);
        assert(s4.skip(0) =~= s4);
        let whole = out@.skip(base as int);
        assert(whole =~= s1 + s2 + s3 + s4);
        lemma_segment_facts_all(whole, s1, s2, s3, s4, *source, *args, macos_on);
        assert(spec_all_parts_ok(whole, s1, s2, s3, s4, *source, *args));
    }
    Ok(())
}

/// Carry each segment's plan over to the assembled whole. The caller
/// has already established each plan on its own segment value; this
/// only repackages the quantifiers.
proof fn lemma_segment_facts_all(
    whole: Seq<OutputFile>,
    s1: Seq<OutputFile>,
    s2: Seq<OutputFile>,
    s3: Seq<OutputFile>,
    s4: Seq<OutputFile>,
    source: Raster,
    a: Args,
    macos_on: bool,
)
    requires
        macos_on == spec_should_macos(a),
        spec_ico_segment_ok(s1, source, a.dev_mode, a.dev_bug@),
        macos_on ==> spec_icns_segment_ok(s2, source, a.dev_mode, a.dev_bug@),
        !macos_on ==> s2.len() == 0,
        exists|degs: Seq<int>|
            #[trigger] spec_linux_plan_ok(s3, degs, source, a.dev_mode, a.dev_bug@),
        spec_mobile_ok(s4, source, a),
        whole == s1 + s2 + s3 + s4,
    ensures
        spec_all_parts_ok(whole, s1, s2, s3, s4, source, a),
{
}

/// A desktop-only run: the custom size list alone when one is
/// configured, otherwise the Windows container, the macOS family when
/// its writer is selected, and the Linux ladder.
pub open spec fn spec_desktop_ok(tail: Seq<OutputFile>, source: Raster, a: Args) -> bool {
    match a.png {
        Option::Some(sizes) => exists|degs: Seq<int>|
            #[trigger] spec_custom_plan_ok(tail, degs, source, sizes@, a.dev_mode, a.dev_bug@),
        Option::None => exists|s1: Seq<OutputFile>, s2: Seq<OutputFile>, s3: Seq<OutputFile>|
            #[trigger] spec_desktop_parts_ok(tail, s1, s2, s3, source, a),
    }
}

/// The three segments of a desktop-only run.
pub open spec fn spec_desktop_parts_ok(
    tail: Seq<OutputFile>,
    s1: Seq<OutputFile>,
    s2: Seq<OutputFile>,
    s3: Seq<OutputFile>,
    source: Raster,
    a: Args,
) -> bool {
    &&& tail == s1 + s2 + s3
    &&& spec_ico_segment_ok(s1, source, a.dev_mode, a.dev_bug@)
    &&& spec_should_macos(a) ==> spec_icns_segment_ok(s2, source, a.dev_mode, a.dev_bug@)
    &&& !spec_should_macos(a) ==> s2.len() == 0
    &&& exists|degs: Seq<int>|
        #[trigger] spec_linux_plan_ok(s3, degs, source, a.dev_mode, a.dev_bug@)
}

/// The desktop-only run.
pub fn generate_desktop_only(source: &Raster, out: &mut Vec<OutputFile>, args: &Args) -> (r: Result<
    (),
    IconError,
>)
    requires
        source.wf(),
        1 <= source.width,
        1 <= source.height,
    ensures
        r is Ok ==> spec_desktop_ok(final(out)@.skip(old(out)@.len() as int), *source, *args),
        r is Ok ==> forall|j: int|
            0 <= j < old(out)@.len() ==> final(out)@[j] == old(out)@[j],
        r is Err ==> final(out)@ == old(out)@,
        r is Err ==> !(r->Err_0 is NonSquareSource),
        r is Err ==> !spec_badge_ok(args.dev_mode, args.dev_bug@) || !spec_sizes_ok(*args)
            || r->Err_0 == IconError::EncodeFailed,
        (spec_badge_ok(args.dev_mode, args.dev_bug@) && spec_sizes_ok(*args)
            && spec_containers_fit(*source, args.dev_mode, args.dev_bug@)) ==> r is Ok,
{
    let ghost base = out@.len();
    match &args.png {
        Option::Some(sizes) => {
            return generate_custom_sizes(source, out, sizes, args.dev_mode, args.dev_bug.as_str());
        },
        Option::None => {},
    }
    let mut produced: Vec<OutputFile> = Vec::new();
    match run_ico_segment(source, &mut produced, args) {
        Ok(()) => {},
        Err(e) => {
            return Err(e);
        },
    }
    let ghost s1 = produced@;
    let has_platform_flags = args.windows || args.macos || args.linux || args.android || args.ios;
    let macos_on = should_invoke_macos_writer(args, has_platform_flags);
    if macos_on {
        match run_icns_segment(source, &mut produced, args) {
            Ok(()) => {},
            Err(e) => {
                return Err(e);
            },
        }
    }
    let ghost s2 = produced@.skip(s1.len() as int);
    let ghost m2 = produced@.len();
    match generate_linux_icons(source, &mut produced, args.dev_mode, args.dev_bug.as_str()) {
        Ok(()) => {},
        Err(e) => {
            return Err(e);
        },
    }
    let ghost s3 = produced@.skip(m2 as int);
    let ghost whole = produced@;
    append_all(out, produced);
    proof {
        assert(out@.skip(base as int) =~= whole);
        assert(whole =~= s1 + s2 + s3);
        assert(spec_desktop_parts_ok(whole, s1, s2, s3, *source, *args));
    }
    Ok(())
}

/// The mobile-only run.
pub fn generate_mobile_only(source: &Raster, out: &mut Vec<OutputFile>, args: &Args) -> (r: Result<
    (),
    IconError,
>)
    requires
        source.wf(),
        1 <= source.width,
        1 <= source.height,
    ensures
        r is Ok ==> spec_mobile_ok(final(out)@.skip(old(out)@.len() as int), *source, *args),
        r is Ok ==> forall|j: int|
            0 <= j < old(out)@.len() ==> final(out)@[j] == old(out)@[j],
        r is Err ==> final(out)@ == old(out)@,
        r is Err ==> !(r->Err_0 is NonSquareSource),
        r is Ok <==> spec_badge_ok(args.dev_mode, args.dev_bug@),
{
    generate_mobile(source, out, args)
}

/// The five segments of an explicit-platform run: one per platform
/// flag, empty when the flag is off; the macOS and iOS writers run
/// only when both their flag and their writer selection agree.
pub open spec fn spec_platforms_parts_ok(
    tail: Seq<OutputFile>,
    s1: Seq<OutputFile>,
    s2: Seq<OutputFile>,
    s3: Seq<OutputFile>,
    s4: Seq<OutputFile>,
    s5: Seq<OutputFile>,
    source: Raster,
    a: Args,
) -> bool {
    &&& tail == s1 + s2 + s3 + s4 + s5
    &&& a.windows ==> spec_ico_segment_ok(s1, source, a.dev_mode, a.dev_bug@)
    &&& !a.windows ==> s1.len() == 0
    &&& (a.macos && spec_should_macos(a)) ==> spec_icns_segment_ok(
        s2,
        source,
        a.dev_mode,
        a.dev_bug@,
    )
    &&& !(a.macos && spec_should_macos(a)) ==> s2.len() == 0
    &&& a.linux ==> spec_linux_segment_ok(s3, source, a)
    &&& !a.linux ==> s3.len() == 0
    &&& a.android ==> spec_android_segment_ok(s4, source, a)
    &&& !a.android ==> s4.len() == 0
    &&& (a.ios && spec_should_ios(a)) ==> spec_ios_segment_ok(
        s5,
        source,
        a.ios_color@,
        a.dev_mode,
        a.dev_bug@,
    )
    &&& !(a.ios && spec_should_ios(a)) ==> s5.len() == 0
}

/// An explicit-platform run.
pub open spec fn spec_platforms_ok(tail: Seq<OutputFile>, source: Raster, a: Args) -> bool {
    exists|
        s1: Seq<OutputFile>,
        s2: Seq<OutputFile>,
        s3: Seq<OutputFile>,
        s4: Seq<OutputFile>,
        s5: Seq<OutputFile>,
    |
        #[trigger] spec_platforms_parts_ok(tail, s1, s2, s3, s4, s5, source, a)
}

/// The explicit-platform run: each selected platform in a fixed
/// order; the macOS and iOS writers only when their selection agrees.
#[verifier::rlimit(100)]
pub fn generate_platforms(source: &Raster, out: &mut Vec<OutputFile>, args: &Args) -> (r: Result<
    (),
    IconError,
>)
    requires
        source.wf(),
        1 <= source.width,
        1 <= source.height,
    ensures
        r is Ok ==> spec_platforms_ok(final(out)@.skip(old(out)@.len() as int), *source, *args),
        r is Ok ==> forall|j: int|
            0 <= j < old(out)@.len() ==> final(out)@[j] == old(out)@[j],
        r is Err ==> final(out)@ == old(out)@,
        r is Err ==> !(r->Err_0 is NonSquareSource),
        r is Err ==> !spec_badge_ok(args.dev_mode, args.dev_bug@) || !spec_sizes_ok(*args)
            || r->Err_0 == IconError::EncodeFailed,
        (spec_badge_ok(args.dev_mode, args.dev_bug@) && spec_sizes_ok(*args)
            && spec_containers_fit(*source, args.dev_mode, args.dev_bug@)) ==> r is Ok,
{
    let ghost base = out@.len();
    let mut produced: Vec<OutputFile> = Vec::new();
    let has_platform_flags = args.windows || args.macos || args.linux || args.android || args.ios;
    let macos_on = should_invoke_macos_writer(args, has_platform_flags);
    let ios_on = should_invoke_ios_writer(args, has_platform_flags);
    if args.windows {
        match run_ico_segment(source, &mut produced, args) {
            Ok(()) => {},
            Err(e) => {
                return Err(e);
            },
        }
    }
    let ghost s1 = produced@;
    if args.macos && macos_on {
        match run_icns_segment(source, &mut produced, args) {
            Ok(()) => {},
            Err(e) => {
                return Err(e);
            },
        }
    }
    let ghost s2 = produced@.skip(s1.len() as int);
    let ghost m2 = produced@.len();
    if args.linux {
        match run_linux_segment(source, &mut produced, args) {
            Ok(()) => {},
            Err(e) => {
                return Err(e);
            },
        }
    }
    let ghost s3 = produced@.skip(m2 as int);
    let ghost m3 = produced@.len();
    if args.android {
        match generate_android_icons_extended(
            source,
            &mut produced,
            args.android_round,
            args.android_adaptive,
            args.android_adaptive_bg.as_str(),
            args.dev_mode,
            args.dev_bug.as_str(),
        ) {
            Ok(()) => {},
            Err(e) => {
                return Err(e);
            },
        }
    }
    let ghost s4 = produced@.skip(m3 as int);
    let ghost m4 = produced@.len();
    if args.ios && ios_on {
        match generate_ios_icons(
            source,
            &mut produced,
            args.ios_color.as_str(),
            args.dev_mode,
            args.dev_bug.as_str(),
        ) {
            Ok(()) => {},
            Err(e) => {
                return Err(e);
            },
        }
    }
    let ghost s5 = produced@.skip(m4 as int);
    let ghost whole = produced@;
    append_all(out, produced);
    proof {
        assert(out@.skip(base as int) =~= whole);
        assert(whole =~= s1 + s2 + s3 + s4 + s5);
        if args.android {
            let adegs = choose|degs: Seq<int>|
                #[trigger] spec_android_plan_ok(
                    s4,
                    degs,
                    *source,
                    args.android_round,
                    args.android_adaptive,
                    args.android_adaptive_bg@,
                    args.dev_mode,
                    args.dev_bug@,
                );
            assert(spec_android_segment_ok(s4, *source, *args));
        }
        assert(spec_platforms_parts_ok(whole, s1, s2, s3, s4, s5, *source, *args));
    }
    Ok(())
}

/// One rung of the convenience bundle: 32, 128 and the retina 256.
pub open spec fn spec_tauri_size(i: int) -> u32 {
    if i == 0 {
        32
    } else if i == 1 {
        128
    } else {
        256
    }
}

/// The file name of bundle rung `i`.
pub open spec fn spec_tauri_name(i: int) -> Seq<char> {
    if i == 0 {
        "tauri-desktop/32x32.png"@
    } else if i == 1 {
        "tauri-desktop/128x128.png"@
    } else {
        "tauri-desktop/128x128@2x.png"@
    }
}

/// One bundle PNG matches its rung.
pub open spec fn spec_tauri_at(
    files: Seq<OutputFile>,
    degs: Seq<int>,
    source: Raster,
    dev_mode: bool,
    bug: Seq<char>,
    i: int,
) -> bool {
    let px = spec_tauri_size(i) as int;
    &&& files[i].path@ == spec_tauri_name(i)
    &&& 0 <= degs[i] < 360
    &&& files[i].bytes@ == spec_saved_png(
        spec_resized(&source, px, px),
        px,
        px,
        dev_mode,
        bug,
        degs[i],
        false,
    )
}

/// The convenience bundle plan: the three flat PNGs, then byte-true
/// copies of the already-produced container files.
pub open spec fn spec_tauri_plan_ok(
    files: Seq<OutputFile>,
    degs: Seq<int>,
    source: Raster,
    ico: Seq<u8>,
    icns: Seq<u8>,
    dev_mode: bool,
    bug: Seq<char>,
) -> bool {
    &&& files.len() == 5
    &&& degs.len() == 3
    &&& forall|i: int|
        0 <= i < 3 ==> #[trigger] spec_tauri_at(files, degs, source, dev_mode, bug, i)
    &&& files[3].path@ == "tauri-desktop/icon.ico"@
    &&& files[3].bytes@ == ico
    &&& files[4].path@ == "tauri-desktop/icon.icns"@
    &&& files[4].bytes@ == icns
}

/// The convenience bundle for a desktop build tool's icon folder:
/// re-derives three flat PNGs and copies the already-produced `.ico`
/// and `.icns` containers into one directory.
pub fn generate_tauri_bundle(
    source: &Raster,
    out: &mut Vec<OutputFile>,
    ico_bytes: &Vec<u8>,
    icns_bytes: &Vec<u8>,
    dev_mode: bool,
    dev_bug: &str,
) -> (r: Result<(), IconError>)
    requires
        source.wf(),
        1 <= source.width,
        1 <= source.height,
    ensures
        r is Ok ==> final(out)@.len() == old(out)@.len() + 5 && (exists|degs: Seq<int>|
            #[trigger] spec_tauri_plan_ok(
                final(out)@.skip(old(out)@.len() as int),
                degs,
                *source,
                ico_bytes@,
                icns_bytes@,
                dev_mode,
                dev_bug@,
            )),
        r is Ok ==> forall|j: int|
            0 <= j < old(out)@.len() ==> final(out)@[j] == old(out)@[j],
        r is Err ==> final(out)@ == old(out)@,
        r is Err ==> !(r->Err_0 is NonSquareSource),
        r is Ok <==> spec_badge_ok(dev_mode, dev_bug@),
{
    let ghost base = out@.len();
    let mut produced: Vec<OutputFile> = Vec::new();
    let ghost mut degs: Seq<int> = Seq::empty();
    let mut i: usize = 0;
    while i < 3
        invariant
            i <= 3,
            source.wf(),
            1 <= source.width,
            1 <= source.height,
            produced@.len() == i,
            degs.len() == i,
            i > 0 ==> spec_badge_ok(dev_mode, dev_bug@),
            forall|k: int|
                0 <= k < i ==> #[trigger] spec_tauri_at(
                    produced@,
                    degs,
                    *source,
                    dev_mode,
                    dev_bug@,
                    k,
                ),
        decreases 3 - i,
    {
        let ghost produced0 = produced@;
        let ghost degs0 = degs;
        let (size, name): (u32, &'static str) = if i == 0 {
            (32, "tauri-desktop/32x32.png")
        } else if i == 1 {
            (128, "tauri-desktop/128x128.png")
        } else {
            (256, "tauri-desktop/128x128@2x.png")
        };
        let resized = resize(source, size);
        let data = match render_png(&resized, dev_mode, dev_bug, false) {
            Ok(d) => d,
            Err(e) => {
                return Err(e);
            },
        };
        let ghost gdeg = choose|deg: int|
            0 <= deg < 360 && data@ == spec_saved_png(
                resized.pixels@,
                resized.width as int,
                resized.height as int,
                dev_mode,
                dev_bug@,
                deg,
                false,
            );
        proof {
            degs = degs.push(gdeg);
        }
        produced.push(OutputFile { path: String::from_str(name), bytes: data });
        proof {
            assert(spec_tauri_at(produced@, degs, *source, dev_mode, dev_bug@, i as int));
            assert forall|k: int| 0 <= k < i + 1 implies #[trigger] spec_tauri_at(
                produced@,
                degs,
                *source,
                dev_mode,
                dev_bug@,
                k,
            ) by {
                if k < i {
                    assert(spec_tauri_at(produced0, degs0, *source, dev_mode, dev_bug@, k));
                    assert(produced@[k] == produced0[k]);
                    assert(degs[k] == degs0[k]);
                }
            }
        }
        i = i + 1;
    }
    let ghost after_pngs = produced@;
    let ico_copy = copy_bytes(ico_bytes);
    let icns_copy = copy_bytes(icns_bytes);
    produced.push(OutputFile { path: String::from_str("tauri-desktop/icon.ico"), bytes: ico_copy });
    produced.push(
        OutputFile { path: String::from_str("tauri-desktop/icon.icns"), bytes: icns_copy },
    );
    let ghost gproduced = produced@;
    let ghost gdegs = degs;
    append_all(out, produced);
    proof {
        assert(out@.skip(base as int) =~= gproduced);
        assert forall|k: int| 0 <= k < 3 implies #[trigger] spec_tauri_at(
            gproduced,
            gdegs,
            *source,
            dev_mode,
            dev_bug@,
            k,
        ) by {
            assert(spec_tauri_at(after_pngs, gdegs, *source, dev_mode, dev_bug@, k));
            assert(gproduced[k] == after_pngs[k]);
        }
        assert(spec_tauri_plan_ok(
            gproduced,
            gdegs,
            *source,
            ico_bytes@,
            icns_bytes@,
            dev_mode,
            dev_bug@,
        ));
    }
    Ok(())
}

/// An owned copy of a byte vector.
fn copy_bytes(src: &Vec<u8>) -> (out: Vec<u8>)
    ensures
        out@ == src@,
{
    let n = src.len();
    let mut out: Vec<u8> = Vec::new();
    let mut i: usize = 0;
    while i < n
        invariant
            i <= n,
            n == src@.len(),
            out@.len() == i,
            forall|j: int| 0 <= j < i ==> out@[j] == src@[j],
        decreases n - i,
    {
        out.push(src[i]);
        i = i + 1;
    }
    proof {
        assert(out@ =~= src@);
    }
    out
}

/// What a complete run produces for a configuration: a custom size
/// list suppresses every platform recipe on every path; otherwise the
/// mutually exclusive "only" selectors come first, then explicit
/// platform flags, then the default run over every platform.
pub open spec fn spec_icons_plan_ok(files: Seq<OutputFile>, source: Raster, a: Args) -> bool {
    if a.png is Some {
        exists|degs: Seq<int>|
            #[trigger] spec_custom_plan_ok(
                files,
                degs,
                source,
                (a.png->0)@,
                a.dev_mode,
                a.dev_bug@,
            )
    } else if a.icns_only {
        if spec_should_macos(a) {
            spec_icns_segment_ok(files, source, a.dev_mode, a.dev_bug@)
        } else {
            files.len() == 0
        }
    } else if a.ico_only {
        spec_ico_segment_ok(files, source, a.dev_mode, a.dev_bug@)
    } else if a.desktop_only {
        spec_desktop_ok(files, source, a)
    } else if a.mobile_only {
        spec_mobile_ok(files, source, a)
    } else if spec_has_platform_flags(a) {
        spec_platforms_ok(files, source, a)
    } else {
        spec_all_ok(files, source, a)
    }
}

/// Generate every icon asset a configuration asks for, as in-memory
/// files. A non-square source is rejected before any file is
/// produced; a custom size list suppresses every platform recipe on
/// every path; any later failure also yields no files at all, so a
/// caller never persists a partial set.
pub fn generate_icons(source: &Raster, args: &Args) -> (r: Result<Vec<OutputFile>, IconError>)
    requires
        source.wf(),
        1 <= source.width,
        1 <= source.height,
    ensures
        source.width != source.height <==> (r is Err && r->Err_0 == (IconError::NonSquareSource {
            width: source.width,
            height: source.height,
        })),
        r is Ok ==> spec_icons_plan_ok((r->Ok_0)@, *source, *args),
        r is Err ==> source.width != source.height || !spec_badge_ok(
            args.dev_mode,
            args.dev_bug@,
        ) || !spec_sizes_ok(*args) || r->Err_0 == IconError::EncodeFailed,
        (source.width == source.height && spec_badge_ok(args.dev_mode, args.dev_bug@)
            && spec_sizes_ok(*args) && spec_containers_fit(
            *source,
            args.dev_mode,
            args.dev_bug@,
        )) ==> r is Ok,
{
    if source.width != source.height {
        return Err(
            IconError::NonSquareSource { width: source.width, height: source.height },
        );
    }
    let mut out: Vec<OutputFile> = Vec::new();
    // A custom size list suppresses every platform recipe, whatever
    // other selectors are set.
    match &args.png {
        Option::Some(sizes) => {
            return match generate_custom_sizes(
                source,
                &mut out,
                sizes,
                args.dev_mode,
                args.dev_bug.as_str(),
            ) {
                Ok(()) => {
                    proof {
                        assert(out@.skip(0) =~= out@);
                    }
                    Ok(out)
                },
                Err(e) => Err(e),
            };
        },
        Option::None => {},
    }
    let has_platform_flags = args.windows || args.macos || args.linux || args.android || args.ios;
    let macos_on = should_invoke_macos_writer(args, has_platform_flags);
    let result: Result<(), IconError> = if args.icns_only {
        if macos_on {
            run_icns_segment(source, &mut out, args)
        } else {
            Ok(())
        }
    } else if args.ico_only {
        run_ico_segment(source, &mut out, args)
    } else if args.desktop_only {
        generate_desktop_only(source, &mut out, args)
    } else if args.mobile_only {
        generate_mobile_only(source, &mut out, args)
    } else if has_platform_flags {
        generate_platforms(source, &mut out, args)
    } else {
        generate_all(source, &mut out, args)
    };
    match result {
        Ok(()) => {
            proof {
                assert(out@.skip(0) =~= out@);
            }
            Ok(out)
        },
        Err(e) => Err(e),
    }
}

} // verus!
