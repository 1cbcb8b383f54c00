//! The iOS asset-catalog recipe: the full icon-set ladder, background
//! flattening (iOS icons carry no transparency), catalog record
//! derivation and the catalog manifest.

use vstd::prelude::*;
use vstd::string::StringExecFns;

use crate::color::{parse_background_color, spec_bg_color, Rgb};
use crate::compose::{composite_background, spec_bg_composite_seq};
use crate::contents_json::{ContentsFile, ImageEntry};
use crate::error::IconError;
use crate::plan::{render_png, spec_badge_ok, spec_saved_png, OutputFile};
use crate::raster::{Raster, Rgba};
use crate::resample::{resize, spec_resized};
use crate::textfmt::{push_dec, spec_dec};

verus! {

/// The (base point size, scale multiplier) of catalog slot `i`; the
/// ladder has seventeen slots ending in the marketing icon.
pub open spec fn spec_ios_slot(i: int) -> (u32, u32) {
    if i == 0 {
        (20u32, 1u32)
    } else if i == 1 {
        (20u32, 2u32)
    } else if i == 2 {
        (20u32, 3u32)
    } else if i == 3 {
        (29u32, 1u32)
    } else if i == 4 {
        (29u32, 2u32)
    } else if i == 5 {
        (29u32, 3u32)
    } else if i == 6 {
        (40u32, 1u32)
    } else if i == 7 {
        (40u32, 2u32)
    } else if i == 8 {
        (40u32, 3u32)
    } else if i == 9 {
        (60u32, 1u32)
    } else if i == 10 {
        (60u32, 2u32)
    } else if i == 11 {
        (60u32, 3u32)
    } else if i == 12 {
        (76u32, 1u32)
    } else if i == 13 {
        (76u32, 2u32)
    } else if i == 14 {
        (76u32, 3u32)
    } else if i == 15 {
        (83u32, 2u32)
    } else {
        (1024u32, 1u32)
    }
}

/// The catalog slot at index `i`.
fn ios_slot_at(i: usize) -> (r: (u32, u32))
    requires
        i < 17,
    ensures
        r == spec_ios_slot(i as int),
{
    if i == 0 {
        (20, 1)
    } else if i == 1 {
        (20, 2)
    } else if i == 2 {
        (20, 3)
    } else if i == 3 {
        (29, 1)
    } else if i == 4 {
        (29, 2)
    } else if i == 5 {
        (29, 3)
    } else if i == 6 {
        (40, 1)
    } else if i == 7 {
        (40, 2)
    } else if i == 8 {
        (40, 3)
    } else if i == 9 {
        (60, 1)
    } else if i == 10 {
        (60, 2)
    } else if i == 11 {
        (60, 3)
    } else if i == 12 {
        (76, 1)
    } else if i == 13 {
        (76, 2)
    } else if i == 14 {
        (76, 3)
    } else if i == 15 {
        (83, 2)
    } else {
        (1024, 1)
    }
}

/// The pixel edge rendered for a slot. The iPad-Pro slot is nominally
/// 83.5 points at 2x, which is 167 pixels; every other slot is the
/// base size times the multiplier.
pub open spec fn spec_ios_pixel(b: int, m: int) -> int {
    if b == 83 {
        167
    } else {
        b * m
    }
}

/// The idiom for a base size: the marketing slot, the iPhone sizes,
/// the iPad sizes, or the universal fallback.
pub open spec fn spec_ios_idiom(b: int) -> Seq<char> {
    if b == 1024 {
        "ios-marketing"@
    } else if b == 20 || b == 29 || b == 40 || b == 60 {
        "iphone"@
    } else if b == 76 || b == 83 {
        "ipad"@
    } else {
        "universal"@
    }
}

/// The role for a base size.
pub open spec fn spec_ios_role(b: int) -> Option<Seq<char>> {
    if b == 20 {
        Some("notificationCenter"@)
    } else if b == 29 {
        Some("companionSettings"@)
    } else if b == 40 {
        Some("spotlight"@)
    } else if b == 60 || b == 76 || b == 83 {
        Some("appLauncher"@)
    } else {
        None
    }
}

/// The nominal size string for a base size: `NxN`, except the iPad-Pro
/// slot, whose nominal size is the literal `83.5x83.5` while its
/// filename keeps the integer 83.
pub open spec fn spec_ios_size_str(b: int) -> Seq<char> {
    if b == 83 {
        "83.5x83.5"@
    } else {
        spec_dec(b) + "x"@ + spec_dec(b)
    }
}

/// The scale string for a multiplier: `Mx`.
pub open spec fn spec_ios_scale_str(m: int) -> Seq<char> {
    spec_dec(m) + "x"@
}

/// The file name for a slot: the marketing icon drops the scale
/// suffix.
pub open spec fn spec_ios_filename(b: int, m: int) -> Seq<char> {
    if b == 1024 {
        "AppIcon-1024x1024.png"@
    } else {
        "AppIcon-"@ + spec_dec(b) + "x"@ + spec_dec(b) + "@"@ + spec_dec(m) + "x.png"@
    }
}

/// Determine the device idiom for an icon slot from its base point
/// size; the multiplier does not influence it.
pub fn determine_ios_idiom(base_size: u32, multiplier: u32) -> (r: String)
    ensures
        r@ == spec_ios_idiom(base_size as int),
{
    let _ = multiplier;
    if base_size == 1024 {
        String::from_str("ios-marketing")
    } else if base_size == 20 || base_size == 29 || base_size == 40 || base_size == 60 {
        String::from_str("iphone")
    } else if base_size == 76 || base_size == 83 {
        String::from_str("ipad")
    } else {
        String::from_str("universal")
    }
}

/// Determine the catalog role for an icon slot from its base point
/// size.
pub fn determine_ios_role(base_size: u32) -> (r: Option<String>)
    ensures
        r is Some <==> spec_ios_role(base_size as int) is Some,
        r matches Some(s) ==> (spec_ios_role(base_size as int) matches Some(t) && s@ == t),
{
    if base_size == 20 {
        Some(String::from_str("notificationCenter"))
    } else if base_size == 29 {
        Some(String::from_str("companionSettings"))
    } else if base_size == 40 {
        Some(String::from_str("spotlight"))
    } else if base_size == 60 || base_size == 76 || base_size == 83 {
        Some(String::from_str("appLauncher"))
    } else {
        None
    }
}

/// Determine the watch subtype for an icon slot; the ladder generated
/// here carries no watch-specific variants.
pub fn determine_watch_subtype(base_size: u32, multiplier: u32) -> (r: Option<String>)
    ensures
        r is None,
{
    let _ = base_size;
    let _ = multiplier;
    None
}

/// One catalog record is correctly derived from its slot.
pub open spec fn spec_ios_record_ok(e: ImageEntry, i: int) -> bool {
    let (b, m) = spec_ios_slot(i);
    &&& e.filename matches Some(f) && f@ == spec_ios_filename(b as int, m as int)
    &&& e.idiom matches Some(s) && s@ == spec_ios_idiom(b as int)
    &&& e.scale matches Some(s) && s@ == spec_ios_scale_str(m as int)
    &&& e.size matches Some(s) && s@ == spec_ios_size_str(b as int)
    &&& e.expected_size matches Some(s) && s@ == spec_dec(spec_ios_pixel(b as int, m as int))
    &&& (e.role is Some <==> spec_ios_role(b as int) is Some)
    &&& (e.role matches Some(s) ==> (spec_ios_role(b as int) matches Some(t) && s@ == t))
    &&& e.subtype is None
    &&& e.folder is None
}

/// The iOS catalog document: seventeen records, one per slot, under
/// format version 1.
pub open spec fn spec_ios_manifest_ok(cf: ContentsFile) -> bool {
    &&& cf.images@.len() == 17
    &&& forall|i: int| 0 <= i < 17 ==> spec_ios_record_ok(#[trigger] cf.images@[i], i)
    &&& cf.info.version == 1
    &&& cf.info.author@ == "icon-generator"@
    &&& cf.properties is None
}

/// The pixels written for a slot: the source resampled to the slot's
/// pixel edge, flattened onto the configured background colour.
pub open spec fn spec_ios_pixels(source: Raster, bg: Rgb, i: int) -> Seq<Rgba> {
    let (b, m) = spec_ios_slot(i);
    let px = spec_ios_pixel(b as int, m as int);
    spec_bg_composite_seq(spec_resized(&source, px, px), bg.r, bg.g, bg.b)
}

/// One produced PNG of the iOS set matches its slot.
pub open spec fn spec_ios_file_ok(
    f: OutputFile,
    deg: int,
    source: Raster,
    bg: Rgb,
    dev_mode: bool,
    bug: Seq<char>,
    i: int,
) -> bool {
    let (b, m) = spec_ios_slot(i);
    let px = spec_ios_pixel(b as int, m as int);
    &&& f.path@ == "ios/"@ + spec_ios_filename(b as int, m as int)
    &&& 0 <= deg < 360
    &&& f.bytes@ == spec_saved_png(spec_ios_pixels(source, bg, i), px, px, dev_mode, bug, deg, false)
}

/// The whole iOS plan: the seventeen slot PNGs in order, then the
/// catalog manifest, all derived from the source, the configured
/// background colour and the badge settings.
pub open spec fn spec_ios_plan_ok(
    files: Seq<OutputFile>,
    degs: Seq<int>,
    cf: ContentsFile,
    source: Raster,
    color: Seq<char>,
    dev_mode: bool,
    bug: Seq<char>,
) -> bool {
    &&& files.len() == 18
    &&& degs.len() == 17
    &&& forall|k: int|
        0 <= k < 17 ==> #[trigger] spec_ios_file_ok(
            files[k],
            degs[k],
            source,
            spec_bg_color(color),
            dev_mode,
            bug,
            k,
        )
    &&& files.last().path@ == "ios/Contents.json"@
    &&& spec_ios_manifest_ok(cf)
    &&& files.last().bytes@ == vstd::utf8::encode_utf8(
        crate::contents_json::spec_contents_json(cf),
    )
}

/// Build one catalog record for a slot.
fn ios_record_at(i: usize) -> (e: ImageEntry)
    requires
        i < 17,
    ensures
        spec_ios_record_ok(e, i as int),
{
    let (b, m) = ios_slot_at(i);
    let px: u32 = if b == 83 {
        167
    } else {
        b * m
    };
    let filename = ios_filename_at(b, m);
    let idiom = determine_ios_idiom(b, m);
    let size_str = if b == 83 {
        String::from_str("83.5x83.5")
    } else {
        let mut s = String::new();
        push_dec(&mut s, b);
        s.append("x");
        push_dec(&mut s, b);
        proof {
            assert(s@ =~= spec_dec(b as int) + "x"@ + spec_dec(b as int));
        }
        s
    };
    let mut scale = String::new();
    push_dec(&mut scale, m);
    scale.append("x");
    proof {
        assert(scale@ =~= spec_dec(m as int) + "x"@);
    }
    let role = determine_ios_role(b);
    let mut e = ImageEntry::new_app_icon(filename, idiom, size_str, scale, role);
    let mut expected = String::new();
    push_dec(&mut expected, px);
    e.expected_size = Some(expected);
    let e = match determine_watch_subtype(b, m) {
        Some(subtype) => e.with_subtype(subtype),
        None => e,
    };
    e
}

/// Build the file name for a slot.
fn ios_filename_at(b: u32, m: u32) -> (s: String)
    ensures
        s@ == spec_ios_filename(b as int, m as int),
{
    if b == 1024 {
        String::from_str("AppIcon-1024x1024.png")
    } else {
        let mut s = String::from_str("AppIcon-");
        push_dec(&mut s, b);
        s.append("x");
        push_dec(&mut s, b);
        s.append("@");
        push_dec(&mut s, m);
        s.append("x.png");
        proof {
            assert(s@ =~= "AppIcon-"@ + spec_dec(b as int) + "x"@ + spec_dec(b as int) + "@"@
                + spec_dec(m as int) + "x.png"@);
        }
        s
    }
}

/// The iOS recipe: every slot of the ladder resampled, flattened onto
/// the configured background colour (icons must not carry
/// transparency), badged when badge mode is on, written under `ios/`,
/// followed by the catalog manifest `ios/Contents.json` with exactly
/// one record per produced file.
pub fn generate_ios_icons(
    source: &Raster,
    out: &mut Vec<OutputFile>,
    color: &str,
    dev_mode: bool,
    dev_bug: &str,
) -> (r: Result<(), IconError>)
    requires
        source.wf(),
        1 <= source.width,
        1 <= source.height,
    ensures
        r is Ok ==> final(out)@.len() == old(out)@.len() + 18 && (exists|
            degs: Seq<int>,
            cf: ContentsFile,
        |
            #[trigger] spec_ios_plan_ok(
                final(out)@.skip(old(out)@.len() as int),
                degs,
                cf,
                *source,
                color@,
                dev_mode,
                dev_bug@,
            )),
        r is Ok ==> forall|j: int|
            0 <= j < old(out)@.len() ==> final(out)@[j] == old(out)@[j],
        r is Err ==> final(out)@ == old(out)@,
        r is Err ==> !(r->Err_0 is NonSquareSource),
        r is Ok <==> spec_badge_ok(dev_mode, dev_bug@),
{
    let bg: Rgb = parse_background_color(color);
    let ghost base = out@.len();
    let mut produced: Vec<OutputFile> = Vec::new();
    let ghost mut degs: Seq<int> = Seq::empty();
    let mut cf = ContentsFile::new(String::from_str("icon-generator"));
    let mut i: usize = 0;
    while i < 17
        invariant
            i <= 17,
            source.wf(),
            1 <= source.width,
            1 <= source.height,
            bg == spec_bg_color(color@),
            produced@.len() == i,
            degs.len() == i,
            i > 0 ==> spec_badge_ok(dev_mode, dev_bug@),
            forall|k: int|
                0 <= k < i ==> #[trigger] spec_ios_file_ok(
                    produced@[k],
                    degs[k],
                    *source,
                    spec_bg_color(color@),
                    dev_mode,
                    dev_bug@,
                    k,
                ),
            cf.images@.len() == i,
            forall|k: int| 0 <= k < i ==> spec_ios_record_ok(#[trigger] cf.images@[k], k),
            cf.info.version == 1,
            cf.info.author@ == "icon-generator"@,
            cf.properties is None,
        decreases 17 - i,
    {
        let ghost produced0 = produced@;
        let ghost degs0 = degs;
        let (b, m) = ios_slot_at(i);
        let px: u32 = if b == 83 {
            167
        } else {
            b * m
        };
        let resized = resize(source, px);
        let flattened = composite_background(&resized, bg.r, bg.g, bg.b);
        let data = match render_png(&flattened, dev_mode, dev_bug, false) {
            Ok(d) => d,
            Err(e) => {
                return Err(e);
            },
        };
        let mut path = String::from_str("ios/");
        let filename = ios_filename_at(b, m);
        path.append(filename.as_str());
        let ghost gdeg = choose|deg: int|
            0 <= deg < 360 && data@ == spec_saved_png(
                flattened.pixels@,
                flattened.width as int,
                flattened.height as int,
                dev_mode,
                dev_bug@,
                deg,
                false,
            );
        proof {
            degs = degs.push(gdeg);
        }
        produced.push(OutputFile { path, bytes: data });
        proof {
            assert(flattened.pixels@ == spec_ios_pixels(*source, bg, i as int));
            assert forall|k: int| 0 <= k < i + 1 implies #[trigger] spec_ios_file_ok(
                produced@[k],
                degs[k],
                *source,
                spec_bg_color(color@),
                dev_mode,
                dev_bug@,
                k,
            ) by {
                if k < i {
                    assert(spec_ios_file_ok(
                        produced0[k],
                        degs0[k],
                        *source,
                        spec_bg_color(color@),
                        dev_mode,
                        dev_bug@,
                        k,
                    ));
                    assert(produced@[k] == produced0[k]);
                    assert(degs[k] == degs0[k]);
                } else {
                    assert(spec_ios_file_ok(
                        produced@[k],
                        gdeg,
                        *source,
                        spec_bg_color(color@),
                        dev_mode,
                        dev_bug@,
                        k,
                    ));
                }
            }
        }
        let record = ios_record_at(i);
        cf.add_image(record);
        i = i + 1;
    }
    let json = cf.to_json();
    let jbytes = vstd::string::StrSliceExecFns::as_bytes_vec(json.as_str());
    let ghost gcf = cf;
    // Hand the produced files over in slot order, then the manifest.
    let n = produced.len();
    let ghost gproduced = produced@;
    let mut t: usize = 0;
    let mut rest = produced;
    while t < n
        invariant
            t <= n,
            n == gproduced.len(),
            rest@ == gproduced.skip(t as int),
            out@ == old(out)@ + gproduced.take(t as int),
        decreases n - t,
    {
        let f = rest.remove(0);
        proof {
            assert(f == gproduced[t as int]);
        }
        out.push(f);
        proof {
            assert(rest@ =~= gproduced.skip(t + 1int));
            assert(out@ =~= old(out)@ + gproduced.take(t + 1int));
        }
        t = t + 1;
    }
    proof {
        assert(gproduced.take(n as int) =~= gproduced);
    }
    out.push(OutputFile { path: String::from_str("ios/Contents.json"), bytes: jbytes });
    proof {
        assert(spec_ios_manifest_ok(gcf));
        let tail = out@.skip(base as int);
        assert(tail.len() == 18);
        assert forall|k: int| 0 <= k < 17 implies #[trigger] spec_ios_file_ok(
            tail[k],
            degs[k],
            *source,
            spec_bg_color(color@),
            dev_mode,
            dev_bug@,
            k,
        ) by {
            assert(tail[k] == gproduced[k]);
            assert(spec_ios_file_ok(
                gproduced[k],
                degs[k],
                *source,
                spec_bg_color(color@),
                dev_mode,
                dev_bug@,
                k,
            ));
        }
        assert(tail.last().path@ == "ios/Contents.json"@);
        assert(spec_ios_plan_ok(tail, degs, gcf, *source, color@, dev_mode, dev_bug@));
    }
    Ok(())
}

/// File `j` of the produced set carries the name that catalog record
/// `e` references, inside the catalog's directory.
pub open spec fn spec_file_for_record(files: Seq<OutputFile>, j: int, e: ImageEntry) -> bool {
    e.filename matches Some(f) && files[j].path@ == "ios/"@ + f@
}

/// Some produced file carries the name that catalog record `e`
/// references, inside the catalog's directory.
pub open spec fn spec_record_has_file(files: Seq<OutputFile>, e: ImageEntry) -> bool {
    exists|j: int| 0 <= j < files.len() && #[trigger] spec_file_for_record(files, j, e)
}

/// Manifest round trip: every file name referenced by a record of the
/// produced catalog exists among the produced files, in the catalog's
/// own directory.
pub proof fn lemma_ios_manifest_round_trip(
    files: Seq<OutputFile>,
    degs: Seq<int>,
    cf: ContentsFile,
    source: Raster,
    bg: Rgb,
    dev_mode: bool,
    bug: Seq<char>,
)
    requires
        files.len() == 17,
        degs.len() == 17,
        forall|k: int|
            0 <= k < 17 ==> #[trigger] spec_ios_file_ok(
                files[k],
                degs[k],
                source,
                bg,
                dev_mode,
                bug,
                k,
            ),
        spec_ios_manifest_ok(cf),
    ensures
        forall|k: int|
            0 <= k < cf.images@.len() ==> spec_record_has_file(files, #[trigger] cf.images@[k]),
{
    assert forall|k: int| 0 <= k < cf.images@.len() implies spec_record_has_file(
        files,
        #[trigger] cf.images@[k],
    ) by {
        assert(spec_ios_record_ok(cf.images@[k], k));
        assert(spec_ios_file_ok(files[k], degs[k], source, bg, dev_mode, bug, k));
        assert(0 <= k < files.len() && spec_file_for_record(files, k, cf.images@[k]));
    }
}

/// Catalog completeness: the produced catalog holds exactly seventeen
/// records — the marketing icon included — and no two of them share
/// the (idiom, size, scale) triple.
pub proof fn lemma_ios_manifest_complete(cf: ContentsFile)
    requires
        spec_ios_manifest_ok(cf),
    ensures
        cf.images@.len() == 17,
        forall|i: int, j: int|
            0 <= i < j < 17 ==> !spec_ios_same_key(#[trigger] cf.images@[i], #[trigger] cf.images@[j]),
{
    assert forall|i: int, j: int|
        0 <= i < j < 17 implies !spec_ios_same_key(cf.images@[i], cf.images@[j]) by {
        assert(spec_ios_record_ok(cf.images@[i], i));
        assert(spec_ios_record_ok(cf.images@[j], j));
        lemma_ios_keys_distinct(i, j);
    }
}

/// Whether two catalog records agree on idiom, nominal size and scale.
pub open spec fn spec_ios_same_key(a: ImageEntry, b: ImageEntry) -> bool {
    &&& a.idiom matches Some(ai) && b.idiom matches Some(bi) && ai@ == bi@
    &&& a.size matches Some(asz) && b.size matches Some(bsz) && asz@ == bsz@
    &&& a.scale matches Some(asc) && b.scale matches Some(bsc) && asc@ == bsc@
}

/// Distinct slots yield distinct (idiom, size, scale) triples.
#[verifier::rlimit(100)]
proof fn lemma_ios_keys_distinct(i: int, j: int)
    requires
        0 <= i < j < 17,
    ensures
        spec_ios_idiom(spec_ios_slot(i).0 as int) != spec_ios_idiom(spec_ios_slot(j).0 as int)
            || spec_ios_size_str(spec_ios_slot(i).0 as int) != spec_ios_size_str(
            spec_ios_slot(j).0 as int,
        ) || spec_ios_scale_str(spec_ios_slot(i).1 as int) != spec_ios_scale_str(
            spec_ios_slot(j).1 as int,
        ),
{
    reveal_strlit("iphone");
    reveal_strlit("ipad");
    reveal_strlit("ios-marketing");
    reveal_strlit("universal");
    reveal_strlit("83.5x83.5");
    reveal_strlit("x");
    let b1 = spec_ios_slot(i).0 as int;
    let m1 = spec_ios_slot(i).1 as int;
    let b2 = spec_ios_slot(j).0 as int;
    let m2 = spec_ios_slot(j).1 as int;
    if b1 == b2 {
        assert(m1 != m2);
        lemma_scale_strs_distinct(m1, m2);
    } else {
        if spec_ios_idiom(b1) == spec_ios_idiom(b2) {
            lemma_size_strs_distinct(b1, b2);
        }
    }
}

/// Distinct multipliers of the ladder yield distinct scale strings.
proof fn lemma_scale_strs_distinct(m1: int, m2: int)
    requires
        1 <= m1 <= 3,
        1 <= m2 <= 3,
        m1 != m2,
    ensures
        spec_ios_scale_str(m1) != spec_ios_scale_str(m2),
{
    assert(spec_dec(m1).len() == 1);
    assert(spec_dec(m2).len() == 1);
    assert(spec_ios_scale_str(m1)[0] == crate::textfmt::spec_digit_char(m1));
    assert(spec_ios_scale_str(m2)[0] == crate::textfmt::spec_digit_char(m2));
}

/// Distinct base sizes of the ladder yield distinct nominal size
/// strings.
proof fn lemma_size_strs_distinct(b1: int, b2: int)
    requires
        b1 == 20 || b1 == 29 || b1 == 40 || b1 == 60 || b1 == 76 || b1 == 83 || b1 == 1024,
        b2 == 20 || b2 == 29 || b2 == 40 || b2 == 60 || b2 == 76 || b2 == 83 || b2 == 1024,
        b1 != b2,
    ensures
        spec_ios_size_str(b1) != spec_ios_size_str(b2),
{
    reveal_strlit("83.5x83.5");
    lemma_size_str_shape(b1);
    lemma_size_str_shape(b2);
}

/// The concrete shape of each nominal size string of the ladder.
proof fn lemma_size_str_shape(b: int)
    requires
        b == 20 || b == 29 || b == 40 || b == 60 || b == 76 || b == 83 || b == 1024,
    ensures
        b == 20 ==> spec_ios_size_str(b) == seq!['2', '0', 'x', '2', '0'],
        b == 29 ==> spec_ios_size_str(b) == seq!['2', '9', 'x', '2', '9'],
        b == 40 ==> spec_ios_size_str(b) == seq!['4', '0', 'x', '4', '0'],
        b == 60 ==> spec_ios_size_str(b) == seq!['6', '0', 'x', '6', '0'],
        b == 76 ==> spec_ios_size_str(b) == seq!['7', '6', 'x', '7', '6'],
        b == 83 ==> spec_ios_size_str(b) == seq!['8', '3', '.', '5', 'x', '8', '3', '.', '5'],
        b == 1024 ==> spec_ios_size_str(b) == seq!['1', '0', '2', '4', 'x', '1', '0', '2', '4'],
{
    reveal_strlit("x");
    reveal_strlit("83.5x83.5");
    if b == 83 {
        assert(spec_ios_size_str(b) =~= seq!['8', '3', '.', '5', 'x', '8', '3', '.', '5']);
    } else if b == 1024 {
        assert(spec_dec(1024) =~= seq!['1', '0', '2', '4']) by {
            reveal_with_fuel(spec_dec, 5);
        }
        assert(spec_ios_size_str(b) =~= seq!['1', '0', '2', '4', 'x', '1', '0', '2', '4']);
    } else {
        assert(spec_dec(b) =~= seq![
            crate::textfmt::spec_digit_char(b / 10),
            crate::textfmt::spec_digit_char(b % 10),
        ]) by {
            reveal_with_fuel(spec_dec, 3);
        }
        assert(spec_ios_size_str(b) =~= spec_dec(b) + "x"@ + spec_dec(b));
    }
}

} // verus!
