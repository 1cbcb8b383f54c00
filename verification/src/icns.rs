//! The macOS `.icns` icon family: the fixed name/size/type-code table,
//! the typed-resource container layout, and the macOS recipe with its
//! catalog manifest.

use vstd::prelude::*;
use vstd::string::StringExecFns;

use crate::contents_json::{ContentsFile, ImageEntry};
use crate::error::IconError;
use crate::plan::{append_all, spec_badge_ok, spec_degs_ok, spec_saved_png, OutputFile};
use crate::raster::Raster;
use crate::resample::{resize, spec_resized};
use crate::textfmt::str_eq;

verus! {

/// One slot of the family: nominal name, pixel size, four-character
/// type code.
pub struct IcnsEntry {
    pub name: &'static str,
    pub size: u32,
    pub ostype: &'static str,
}

/// The nominal name of family slot `i`.
pub open spec fn spec_icns_name(i: int) -> Seq<char> {
    if i == 0 {
        "16x16"@
    } else if i == 1 {
        "16x16@2x"@
    } else if i == 2 {
        "32x32"@
    } else if i == 3 {
        "32x32@2x"@
    } else if i == 4 {
        "128x128"@
    } else if i == 5 {
        "128x128@2x"@
    } else if i == 6 {
        "256x256"@
    } else if i == 7 {
        "256x256@2x"@
    } else if i == 8 {
        "512x512"@
    } else {
        "512x512@2x"@
    }
}

/// The pixel size of family slot `i`.
pub open spec fn spec_icns_size(i: int) -> u32 {
    if i == 0 {
        16
    } else if i == 1 {
        32
    } else if i == 2 {
        32
    } else if i == 3 {
        64
    } else if i == 4 {
        128
    } else if i == 5 {
        256
    } else if i == 6 {
        256
    } else if i == 7 {
        512
    } else if i == 8 {
        512
    } else {
        1024
    }
}

/// The four-character type code of family slot `i`.
pub open spec fn spec_icns_ostype(i: int) -> Seq<char> {
    if i == 0 {
        "is32"@
    } else if i == 1 {
        "ic11"@
    } else if i == 2 {
        "il32"@
    } else if i == 3 {
        "ic12"@
    } else if i == 4 {
        "ic07"@
    } else if i == 5 {
        "ic13"@
    } else if i == 6 {
        "ic08"@
    } else if i == 7 {
        "ic14"@
    } else if i == 8 {
        "ic09"@
    } else {
        "ic10"@
    }
}

/// The family slot at index `i`.
pub fn icns_entry_at(i: usize) -> (e: IcnsEntry)
    requires
        i < 10,
    ensures
        e.name@ == spec_icns_name(i as int),
        e.size == spec_icns_size(i as int),
        e.ostype@ == spec_icns_ostype(i as int),
{
    if i == 0 {
        IcnsEntry { name: "16x16", size: 16, ostype: "is32" }
    } else if i == 1 {
        IcnsEntry { name: "16x16@2x", size: 32, ostype: "ic11" }
    } else if i == 2 {
        IcnsEntry { name: "32x32", size: 32, ostype: "il32" }
    } else if i == 3 {
        IcnsEntry { name: "32x32@2x", size: 64, ostype: "ic12" }
    } else if i == 4 {
        IcnsEntry { name: "128x128", size: 128, ostype: "ic07" }
    } else if i == 5 {
        IcnsEntry { name: "128x128@2x", size: 256, ostype: "ic13" }
    } else if i == 6 {
        IcnsEntry { name: "256x256", size: 256, ostype: "ic08" }
    } else if i == 7 {
        IcnsEntry { name: "256x256@2x", size: 512, ostype: "ic14" }
    } else if i == 8 {
        IcnsEntry { name: "512x512", size: 512, ostype: "ic09" }
    } else {
        IcnsEntry { name: "512x512@2x", size: 1024, ostype: "ic10" }
    }
}

/// Whether a type-code string is one of the family's ten supported
/// codes.
pub open spec fn spec_ostype_supported(s: Seq<char>) -> bool {
    exists|i: int| 0 <= i < 10 && s == spec_icns_ostype(i)
}

/// Check a type-code string against the supported set.
pub fn ostype_supported(s: &str) -> (r: bool)
    ensures
        r == spec_ostype_supported(s@),
{
    let mut i: usize = 0;
    while i < 10
        invariant
            i <= 10,
            forall|j: int| 0 <= j < i ==> s@ != spec_icns_ostype(j),
        decreases 10 - i,
    {
        let e = icns_entry_at(i);
        if str_eq(s, e.ostype) {
            proof {
                assert(s@ == spec_icns_ostype(i as int));
            }
            return true;
        }
        i = i + 1;
    }
    false
}

/// The ASCII bytes of a four-character type code.
pub open spec fn spec_ostype_bytes(s: Seq<char>) -> Seq<u8> {
    Seq::new(s.len(), |i: int| s[i] as u8)
}

/// Four big-endian bytes of a value below 2^32.
pub open spec fn spec_be32(v: int) -> Seq<u8> {
    seq![
        ((v / 16777216) % 256) as u8,
        ((v / 65536) % 256) as u8,
        ((v / 256) % 256) as u8,
        (v % 256) as u8,
    ]
}

/// One element of the family: the type code, the element length
/// (payload plus its own eight header bytes) and the payload.
pub open spec fn spec_icns_element(ostype: Seq<char>, data: Seq<u8>) -> Seq<u8> {
    spec_ostype_bytes(ostype) + spec_be32(data.len() as int + 8) + data
}

/// One packed element: its type code and PNG payload.
pub struct IcnsElement {
    pub ostype: &'static str,
    pub data: Vec<u8>,
}

/// The first `k` elements of the family body, concatenated.
pub open spec fn spec_icns_body(elems: Seq<IcnsElement>, k: int) -> Seq<u8>
    decreases k,
{
    if k <= 0 {
        Seq::empty()
    } else {
        spec_icns_body(elems, k - 1) + spec_icns_element(
            elems[k - 1].ostype@,
            elems[k - 1].data@,
        )
    }
}

/// The complete family file: the magic, the total length, then the
/// typed elements.
pub open spec fn spec_icns(elems: Seq<IcnsElement>) -> Seq<u8> {
    let body = spec_icns_body(elems, elems.len() as int);
    "icns"@.map_values(|c: char| c as u8) + spec_be32(body.len() as int + 8) + body
}

/// Append four big-endian bytes.
fn push_be32(out: &mut Vec<u8>, v: u32)
    ensures
        final(out)@ == old(out)@ + spec_be32(v as int),
{
    out.push(((v / 16777216) % 256) as u8);
    out.push(((v / 65536) % 256) as u8);
    out.push(((v / 256) % 256) as u8);
    out.push((v % 256) as u8);
    proof {
        assert(final(out)@ =~= old(out)@ + spec_be32(v as int));
    }
}

/// Every type code in the table is four ASCII characters.
proof fn lemma_icns_ostypes_wf(i: int)
    requires
        0 <= i < 10,
    ensures
        spec_icns_ostype(i).len() == 4,
        forall|j: int| 0 <= j < spec_icns_ostype(i).len() ==> (spec_icns_ostype(i)[j] as u32) < 128,
{
    reveal_strlit("is32");
    reveal_strlit("ic11");
    reveal_strlit("il32");
    reveal_strlit("ic12");
    reveal_strlit("ic07");
    reveal_strlit("ic13");
    reveal_strlit("ic08");
    reveal_strlit("ic14");
    reveal_strlit("ic09");
    reveal_strlit("ic10");
}

/// The body grows by the element's length at each slot.
proof fn lemma_icns_body_len_monotonic(elems: Seq<IcnsElement>, i: int, j: int)
    requires
        0 <= i <= j,
    ensures
        spec_icns_body(elems, i).len() <= spec_icns_body(elems, j).len(),
    decreases j - i,
{
    if i < j {
        lemma_icns_body_len_monotonic(elems, i, j - 1);
    }
}

/// Pack typed elements into one icon family file. Succeeds exactly
/// when the body fits the container's 32-bit length field; any failure
/// leaves no partial family behind.
pub fn build_icns(elems: &Vec<IcnsElement>) -> (r: Result<Vec<u8>, IconError>)
    requires
        forall|i: int|
            0 <= i < elems@.len() ==> (#[trigger] elems@[i].ostype@).len() == 4 && (forall|j: int|
                0 <= j < elems@[i].ostype@.len() ==> (elems@[i].ostype@[j] as u32) < 128),
    ensures
        r is Ok <==> spec_icns_body(elems@, elems@.len() as int).len() + 8 <= 0xFFFF_FFFF,
        r is Ok ==> (r->Ok_0)@ == spec_icns(elems@),
        r is Err ==> r->Err_0 == IconError::EncodeFailed,
{
    let n: usize = elems.len();
    // First pass: the total length must fit the 32-bit header field.
    let mut total: u64 = 8;
    let mut i: usize = 0;
    while i < n
        invariant
            i <= n,
            n == elems@.len(),
            forall|i2: int|
                0 <= i2 < elems@.len() ==> (#[trigger] elems@[i2].ostype@).len() == 4,
            total == spec_icns_body(elems@, i as int).len() + 8,
            total <= 0xFFFF_FFFF,
        decreases n - i,
    {
        let len: usize = elems[i].data.len();
        proof {
            assert(elems@[i as int].ostype@.len() == 4);
            assert(spec_icns_element(elems@[i as int].ostype@, elems@[i as int].data@).len() == 8
                + elems@[i as int].data@.len());
        }
        if (len as u64) > 0xFFFF_FFFF || (len as u64) + 8 > 0xFFFF_FFFF - total {
            proof {
                lemma_icns_body_len_monotonic(elems@, i as int + 1, n as int);
            }
            return Err(IconError::EncodeFailed);
        }
        total = total + 8 + (len as u64);
        i = i + 1;
    }
    // Second pass: magic, total length, then the typed elements.
    let mut out: Vec<u8> = Vec::new();
    out.push(105);
    out.push(99);
    out.push(110);
    out.push(115);
    proof {
        reveal_strlit("icns");
        assert(out@ =~= "icns"@.map_values(|c: char| c as u8));
    }
    push_be32(&mut out, total as u32);
    let ghost header = out@;
    let mut k: usize = 0;
    while k < n
        invariant
            k <= n,
            n == elems@.len(),
            forall|i2: int|
                0 <= i2 < elems@.len() ==> (#[trigger] elems@[i2].ostype@).len() == 4 && (forall|
                j: int|
                    0 <= j < elems@[i2].ostype@.len() ==> (elems@[i2].ostype@[j] as u32) < 128),
            spec_icns_body(elems@, n as int).len() + 8 <= 0xFFFF_FFFF,
            header == "icns"@.map_values(|c: char| c as u8) + spec_be32(
                spec_icns_body(elems@, n as int).len() as int + 8,
            ),
            out@ == header + spec_icns_body(elems@, k as int),
        decreases n - k,
    {
        proof {
            lemma_icns_body_len_monotonic(elems@, k as int + 1, n as int);
        }
        let len: usize = elems[k].data.len();
        push_ostype(&mut out, elems[k].ostype);
        push_be32(&mut out, (len + 8) as u32);
        push_data(&mut out, &elems[k].data);
        proof {
            assert(out@ =~= header + spec_icns_body(elems@, k as int + 1));
        }
        k = k + 1;
    }
    proof {
        assert(out@ =~= spec_icns(elems@));
    }
    Ok(out)
}

/// Append a whole byte vector.
fn push_data(out: &mut Vec<u8>, data: &Vec<u8>)
    ensures
        final(out)@ == old(out)@ + data@,
{
    let n: usize = data.len();
    let mut i: usize = 0;
    while i < n
        invariant
            i <= n,
            n == data@.len(),
            out@ == old(out)@ + data@.subrange(0, i as int),
        decreases n - i,
    {
        out.push(data[i]);
        proof {
            assert(out@ =~= old(out)@ + data@.subrange(0, i + 1int));
        }
        i = i + 1;
    }
    proof {
        assert(data@.subrange(0, n as int) =~= data@);
    }
}

/// Whether a nominal family name carries the retina suffix.
pub open spec fn spec_has_2x(name: Seq<char>) -> bool {
    name.len() >= 3 && name.subrange(name.len() - 3, name.len() as int) == "@2x"@
}

/// The catalog scale string for a nominal family name.
pub open spec fn spec_macos_scale(name: Seq<char>) -> Seq<char> {
    if spec_has_2x(name) {
        "2x"@
    } else {
        "1x"@
    }
}

/// The nominal name with the retina suffix removed.
pub open spec fn spec_macos_base(name: Seq<char>) -> Seq<char> {
    if spec_has_2x(name) {
        name.subrange(0, name.len() - 3)
    } else {
        name
    }
}

/// Whether a nominal family name ends in the retina suffix.
fn has_2x_suffix(name: &str) -> (r: bool)
    ensures
        r == spec_has_2x(name@),
{
    proof {
        reveal_strlit("@2x");
    }
    let len = vstd::string::StrSliceExecFns::unicode_len(name);
    if len < 3 {
        return false;
    }
    let c0 = vstd::string::StrSliceExecFns::get_char(name, len - 3);
    let c1 = vstd::string::StrSliceExecFns::get_char(name, len - 2);
    let c2 = vstd::string::StrSliceExecFns::get_char(name, len - 1);
    let r = c0 == '@' && c1 == '2' && c2 == 'x';
    proof {
        let tail = name@.subrange(name@.len() - 3, name@.len() as int);
        assert(tail.len() == 3);
        assert(tail[0] == name@[name@.len() - 3]);
        assert(tail[1] == name@[name@.len() - 2]);
        assert(tail[2] == name@[name@.len() - 1]);
        if r {
            assert(tail =~= "@2x"@);
        } else {
            assert(tail != "@2x"@);
        }
    }
    r
}

/// The suffix-stripped nominal name.
fn strip_2x_suffix(name: &str) -> (r: String)
    ensures
        r@ == spec_macos_base(name@),
{
    if has_2x_suffix(name) {
        let len = vstd::string::StrSliceExecFns::unicode_len(name);
        let base = vstd::string::StrSliceExecFns::substring_char(name, 0, len - 3);
        base.to_owned()
    } else {
        name.to_owned()
    }
}

/// One catalog record of the macOS manifest is correctly derived from
/// its family slot: the filename is built from the slot's pixel size,
/// the idiom is always "mac", the scale follows the retina suffix, the
/// nominal size is the suffix-stripped name, and the folder is the
/// catalog's own directory.
pub open spec fn spec_macos_record_ok(e: ImageEntry, i: int) -> bool {
    &&& e.filename matches Some(f) && f@ == "icon_"@ + crate::textfmt::spec_dec(
        spec_icns_size(i) as int,
    ) + ".png"@
    &&& e.idiom matches Some(s) && s@ == "mac"@
    &&& e.scale matches Some(s) && s@ == spec_macos_scale(spec_icns_name(i))
    &&& e.size matches Some(s) && s@ == spec_macos_base(spec_icns_name(i))
    &&& e.folder matches Some(s) && s@ == "."@
    &&& e.expected_size is None
    &&& e.role is None
    &&& e.subtype is None
}

/// Build the catalog records for the macOS family: one per slot, idiom
/// "mac", scale taken from the retina suffix, the same directory as
/// the catalog file.
pub fn build_macos_contents_json(entries: &Vec<IcnsEntry>) -> (r: Result<Vec<ImageEntry>, IconError>)
    requires
        forall|i: int|
            0 <= i < entries@.len() ==> (#[trigger] entries@[i]).name@ == spec_icns_name(i)
                && entries@[i].size == spec_icns_size(i),
    ensures
        r is Ok,
        (r->Ok_0)@.len() == entries@.len(),
        forall|i: int|
            0 <= i < entries@.len() ==> spec_macos_record_ok(#[trigger] (r->Ok_0)@[i], i),
{
    let mut images: Vec<ImageEntry> = Vec::new();
    let n = entries.len();
    let mut i: usize = 0;
    while i < n
        invariant
            i <= n,
            n == entries@.len(),
            forall|j: int|
                0 <= j < entries@.len() ==> (#[trigger] entries@[j]).name@ == spec_icns_name(j)
                    && entries@[j].size == spec_icns_size(j),
            images@.len() == i,
            forall|j: int| 0 <= j < i ==> spec_macos_record_ok(#[trigger] images@[j], j),
        decreases n - i,
    {
        let e = &entries[i];
        let scale = if has_2x_suffix(e.name) {
            String::from_str("2x")
        } else {
            String::from_str("1x")
        };
        let base = strip_2x_suffix(e.name);
        let mut filename = String::from_str("icon_");
        crate::textfmt::push_dec(&mut filename, e.size);
        filename.append(".png");
        let mut entry = ImageEntry::new(filename, String::from_str("mac"), scale);
        entry.size = Some(base);
        let entry = entry.with_folder(String::from_str("."));
        proof {
            assert(spec_macos_record_ok(entry, i as int));
        }
        images.push(entry);
        i = i + 1;
    }
    Ok(images)
}

/// The relation between a built family, its elements, the badge angles
/// used, and the source: each element is the source resampled to its
/// slot's size, badged with its angle, PNG-encoded at best compression
/// and wrapped under the slot's type code.
pub open spec fn spec_icns_elem_ok(
    elems: Seq<IcnsElement>,
    degs: Seq<int>,
    source: Raster,
    dev_mode: bool,
    bug: Seq<char>,
    i: int,
) -> bool {
    &&& elems[i].ostype@ == spec_icns_ostype(i)
    &&& 0 <= degs[i] < 360
    &&& elems[i].data@ == spec_saved_png(
        spec_resized(&source, spec_icns_size(i) as int, spec_icns_size(i) as int),
        spec_icns_size(i) as int,
        spec_icns_size(i) as int,
        dev_mode,
        bug,
        degs[i],
        true,
    )
}

/// The whole family plan.
pub open spec fn spec_icns_plan_ok(
    bytes: Seq<u8>,
    elems: Seq<IcnsElement>,
    degs: Seq<int>,
    source: Raster,
    dev_mode: bool,
    bug: Seq<char>,
) -> bool {
    &&& bytes == spec_icns(elems)
    &&& elems.len() == 10
    &&& degs.len() == 10
    &&& forall|i: int|
        0 <= i < 10 ==> #[trigger] spec_icns_elem_ok(elems, degs, source, dev_mode, bug, i)
}

/// Total element bytes of the first `k` family slots the recipe would
/// pack for the given badge angles: each element carries eight header
/// bytes before its payload.
pub open spec fn spec_icns_data_len(
    source: Raster,
    dev_mode: bool,
    bug: Seq<char>,
    degs: Seq<int>,
    k: int,
) -> int
    decreases k,
{
    if k <= 0 {
        0
    } else {
        spec_icns_data_len(source, dev_mode, bug, degs, k - 1) + 8 + spec_saved_png(
            spec_resized(&source, spec_icns_size(k - 1) as int, spec_icns_size(k - 1) as int),
            spec_icns_size(k - 1) as int,
            spec_icns_size(k - 1) as int,
            dev_mode,
            bug,
            degs[k - 1],
            true,
        ).len() as int
    }
}

/// Whether the family the recipe would build for the given badge
/// angles fits its 32-bit length field.
pub open spec fn spec_icns_fits(
    source: Raster,
    dev_mode: bool,
    bug: Seq<char>,
    degs: Seq<int>,
) -> bool {
    8 + spec_icns_data_len(source, dev_mode, bug, degs, 10) <= 0xFFFF_FFFF
}

/// For elements that follow the recipe, the family body length is the
/// element bytes so far.
proof fn lemma_icns_body_len_as_sum(
    elems: Seq<IcnsElement>,
    degs: Seq<int>,
    source: Raster,
    dev_mode: bool,
    bug: Seq<char>,
    k: int,
)
    requires
        elems.len() == 10,
        degs.len() == 10,
        forall|i: int|
            0 <= i < 10 ==> #[trigger] spec_icns_elem_ok(elems, degs, source, dev_mode, bug, i),
        0 <= k <= 10,
    ensures
        spec_icns_body(elems, k).len() == spec_icns_data_len(source, dev_mode, bug, degs, k),
    decreases k,
{
    if k > 0 {
        lemma_icns_body_len_as_sum(elems, degs, source, dev_mode, bug, k - 1);
        assert(spec_icns_elem_ok(elems, degs, source, dev_mode, bug, k - 1));
        lemma_icns_ostypes_wf(k - 1);
    }
}

/// The distinct pixel edges of the family, smallest first: the flat
/// PNGs written beside the family carry one file per distinct edge.
pub open spec fn spec_macos_png_size(j: int) -> u32 {
    if j == 0 {
        16
    } else if j == 1 {
        32
    } else if j == 2 {
        64
    } else if j == 3 {
        128
    } else if j == 4 {
        256
    } else if j == 5 {
        512
    } else {
        1024
    }
}

/// The distinct pixel edge at index `j`.
fn macos_png_size_at(j: usize) -> (s: u32)
    requires
        j < 7,
    ensures
        s == spec_macos_png_size(j as int),
{
    if j == 0 {
        16
    } else if j == 1 {
        32
    } else if j == 2 {
        64
    } else if j == 3 {
        128
    } else if j == 4 {
        256
    } else if j == 5 {
        512
    } else {
        1024
    }
}

/// One of the flat PNGs written beside the family: `icon_<edge>.png`,
/// placed after the family file in the produced list.
pub open spec fn spec_macos_png_at(
    files: Seq<OutputFile>,
    pdegs: Seq<int>,
    source: Raster,
    dev_mode: bool,
    bug: Seq<char>,
    j: int,
) -> bool {
    let px = spec_macos_png_size(j) as int;
    &&& files[1 + j].path@ == "icon_"@ + crate::textfmt::spec_dec(px) + ".png"@
    &&& 0 <= pdegs[j] < 360
    &&& files[1 + j].bytes@ == spec_saved_png(
        spec_resized(&source, px, px),
        px,
        px,
        dev_mode,
        bug,
        pdegs[j],
        true,
    )
}

/// The macOS catalog document that accompanies the family.
pub open spec fn spec_macos_manifest_ok(cf: ContentsFile) -> bool {
    &&& cf.images@.len() == 10
    &&& forall|i: int| 0 <= i < 10 ==> spec_macos_record_ok(#[trigger] cf.images@[i], i)
    &&& cf.info.version == 1
    &&& cf.info.author@ == "icon-generator"@
    &&& cf.properties is None
}

/// The whole macOS plan: the family file, one flat PNG per distinct
/// family edge beside it, and the catalog manifest whose records
/// reference exactly those PNGs.
pub open spec fn spec_macos_plan_ok(
    files: Seq<OutputFile>,
    elems: Seq<IcnsElement>,
    edegs: Seq<int>,
    pdegs: Seq<int>,
    cf: ContentsFile,
    source: Raster,
    dev_mode: bool,
    bug: Seq<char>,
) -> bool {
    &&& files.len() == 9
    &&& files[0].path@ == "icon.icns"@
    &&& spec_icns_plan_ok(files[0].bytes@, elems, edegs, source, dev_mode, bug)
    &&& pdegs.len() == 7
    &&& forall|j: int|
        0 <= j < 7 ==> #[trigger] spec_macos_png_at(files, pdegs, source, dev_mode, bug, j)
    &&& files[8].path@ == "Contents.json"@
    &&& spec_macos_manifest_ok(cf)
    &&& files[8].bytes@ == vstd::utf8::encode_utf8(crate::contents_json::spec_contents_json(cf))
}

/// The macOS recipe: the source resampled to each of the family's ten
/// slots, badged when badge mode is on, PNG-encoded at best
/// compression, wrapped under the slot's type code into `icon.icns`;
/// one flat PNG per distinct family edge written beside the family so
/// that every manifest record references a produced file; then the
/// catalog manifest `Contents.json`. A type code outside the supported
/// set would abort the family.
pub fn generate_icns(source: &Raster, out: &mut Vec<OutputFile>, dev_mode: bool, dev_bug: &str) -> (r:
    Result<(), IconError>)
    requires
        source.wf(),
        1 <= source.width,
        1 <= source.height,
    ensures
        r is Ok ==> final(out)@.len() == old(out)@.len() + 9 && (exists|
            elems: Seq<IcnsElement>,
            edegs: Seq<int>,
            pdegs: Seq<int>,
            cf: ContentsFile,
        |
            #[trigger] spec_macos_plan_ok(
                final(out)@.skip(old(out)@.len() as int),
                elems,
                edegs,
                pdegs,
                cf,
                *source,
                dev_mode,
                dev_bug@,
            )),
        r is Ok ==> forall|j: int|
            0 <= j < old(out)@.len() ==> final(out)@[j] == old(out)@[j],
        r is Err ==> final(out)@ == old(out)@,
        r is Err ==> !(r->Err_0 is NonSquareSource),
        !spec_badge_ok(dev_mode, dev_bug@) ==> r is Err,
        r is Err ==> !spec_badge_ok(dev_mode, dev_bug@) || (r->Err_0 == IconError::EncodeFailed
            && (exists|degs: Seq<int>|
            spec_degs_ok(degs, 10) && !spec_icns_fits(*source, dev_mode, dev_bug@, degs))),
        (spec_badge_ok(dev_mode, dev_bug@) && (forall|degs: Seq<int>|
            spec_degs_ok(degs, 10) ==> #[trigger] spec_icns_fits(
                *source,
                dev_mode,
                dev_bug@,
                degs,
            ))) ==> r is Ok,
{
    let ghost base = out@.len();
    let mut elems: Vec<IcnsElement> = Vec::new();
    let ghost mut degs: Seq<int> = Seq::empty();
    let mut i: usize = 0;
    while i < 10
        invariant
            i <= 10,
            source.wf(),
            1 <= source.width,
            1 <= source.height,
            elems@.len() == i,
            degs.len() == i,
            i > 0 ==> spec_badge_ok(dev_mode, dev_bug@),
            forall|j: int|
                0 <= j < i ==> #[trigger] spec_icns_elem_ok(
                    elems@,
                    degs,
                    *source,
                    dev_mode,
                    dev_bug@,
                    j,
                ),
        decreases 10 - i,
    {
        let ghost elems0 = elems@;
        let ghost degs0 = degs;
        let entry = icns_entry_at(i);
        proof {
            // The built-in table only carries supported codes.
            assert(entry.ostype@ == spec_icns_ostype(i as int));
            assert(spec_ostype_supported(entry.ostype@));
        }
        if !ostype_supported(entry.ostype) {
            return Err(IconError::UnknownOsType { code: entry.ostype.to_owned() });
        }
        let resized = resize(source, entry.size);
        let data = match crate::plan::render_png(&resized, dev_mode, dev_bug, true) {
            Ok(d) => d,
            Err(e) => {
                return Err(e);
            },
        };
        proof {
            let deg = choose|deg: int|
                0 <= deg < 360 && data@ == spec_saved_png(
                    resized.pixels@,
                    resized.width as int,
                    resized.height as int,
                    dev_mode,
                    dev_bug@,
                    deg,
                    true,
                );
            degs = degs.push(deg);
        }
        elems.push(IcnsElement { ostype: entry.ostype, data });
        proof {
            assert forall|j: int| 0 <= j < i + 1 implies #[trigger] spec_icns_elem_ok(
                elems@,
                degs,
                *source,
                dev_mode,
                dev_bug@,
                j,
            ) by {
                if j < i {
                    assert(spec_icns_elem_ok(elems0, degs0, *source, dev_mode, dev_bug@, j));
                    assert(elems@[j] == elems0[j]);
                    assert(degs[j] == degs0[j]);
                } else {
                    assert(elems@[j].ostype@ == spec_icns_ostype(j));
                    assert(0 <= degs[j] < 360);
                    assert(elems@[j].data@ == spec_saved_png(
                        spec_resized(source, spec_icns_size(j) as int, spec_icns_size(j) as int),
                        spec_icns_size(j) as int,
                        spec_icns_size(j) as int,
                        dev_mode,
                        dev_bug@,
                        degs[j],
                        true,
                    ));
                }
            }
        }
        i = i + 1;
    }
    proof {
        assert forall|i2: int| 0 <= i2 < elems@.len() implies (#[trigger] elems@[i2].ostype@).len()
            == 4 && (forall|j: int|
            0 <= j < elems@[i2].ostype@.len() ==> (elems@[i2].ostype@[j] as u32) < 128) by {
            assert(spec_icns_elem_ok(elems@, degs, *source, dev_mode, dev_bug@, i2));
            lemma_icns_ostypes_wf(i2);
        }
    }
    let bytes = match build_icns(&elems) {
        Ok(b) => b,
        Err(e) => {
            proof {
                lemma_icns_body_len_as_sum(elems@, degs, *source, dev_mode, dev_bug@, 10);
                assert forall|i2: int| 0 <= i2 < 10 implies 0 <= #[trigger] degs[i2] < 360 by {
                    assert(spec_icns_elem_ok(elems@, degs, *source, dev_mode, dev_bug@, i2));
                }
                assert(spec_degs_ok(degs, 10));
                assert(!spec_icns_fits(*source, dev_mode, dev_bug@, degs));
            }
            return Err(e);
        },
    };
    let ghost gelems = elems@;
    let mut produced: Vec<OutputFile> = Vec::new();
    produced.push(OutputFile { path: String::from_str("icon.icns"), bytes });
    // One flat PNG per distinct family edge, so that every manifest
    // record references a produced file.
    let ghost mut pdegs: Seq<int> = Seq::empty();
    let mut p: usize = 0;
    while p < 7
        invariant
            p <= 7,
            source.wf(),
            1 <= source.width,
            1 <= source.height,
            spec_badge_ok(dev_mode, dev_bug@),
            produced@.len() == 1 + p,
            pdegs.len() == p,
            produced@[0].path@ == "icon.icns"@,
            spec_icns_plan_ok(produced@[0].bytes@, gelems, degs, *source, dev_mode, dev_bug@),
            forall|k: int|
                0 <= k < p ==> #[trigger] spec_macos_png_at(
                    produced@,
                    pdegs,
                    *source,
                    dev_mode,
                    dev_bug@,
                    k,
                ),
        decreases 7 - p,
    {
        let ghost produced0 = produced@;
        let ghost pdegs0 = pdegs;
        let size = macos_png_size_at(p);
        let resized = resize(source, size);
        let data = match crate::plan::render_png(&resized, dev_mode, dev_bug, true) {
            Ok(d) => d,
            Err(e) => {
                return Err(e);
            },
        };
        let ghost gdeg = choose|deg: int|
            0 <= deg < 360 && data@ == spec_saved_png(
                resized.pixels@,
                resized.width as int,
                resized.height as int,
                dev_mode,
                dev_bug@,
                deg,
                true,
            );
        proof {
            pdegs = pdegs.push(gdeg);
        }
        let mut path = String::from_str("icon_");
        crate::textfmt::push_dec(&mut path, size);
        path.append(".png");
        proof {
            assert(path@ =~= "icon_"@ + crate::textfmt::spec_dec(size as int) + ".png"@);
        }
        produced.push(OutputFile { path, bytes: data });
        proof {
            assert(spec_macos_png_at(produced@, pdegs, *source, dev_mode, dev_bug@, p as int));
            assert forall|k: int| 0 <= k < p + 1 implies #[trigger] spec_macos_png_at(
                produced@,
                pdegs,
                *source,
                dev_mode,
                dev_bug@,
                k,
            ) by {
                if k < p {
                    assert(spec_macos_png_at(produced0, pdegs0, *source, dev_mode, dev_bug@, k));
                    assert(produced@[1 + k] == produced0[1 + k]);
                    assert(pdegs[k] == pdegs0[k]);
                }
            }
        }
        p = p + 1;
    }
    // The catalog manifest beside the family file.
    let mut entries: Vec<IcnsEntry> = Vec::new();
    let mut k: usize = 0;
    while k < 10
        invariant
            k <= 10,
            entries@.len() == k,
            forall|j: int|
                0 <= j < k ==> (#[trigger] entries@[j]).name@ == spec_icns_name(j) && entries@[
                    j].size == spec_icns_size(j),
        decreases 10 - k,
    {
        entries.push(icns_entry_at(k));
        k = k + 1;
    }
    let images = match build_macos_contents_json(&entries) {
        Ok(im) => im,
        Err(e) => {
            return Err(e);
        },
    };
    let mut cf = ContentsFile::new(String::from_str("icon-generator"));
    let nimg = images.len();
    let mut m: usize = 0;
    let mut images_iter = images;
    // Move the records into the catalog in order.
    let ghost gimages = images_iter@;
    while m < nimg
        invariant
            m <= nimg,
            nimg == gimages.len(),
            images_iter@ == gimages.skip(m as int),
            cf.images@ == gimages.take(m as int),
            cf.info.version == 1,
            cf.info.author@ == "icon-generator"@,
            cf.properties is None,
        decreases nimg - m,
    {
        let img = images_iter.remove(0);
        proof {
            assert(img == gimages[m as int]);
        }
        cf.add_image(img);
        proof {
            assert(cf.images@ =~= gimages.take(m + 1int));
            assert(images_iter@ =~= gimages.skip(m + 1int));
        }
        m = m + 1;
    }
    proof {
        assert(cf.images@ =~= gimages);
    }
    let json = cf.to_json();
    let jbytes = vstd::string::StrSliceExecFns::as_bytes_vec(json.as_str());
    let ghost gcf = cf;
    let ghost prefinal = produced@;
    produced.push(OutputFile { path: String::from_str("Contents.json"), bytes: jbytes });
    let ghost whole = produced@;
    append_all(out, produced);
    proof {
        assert(out@.skip(base as int) =~= whole);
        assert(spec_macos_manifest_ok(gcf));
        assert forall|j: int| 0 <= j < 7 implies #[trigger] spec_macos_png_at(
            whole,
            pdegs,
            *source,
            dev_mode,
            dev_bug@,
            j,
        ) by {
            assert(spec_macos_png_at(prefinal, pdegs, *source, dev_mode, dev_bug@, j));
            assert(whole[1 + j] == prefinal[1 + j]);
        }
        assert(spec_macos_plan_ok(
            whole,
            gelems,
            degs,
            pdegs,
            gcf,
            *source,
            dev_mode,
            dev_bug@,
        ));
    }
    Ok(())
}

/// Some produced file of the macOS set carries exactly the name that
/// catalog record `e` references.
pub open spec fn spec_macos_record_has_file(files: Seq<OutputFile>, e: ImageEntry) -> bool {
    exists|j: int|
        0 <= j < files.len() && (e.filename matches Some(f) && #[trigger] files[j].path@ == f@)
}

/// Manifest round trip for the macOS catalog: every file name its
/// records reference exists among the produced files, in the same
/// directory as the catalog.
pub proof fn lemma_macos_manifest_round_trip(
    files: Seq<OutputFile>,
    elems: Seq<IcnsElement>,
    edegs: Seq<int>,
    pdegs: Seq<int>,
    cf: ContentsFile,
    source: Raster,
    dev_mode: bool,
    bug: Seq<char>,
)
    requires
        spec_macos_plan_ok(files, elems, edegs, pdegs, cf, source, dev_mode, bug),
    ensures
        forall|k: int|
            0 <= k < cf.images@.len() ==> spec_macos_record_has_file(
                files,
                #[trigger] cf.images@[k],
            ),
{
    assert forall|k: int| 0 <= k < cf.images@.len() implies spec_macos_record_has_file(
        files,
        #[trigger] cf.images@[k],
    ) by {
        assert(spec_macos_record_ok(cf.images@[k], k));
        let j: int = if k == 0 {
            0
        } else if k == 1 || k == 2 {
            1
        } else if k == 3 {
            2
        } else if k == 4 {
            3
        } else if k == 5 || k == 6 {
            4
        } else if k == 7 || k == 8 {
            5
        } else {
            6
        };
        assert(spec_macos_png_size(j) == spec_icns_size(k));
        assert(spec_macos_png_at(files, pdegs, source, dev_mode, bug, j));
        assert(0 <= 1 + j < files.len() && (cf.images@[k].filename matches Some(f) && files[1
            + j].path@ == f@));
    }
}

/// Append the ASCII bytes of a four-character type code.
fn push_ostype(out: &mut Vec<u8>, s: &str)
    requires
        s@.len() == 4,
        forall|i: int| 0 <= i < s@.len() ==> (s@[i] as u32) < 128,
    ensures
        final(out)@ == old(out)@ + spec_ostype_bytes(s@),
{
    let mut i: usize = 0;
    let len = vstd::string::StrSliceExecFns::unicode_len(s);
    while i < len
        invariant
            i <= len,
            len == s@.len(),
            forall|j: int| 0 <= j < s@.len() ==> (s@[j] as u32) < 128,
            out@ == old(out)@ + spec_ostype_bytes(s@).subrange(0, i as int),
        decreases len - i,
    {
        let c = vstd::string::StrSliceExecFns::get_char(s, i);
        out.push(c as u8);
        proof {
            assert(out@ =~= old(out)@ + spec_ostype_bytes(s@).subrange(0, i + 1int));
        }
        i = i + 1;
    }
    proof {
        assert(spec_ostype_bytes(s@).subrange(0, s@.len() as int) =~= spec_ostype_bytes(s@));
    }
}

} // verus!
