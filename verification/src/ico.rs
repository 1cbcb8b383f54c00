//! The Windows `.ico` multi-frame container: directory layout, frame
//! placement, a size-ladder parser, and the Windows recipe.

use vstd::prelude::*;
use vstd::string::StringExecFns;

use crate::error::IconError;
use crate::plan::{spec_badge_ok, spec_degs_ok, spec_saved_png, OutputFile};
use crate::raster::Raster;
use crate::resample::{resize, spec_resized};

verus! {

/// The fixed frame ladder of the Windows container.
pub open spec fn spec_ico_ladder(i: int) -> u32 {
    if i == 0 {
        16
    } else if i == 1 {
        24
    } else if i == 2 {
        32
    } else if i == 3 {
        48
    } else if i == 4 {
        64
    } else {
        256
    }
}

/// Whether the rung at index `i` uses best compression: only the
/// largest conventional frame benefits from it.
pub open spec fn spec_ico_best(i: int) -> bool {
    spec_ico_ladder(i) == 256
}

/// One frame to be packed: its pixel size and its encoded PNG stream.
pub struct IcoFrame {
    pub size: u32,
    pub data: Vec<u8>,
}

/// Two little-endian bytes of a value below 2^16.
pub open spec fn spec_le16(v: int) -> Seq<u8> {
    seq![(v % 256) as u8, ((v / 256) % 256) as u8]
}

/// Four little-endian bytes of a value below 2^32.
pub open spec fn spec_le32(v: int) -> Seq<u8> {
    seq![
        (v % 256) as u8,
        ((v / 256) % 256) as u8,
        ((v / 65536) % 256) as u8,
        ((v / 16777216) % 256) as u8,
    ]
}

/// The directory byte that records a frame edge: 0 stands for 256.
pub open spec fn spec_ico_size_byte(s: int) -> u8 {
    if s == 256 {
        0
    } else {
        (s % 256) as u8
    }
}

/// The size a directory byte reports.
pub open spec fn spec_ico_byte_size(b: u8) -> u32 {
    if b == 0 {
        256
    } else {
        b as u32
    }
}

/// One 16-byte directory entry: square dimensions, no palette, 32 bits
/// per pixel, the frame's byte count and its offset in the file.
pub open spec fn spec_ico_entry(size: int, len: int, off: int) -> Seq<u8> {
    seq![
        spec_ico_size_byte(size),
        spec_ico_size_byte(size),
        0u8,
        0u8,
        0u8,
        0u8,
        32u8,
        0u8,
    ] + spec_le32(len) + spec_le32(off)
}

/// The file offset of frame `i`: the header and directory come first,
/// then the frames in order.
pub open spec fn spec_ico_offset(frames: Seq<IcoFrame>, i: int) -> int
    decreases i,
{
    if i <= 0 {
        6 + 16 * frames.len() as int
    } else {
        spec_ico_offset(frames, i - 1) + frames[i - 1].data@.len()
    }
}

/// The first `k` directory entries.
pub open spec fn spec_ico_dir(frames: Seq<IcoFrame>, k: int) -> Seq<u8>
    decreases k,
{
    if k <= 0 {
        Seq::empty()
    } else {
        spec_ico_dir(frames, k - 1) + spec_ico_entry(
            frames[k - 1].size as int,
            frames[k - 1].data@.len() as int,
            spec_ico_offset(frames, k - 1),
        )
    }
}

/// The first `k` frame payloads, concatenated.
pub open spec fn spec_ico_blobs(frames: Seq<IcoFrame>, k: int) -> Seq<u8>
    decreases k,
{
    if k <= 0 {
        Seq::empty()
    } else {
        spec_ico_blobs(frames, k - 1) + frames[k - 1].data@
    }
}

/// The complete container: reserved word, type 1, frame count, the
/// directory, then the payloads.
pub open spec fn spec_ico(frames: Seq<IcoFrame>) -> Seq<u8> {
    seq![0u8, 0u8, 1u8, 0u8] + spec_le16(frames.len() as int) + spec_ico_dir(
        frames,
        frames.len() as int,
    ) + spec_ico_blobs(frames, frames.len() as int)
}

/// Append two little-endian bytes.
fn push_le16(out: &mut Vec<u8>, v: u16)
    ensures
        final(out)@ == old(out)@ + spec_le16(v as int),
{
    out.push((v % 256) as u8);
    out.push(((v / 256) % 256) as u8);
    proof {
        assert(final(out)@ =~= old(out)@ + spec_le16(v as int));
    }
}

/// Append four little-endian bytes.
fn push_le32(out: &mut Vec<u8>, v: u32)
    ensures
        final(out)@ == old(out)@ + spec_le32(v as int),
{
    out.push((v % 256) as u8);
    out.push(((v / 256) % 256) as u8);
    out.push(((v / 65536) % 256) as u8);
    out.push(((v / 16777216) % 256) as u8);
    proof {
        assert(final(out)@ =~= old(out)@ + spec_le32(v as int));
    }
}

/// Append a whole byte vector.
fn push_bytes(out: &mut Vec<u8>, data: &Vec<u8>)
    ensures
        final(out)@ == old(out)@ + data@,
{
    let n: usize = data.len();
    let mut i: usize = 0;
    while i < n
        invariant
            i <= n,
            n == data@.len(),
            out@ == old(out)@ + data@.subrange(0, i as int),
        decreases n - i,
    {
        out.push(data[i]);
        proof {
            assert(out@ =~= old(out)@ + data@.subrange(0, i + 1int));
        }
        i = i + 1;
    }
    proof {
        assert(data@.subrange(0, n as int) =~= data@);
    }
}

/// Append one 16-byte directory entry.
fn push_ico_entry(out: &mut Vec<u8>, size: u32, len: u32, off: u32)
    ensures
        final(out)@ == old(out)@ + spec_ico_entry(size as int, len as int, off as int),
{
    let sb: u8 = if size == 256 {
        0
    } else {
        (size % 256) as u8
    };
    out.push(sb);
    out.push(sb);
    out.push(0);
    out.push(0);
    out.push(0);
    out.push(0);
    out.push(32);
    out.push(0);
    push_le32(out, len);
    push_le32(out, off);
    proof {
        assert(final(out)@ =~= old(out)@ + spec_ico_entry(size as int, len as int, off as int));
    }
}

/// Pack frames into one Windows icon container. Succeeds exactly when
/// there is at least one frame, no more than 65535, and the payloads
/// fit the container's 32-bit offsets; any failure leaves no partial
/// container behind.
pub fn build_ico(frames: &Vec<IcoFrame>) -> (r: Result<Vec<u8>, IconError>)
    ensures
        r is Ok <==> 1 <= frames@.len() <= 0xFFFF && spec_ico_offset(
            frames@,
            frames@.len() as int,
        ) <= 0xFFFF_FFFF,
        r is Ok ==> (r->Ok_0)@ == spec_ico(frames@),
        r is Err ==> r->Err_0 == IconError::EncodeFailed,
{
    let n: usize = frames.len();
    if n < 1 || n > 0xFFFF {
        return Err(IconError::EncodeFailed);
    }
    // First pass: check that every offset fits in 32 bits.
    let mut total: u64 = 6 + 16 * (n as u64);
    let mut i: usize = 0;
    while i < n
        invariant
            i <= n,
            n == frames@.len(),
            n <= 0xFFFF,
            total == spec_ico_offset(frames@, i as int),
            total <= 0xFFFF_FFFF,
        decreases n - i,
    {
        let len: usize = frames[i].data.len();
        if (len as u64) > 0xFFFF_FFFF - total {
            proof {
                lemma_ico_offset_monotonic(frames@, i + 1, n as int);
            }
            return Err(IconError::EncodeFailed);
        }
        total = total + (len as u64);
        i = i + 1;
    }
    // Second pass: emit header, directory, payloads.
    let mut out: Vec<u8> = Vec::new();
    out.push(0);
    out.push(0);
    out.push(1);
    out.push(0);
    push_le16(&mut out, n as u16);
    proof {
        assert(out@ =~= seq![0u8, 0u8, 1u8, 0u8] + spec_le16(n as int));
    }
    let ghost header = out@;
    let mut off: u64 = 6 + 16 * (n as u64);
    let mut k: usize = 0;
    while k < n
        invariant
            k <= n,
            n == frames@.len(),
            n <= 0xFFFF,
            off == spec_ico_offset(frames@, k as int),
            off <= 0xFFFF_FFFF,
            spec_ico_offset(frames@, n as int) <= 0xFFFF_FFFF,
            header == seq![0u8, 0u8, 1u8, 0u8] + spec_le16(n as int),
            out@ == header + spec_ico_dir(frames@, k as int),
        decreases n - k,
    {
        proof {
            lemma_ico_offset_monotonic(frames@, k as int + 1, n as int);
        }
        let len: usize = frames[k].data.len();
        push_ico_entry(&mut out, frames[k].size, len as u32, off as u32);
        proof {
            assert(out@ =~= header + spec_ico_dir(frames@, k as int + 1));
        }
        off = off + (len as u64);
        k = k + 1;
    }
    let ghost with_dir = out@;
    let mut b: usize = 0;
    while b < n
        invariant
            b <= n,
            n == frames@.len(),
            with_dir == header + spec_ico_dir(frames@, n as int),
            out@ == with_dir + spec_ico_blobs(frames@, b as int),
        decreases n - b,
    {
        push_bytes(&mut out, &frames[b].data);
        proof {
            assert(out@ =~= with_dir + spec_ico_blobs(frames@, b as int + 1));
        }
        b = b + 1;
    }
    proof {
        assert(out@ =~= spec_ico(frames@));
    }
    Ok(out)
}

/// Offsets grow with the frame index.
proof fn lemma_ico_offset_monotonic(frames: Seq<IcoFrame>, i: int, j: int)
    requires
        0 <= i <= j,
    ensures
        spec_ico_offset(frames, i) <= spec_ico_offset(frames, j),
    decreases j - i,
{
    if i < j {
        lemma_ico_offset_monotonic(frames, i, j - 1);
    }
}

/// The sizes the container's directory reports, or nothing when the
/// bytes do not start with a well-formed header and directory.
pub open spec fn spec_parse_ico_sizes(b: Seq<u8>) -> Option<Seq<u32>> {
    if b.len() >= 6 && b[0] == 0 && b[1] == 0 && b[2] == 1 && b[3] == 0 {
        let count = b[4] as int + 256 * (b[5] as int);
        if b.len() >= 6 + 16 * count {
            Some(Seq::new(count as nat, |i: int| spec_ico_byte_size(b[6 + 16 * i])))
        } else {
            None
        }
    } else {
        None
    }
}

/// Read the frame sizes a container's directory reports.
pub fn parse_ico_sizes(bytes: &Vec<u8>) -> (r: Option<Vec<u32>>)
    ensures
        r is Some ==> (spec_parse_ico_sizes(bytes@) matches Some(s) && (r->0)@ == s),
        r is None ==> spec_parse_ico_sizes(bytes@) is None,
{
    let n: usize = bytes.len();
    if n < 6 || bytes[0] != 0 || bytes[1] != 0 || bytes[2] != 1 || bytes[3] != 0 {
        return None;
    }
    let count: usize = (bytes[4] as usize) + 256 * (bytes[5] as usize);
    if n < 6 + 16 * count {
        return None;
    }
    let mut sizes: Vec<u32> = Vec::new();
    let mut i: usize = 0;
    while i < count
        invariant
            i <= count,
            n == bytes@.len(),
            n >= 6 + 16 * count,
            sizes@.len() == i,
            forall|j: int| 0 <= j < i ==> sizes@[j] == spec_ico_byte_size(bytes@[6 + 16 * j]),
        decreases count - i,
    {
        let sb: u8 = bytes[6 + 16 * i];
        let s: u32 = if sb == 0 {
            256
        } else {
            sb as u32
        };
        sizes.push(s);
        i = i + 1;
    }
    proof {
        let spec = spec_parse_ico_sizes(bytes@);
        assert(spec matches Some(s) && sizes@ =~= s);
        assert(spec matches Some(s) && sizes@ == s);
    }
    Some(sizes)
}

/// The directory grows by sixteen bytes per frame.
proof fn lemma_ico_dir_len(frames: Seq<IcoFrame>, k: int)
    requires
        0 <= k <= frames.len(),
    ensures
        spec_ico_dir(frames, k).len() == 16 * k,
    decreases k,
{
    if k > 0 {
        lemma_ico_dir_len(frames, k - 1);
    }
}

/// The first byte of each directory entry is the frame's size byte.
proof fn lemma_ico_dir_first_byte(frames: Seq<IcoFrame>, k: int, j: int)
    requires
        0 <= j < k <= frames.len(),
    ensures
        spec_ico_dir(frames, k)[16 * j] == spec_ico_size_byte(frames[j].size as int),
    decreases k,
{
    lemma_ico_dir_len(frames, k);
    if j == k - 1 {
        lemma_ico_dir_len(frames, k - 1);
    } else {
        lemma_ico_dir_first_byte(frames, k - 1, j);
        lemma_ico_dir_len(frames, k - 1);
    }
}

/// Round trip of the size ladder: re-parsing a container built from
/// frames whose edges lie in the valid 1..=256 range reports exactly
/// those edges, in order, and no others.
pub proof fn lemma_ico_round_trip(frames: Seq<IcoFrame>)
    requires
        1 <= frames.len() <= 255,
        forall|i: int| 0 <= i < frames.len() ==> 1 <= #[trigger] frames[i].size <= 256,
    ensures
        spec_parse_ico_sizes(spec_ico(frames)) matches Some(sizes) && (sizes.len() == frames.len()
            && (forall|i: int| 0 <= i < frames.len() ==> sizes[i] == #[trigger] frames[i].size)),
{
    let b = spec_ico(frames);
    let n = frames.len() as int;
    lemma_ico_dir_len(frames, n);
    assert(b[0] == 0 && b[1] == 0 && b[2] == 1 && b[3] == 0);
    assert(b[4] == (n % 256) as u8);
    assert(b[5] == ((n / 256) % 256) as u8);
    assert(n < 256);
    assert(b[4] as int == n);
    assert(b[5] as int == 0);
    assert(b.len() >= 6 + 16 * n);
    let sizes = spec_parse_ico_sizes(b)->0;
    assert forall|i: int| 0 <= i < n implies sizes[i] == frames[i].size by {
        lemma_ico_dir_first_byte(frames, n, i);
        assert(b[6 + 16 * i] == spec_ico_dir(frames, n)[16 * i]);
        assert(sizes[i] == spec_ico_byte_size(spec_ico_size_byte(frames[i].size as int)));
    }
}

/// The relation between a built container, its frames, the badge
/// angles used, and the source: each frame is the source resampled to
/// its rung, badged with its angle, and PNG-encoded.
pub open spec fn spec_ico_frame_ok(
    frames: Seq<IcoFrame>,
    degs: Seq<int>,
    source: Raster,
    dev_mode: bool,
    bug: Seq<char>,
    i: int,
) -> bool {
    &&& frames[i].size == spec_ico_ladder(i)
    &&& 0 <= degs[i] < 360
    &&& frames[i].data@ == spec_saved_png(
        spec_resized(&source, spec_ico_ladder(i) as int, spec_ico_ladder(i) as int),
        spec_ico_ladder(i) as int,
        spec_ico_ladder(i) as int,
        dev_mode,
        bug,
        degs[i],
        spec_ico_best(i),
    )
}

/// Total payload bytes of the first `k` frames the recipe would pack
/// for the given badge angles.
pub open spec fn spec_ico_data_len(
    source: Raster,
    dev_mode: bool,
    bug: Seq<char>,
    degs: Seq<int>,
    k: int,
) -> int
    decreases k,
{
    if k <= 0 {
        0
    } else {
        spec_ico_data_len(source, dev_mode, bug, degs, k - 1) + spec_saved_png(
            spec_resized(&source, spec_ico_ladder(k - 1) as int, spec_ico_ladder(k - 1) as int),
            spec_ico_ladder(k - 1) as int,
            spec_ico_ladder(k - 1) as int,
            dev_mode,
            bug,
            degs[k - 1],
            spec_ico_best(k - 1),
        ).len() as int
    }
}

/// Whether the container the recipe would build for the given badge
/// angles fits its 32-bit offsets: header, directory and all payloads.
pub open spec fn spec_ico_fits(
    source: Raster,
    dev_mode: bool,
    bug: Seq<char>,
    degs: Seq<int>,
) -> bool {
    6 + 16 * 6 + spec_ico_data_len(source, dev_mode, bug, degs, 6) <= 0xFFFF_FFFF
}

/// For frames that follow the recipe, the container offset is the
/// header and directory plus the payload bytes so far.
proof fn lemma_ico_offset_as_sum(
    frames: Seq<IcoFrame>,
    degs: Seq<int>,
    source: Raster,
    dev_mode: bool,
    bug: Seq<char>,
    k: int,
)
    requires
        frames.len() == 6,
        degs.len() == 6,
        forall|i: int|
            0 <= i < 6 ==> #[trigger] spec_ico_frame_ok(frames, degs, source, dev_mode, bug, i),
        0 <= k <= 6,
    ensures
        spec_ico_offset(frames, k) == 6 + 16 * 6 + spec_ico_data_len(
            source,
            dev_mode,
            bug,
            degs,
            k,
        ),
    decreases k,
{
    if k > 0 {
        lemma_ico_offset_as_sum(frames, degs, source, dev_mode, bug, k - 1);
        assert(spec_ico_frame_ok(frames, degs, source, dev_mode, bug, k - 1));
    }
}

pub open spec fn spec_ico_plan_ok(
    bytes: Seq<u8>,
    frames: Seq<IcoFrame>,
    degs: Seq<int>,
    source: Raster,
    dev_mode: bool,
    bug: Seq<char>,
) -> bool {
    &&& bytes == spec_ico(frames)
    &&& frames.len() == 6
    &&& degs.len() == 6
    &&& forall|i: int| 0 <= i < 6 ==> #[trigger] spec_ico_frame_ok(frames, degs, source, dev_mode, bug, i)
}

/// The Windows recipe: the source resampled to each rung of the fixed
/// ladder, badged when badge mode is on, each frame PNG-encoded (best
/// compression for the 256-pixel frame only), packed into `icon.ico`.
pub fn generate_ico(source: &Raster, out: &mut Vec<OutputFile>, dev_mode: bool, dev_bug: &str) -> (r:
    Result<(), IconError>)
    requires
        source.wf(),
        1 <= source.width,
        1 <= source.height,
    ensures
        r is Ok ==> final(out)@.len() == old(out)@.len() + 1 && (final(out)@.last().path@
            == "icon.ico"@) && (exists|frames: Seq<IcoFrame>, degs: Seq<int>|
            spec_ico_plan_ok(final(out)@.last().bytes@, frames, degs, *source, dev_mode, dev_bug@)),
        r is Ok ==> forall|j: int|
            0 <= j < old(out)@.len() ==> final(out)@[j] == old(out)@[j],
        r is Err ==> final(out)@ == old(out)@,
        r is Err ==> !(r->Err_0 is NonSquareSource),
        !spec_badge_ok(dev_mode, dev_bug@) ==> r is Err,
        r is Err ==> !spec_badge_ok(dev_mode, dev_bug@) || (r->Err_0 == IconError::EncodeFailed
            && (exists|degs: Seq<int>|
            spec_degs_ok(degs, 6) && !spec_ico_fits(*source, dev_mode, dev_bug@, degs))),
        (spec_badge_ok(dev_mode, dev_bug@) && (forall|degs: Seq<int>|
            spec_degs_ok(degs, 6) ==> #[trigger] spec_ico_fits(*source, dev_mode, dev_bug@, degs)))
            ==> r is Ok,
{
    let mut frames: Vec<IcoFrame> = Vec::new();
    let ghost mut degs: Seq<int> = Seq::empty();
    let mut i: usize = 0;
    while i < 6
        invariant
            i <= 6,
            source.wf(),
            1 <= source.width,
            1 <= source.height,
            frames@.len() == i,
            degs.len() == i,
            i > 0 ==> spec_badge_ok(dev_mode, dev_bug@),
            forall|j: int|
                0 <= j < i ==> #[trigger] spec_ico_frame_ok(
                    frames@,
                    degs,
                    *source,
                    dev_mode,
                    dev_bug@,
                    j,
                ),
        decreases 6 - i,
    {
        let ghost frames0 = frames@;
        let ghost degs0 = degs;
        let size: u32 = ico_ladder_at(i);
        let resized = resize(source, size);
        let best = size == 256;
        let data = match crate::plan::render_png(&resized, dev_mode, dev_bug, best) {
            Ok(d) => d,
            Err(e) => {
                return Err(e);
            },
        };
        proof {
            assert(spec_badge_ok(dev_mode, dev_bug@));
            let deg = choose|deg: int|
                0 <= deg < 360 && data@ == spec_saved_png(
                    resized.pixels@,
                    resized.width as int,
                    resized.height as int,
                    dev_mode,
                    dev_bug@,
                    deg,
                    best,
                );
            assert(resized.pixels@ == spec_resized(
                source,
                spec_ico_ladder(i as int) as int,
                spec_ico_ladder(i as int) as int,
            ));
            assert(best == spec_ico_best(i as int));
            assert(0 <= deg < 360 && data@ == spec_saved_png(
                spec_resized(source, spec_ico_ladder(i as int) as int, spec_ico_ladder(
                    i as int,
                ) as int),
                spec_ico_ladder(i as int) as int,
                spec_ico_ladder(i as int) as int,
                dev_mode,
                dev_bug@,
                deg,
                spec_ico_best(i as int),
            ));
            degs = degs.push(deg);
        }
        frames.push(IcoFrame { size, data });
        proof {
            assert forall|j: int| 0 <= j < i + 1 implies #[trigger] spec_ico_frame_ok(
                frames@,
                degs,
                *source,
                dev_mode,
                dev_bug@,
                j,
            ) by {
                if j < i {
                    assert(spec_ico_frame_ok(frames0, degs0, *source, dev_mode, dev_bug@, j));
                    assert(frames@[j] == frames0[j]);
                    assert(degs[j] == degs0[j]);
                } else {
                    assert(frames@[j].size == spec_ico_ladder(j));
                    assert(0 <= degs[j] < 360);
                    assert(frames@[j].data@ == spec_saved_png(
                        spec_resized(source, spec_ico_ladder(j) as int, spec_ico_ladder(j) as int),
                        spec_ico_ladder(j) as int,
                        spec_ico_ladder(j) as int,
                        dev_mode,
                        dev_bug@,
                        degs[j],
                        spec_ico_best(j),
                    ));
                }
            }
        }
        i = i + 1;
    }
    let bytes = match build_ico(&frames) {
        Ok(b) => b,
        Err(e) => {
            proof {
                lemma_ico_offset_as_sum(frames@, degs, *source, dev_mode, dev_bug@, 6);
                assert forall|i: int| 0 <= i < 6 implies 0 <= #[trigger] degs[i] < 360 by {
                    assert(spec_ico_frame_ok(frames@, degs, *source, dev_mode, dev_bug@, i));
                }
                assert(spec_degs_ok(degs, 6));
                assert(!spec_ico_fits(*source, dev_mode, dev_bug@, degs));
            }
            return Err(e);
        },
    };
    let path = String::from_str("icon.ico");
    let ghost gframes = frames@;
    out.push(OutputFile { path, bytes });
    proof {
        assert(spec_ico_plan_ok(out@.last().bytes@, gframes, degs, *source, dev_mode, dev_bug@));
    }
    Ok(())
}

/// The ladder rung at index `i`.
fn ico_ladder_at(i: usize) -> (s: u32)
    requires
        i < 6,
    ensures
        s == spec_ico_ladder(i as int),
{
    if i == 0 {
        16
    } else if i == 1 {
        24
    } else if i == 2 {
        32
    } else if i == 3 {
        48
    } else if i == 4 {
        64
    } else {
        256
    }
}

} // verus!
