//! Readers for COLMAP's binary sparse model (`images.bin`, `points3D.bin`).
//!
//! Both files are little-endian records. The readers here decide which
//! records are well formed and which are kept; the `f64` words (quaternions,
//! translations, point coordinates) are handed out as their raw IEEE-754 bit
//! patterns, and the viewer-space conversion of those numbers happens with
//! the floating-point code outside this crate.

use vstd::prelude::*;
use vstd::utf8::{decode_utf8, valid_utf8};

verus! {

broadcast use vstd::string::group_string_axioms;

/// Longest image name accepted in `images.bin`, in bytes.
pub const MAX_NAME_BYTES: usize = 4096;

/// Points kept for the sparse preview.
pub const MAX_SPARSE_POINTS: u64 = 50_000;

/// Point counts above this are treated as a corrupt `points3D.bin`.
pub const MAX_POINT_RECORDS: u64 = 10_000_000;

// ---------------------------------------------------------------------------
// Little-endian words
// ---------------------------------------------------------------------------

/// The little-endian `u32` stored at `s[i..i + 4]`.
pub open spec fn le_u32(s: Seq<u8>, i: int) -> int {
    s[i] + 256 * (s[i + 1] + 256 * (s[i + 2] + 256 * (s[i + 3] as int)))
}

/// The little-endian `u64` stored at `s[i..i + 8]`.
pub open spec fn le_u64(s: Seq<u8>, i: int) -> int {
    le_u32(s, i) + 4294967296 * le_u32(s, i + 4)
}

fn read_u32(bytes: &[u8], pos: usize) -> (r: u32)
    requires
        pos + 4 <= bytes@.len(),
    ensures
        r == le_u32(bytes@, pos as int),
{
    let b0 = bytes[pos] as u32;
    let b1 = bytes[pos + 1] as u32;
    let b2 = bytes[pos + 2] as u32;
    let b3 = bytes[pos + 3] as u32;
    b0 + 256 * (b1 + 256 * (b2 + 256 * b3))
}

fn read_u64(bytes: &[u8], pos: usize) -> (r: u64)
    requires
        pos + 8 <= bytes.len(),
    ensures
        r == le_u64(bytes@, pos as int),
{
    let lo = read_u32(bytes, pos) as u64;
    let hi = read_u32(bytes, pos + 4) as u64;
    lo + 4294967296 * hi
}

// ---------------------------------------------------------------------------
// NUL-terminated names
// ---------------------------------------------------------------------------

/// Index of the first NUL byte at or after `i`, or the length when there is none.
pub open spec fn nul_from(s: Seq<u8>, i: int) -> int
    decreases s.len() - i,
{
    if 0 <= i < s.len() {
        if s[i] == 0 {
            i
        } else {
            nul_from(s, i + 1)
        }
    } else {
        s.len() as int
    }
}

/// The name bytes of a NUL-terminated string starting at `start`: present
/// when a NUL follows within `MAX_NAME_BYTES` name bytes.
pub open spec fn cstring_at(s: Seq<u8>, start: int) -> Option<Seq<u8>> {
    let z = nul_from(s, start);
    if z - start <= MAX_NAME_BYTES && z < s.len() {
        Some(s.subrange(start, z))
    } else {
        None
    }
}

proof fn lemma_nul_from(s: Seq<u8>, i: int)
    requires
        0 <= i <= s.len(),
    ensures
        i <= nul_from(s, i) <= s.len(),
        forall|j: int| i <= j < nul_from(s, i) ==> s[j] != 0,
        nul_from(s, i) < s.len() ==> s[nul_from(s, i)] == 0,
    decreases s.len() - i,
{
    if i < s.len() && s[i] != 0 {
        lemma_nul_from(s, i + 1);
    }
}

proof fn lemma_nul_from_skips(s: Seq<u8>, start: int, i: int)
    requires
        0 <= start <= i <= s.len(),
        forall|j: int| start <= j < i ==> s[j] != 0,
    ensures
        nul_from(s, start) == nul_from(s, i),
    decreases i - start,
{
    if start < i {
        lemma_nul_from_skips(s, start + 1, i);
    }
}

fn read_cstring(bytes: &[u8], start: usize) -> (r: Option<Vec<u8>>)
    requires
        start <= bytes@.len(),
    ensures
        match cstring_at(bytes@, start as int) {
            None => r is None,
            Some(name) => r matches Some(v) && v@ == name,
        },
{
    let ghost s = bytes@;
    let mut out: Vec<u8> = Vec::new();
    let mut i = start;
    loop
        invariant
            s == bytes@,
            start <= i <= s.len(),
            i - start <= MAX_NAME_BYTES,
            out@ == s.subrange(start as int, i as int),
            forall|j: int| start <= j < i ==> s[j] != 0,
        decreases s.len() - i,
    {
        proof {
            lemma_nul_from_skips(s, start as int, i as int);
            lemma_nul_from(s, i as int);
        }
        if i >= bytes.len() {
            return None;
        }
        if bytes[i] == 0 {
            return Some(out);
        }
        if i - start >= MAX_NAME_BYTES {
            return None;
        }
        out.push(bytes[i]);
        i += 1;
        assert(out@ =~= s.subrange(start as int, i as int));
    }
}

/// std `String::from_utf8`: `Some` exactly when the bytes are valid UTF-8,
/// holding the text they encode.
#[verifier::external_body]
fn utf8_string(bytes: Vec<u8>) -> (r: Option<String>)
    ensures
        r is Some <==> valid_utf8(bytes@),
        r matches Some(s) ==> s@ == decode_utf8(bytes@),
{
    String::from_utf8(bytes).ok()
}

// ---------------------------------------------------------------------------
// images.bin
// ---------------------------------------------------------------------------

/// One registered image: its file name and the raw bits of the `f64` words
/// COLMAP stores for it (world-to-camera rotation `qw qx qy qz`, translation
/// `tx ty tz`).
#[derive(Debug, Clone, PartialEq, Eq)]
pub struct ColmapImage {
    pub name: String,
    pub qw: u64,
    pub qx: u64,
    pub qy: u64,
    pub qz: u64,
    pub tx: u64,
    pub ty: u64,
    pub tz: u64,
}

/// One `images.bin` record starting at `pos`: image id (`u32`), seven `f64`
/// words, camera id (`u32`), NUL-terminated UTF-8 name, a `u64` count of 2-D
/// points and 24 bytes per point. Gives the name bytes and the position
/// after the record, or `None` when the record is cut short or malformed.
pub open spec fn image_record(s: Seq<u8>, pos: int) -> Option<(Seq<u8>, int)> {
    if pos + 64 > s.len() {
        None
    } else {
        match cstring_at(s, pos + 64) {
            None => None,
            Some(name) => {
                let at = pos + 64 + name.len() + 1;
                if !valid_utf8(name) || at + 8 > s.len() {
                    None
                } else {
                    let n2d = le_u64(s, at);
                    if 24 * n2d > u64::MAX || at + 8 + 24 * n2d > s.len() {
                        None
                    } else {
                        Some((name, at + 8 + 24 * n2d))
                    }
                }
            }
        }
    }
}

/// `count` consecutive image records from `pos`, each given as its name
/// bytes and start position.
pub open spec fn images_from(s: Seq<u8>, pos: int, count: nat) -> Option<Seq<(Seq<u8>, int)>>
    decreases count,
{
    if count == 0 {
        Some(seq![])
    } else {
        match image_record(s, pos) {
            None => None,
            Some((name, end)) => match images_from(s, end, (count - 1) as nat) {
                None => None,
                Some(rest) => Some(seq![(name, pos)] + rest),
            },
        }
    }
}

/// A whole `images.bin`: a `u64` record count, then the records.
pub open spec fn images_binary(s: Seq<u8>) -> Option<Seq<(Seq<u8>, int)>> {
    if s.len() < 8 {
        None
    } else {
        images_from(s, 8, le_u64(s, 0) as nat)
    }
}

/// `img` holds what the record that starts at `rec.1` stores.
pub open spec fn image_agrees(img: ColmapImage, s: Seq<u8>, rec: (Seq<u8>, int)) -> bool {
    let p = rec.1;
    &&& img.name@ == decode_utf8(rec.0)
    &&& img.qw == le_u64(s, p + 4)
    &&& img.qx == le_u64(s, p + 12)
    &&& img.qy == le_u64(s, p + 20)
    &&& img.qz == le_u64(s, p + 28)
    &&& img.tx == le_u64(s, p + 36)
    &&& img.ty == le_u64(s, p + 44)
    &&& img.tz == le_u64(s, p + 52)
}

/// Prefixes `acc` onto a parse that may have failed.
pub open spec fn prefixed<A>(acc: Seq<A>, rest: Option<Seq<A>>) -> Option<Seq<A>> {
    match rest {
        None => None,
        Some(r) => Some(acc + r),
    }
}

fn read_image(bytes: &[u8], pos: usize) -> (r: Option<(ColmapImage, usize)>)
    ensures
        match image_record(bytes@, pos as int) {
            None => r is None,
            Some((name, end)) => r matches Some((img, e)) && e == end && image_agrees(
                img,
                bytes@,
                (name, pos as int),
            ),
        },
{
    if bytes.len() < 64 || pos > bytes.len() - 64 {
        return None;
    }
    let qw = read_u64(bytes, pos + 4);
    let qx = read_u64(bytes, pos + 12);
    let qy = read_u64(bytes, pos + 20);
    let qz = read_u64(bytes, pos + 28);
    let tx = read_u64(bytes, pos + 36);
    let ty = read_u64(bytes, pos + 44);
    let tz = read_u64(bytes, pos + 52);
    let name_bytes = match read_cstring(bytes, pos + 64) {
        None => return None,
        Some(v) => v,
    };
    let ghost nb = name_bytes@;
    proof {
        lemma_nul_from(bytes@, pos + 64);
    }
    let at = pos + 64 + name_bytes.len() + 1;
    let name = match utf8_string(name_bytes) {
        None => return None,
        Some(n) => n,
    };
    if at > bytes.len() || bytes.len() - at < 8 {
        return None;
    }
    let n2d = read_u64(bytes, at);
    let skip = match n2d.checked_mul(24) {
        None => return None,
        Some(k) => k,
    };
    let room = (bytes.len() - (at + 8)) as u64;
    if skip > room {
        return None;
    }
    let end = at + 8 + skip as usize;
    assert(nb == cstring_at(bytes@, pos + 64)->0);
    Some((ColmapImage { name, qw, qx, qy, qz, tx, ty, tz }, end))
}

/// Parses `images.bin`. `None` for a truncated or malformed file, otherwise
/// every record in file order.
pub fn parse_images_binary(bytes: &[u8]) -> (r: Option<Vec<ColmapImage>>)
    ensures
        match images_binary(bytes@) {
            None => r is None,
            Some(recs) => r matches Some(v) && v@.len() == recs.len() && forall|k: int|
                0 <= k < recs.len() ==> image_agrees(#[trigger] v@[k], bytes@, recs[k]),
        },
{
    let ghost s = bytes@;
    if bytes.len() < 8 {
        return None;
    }
    let n = read_u64(bytes, 0);
    let mut images: Vec<ColmapImage> = Vec::new();
    let ghost mut recs: Seq<(Seq<u8>, int)> = seq![];
    let mut pos: usize = 8;
    let mut i: u64 = 0;
    while i < n
        invariant
            s == bytes@,
            s.len() >= 8,
            n == le_u64(s, 0),
            i <= n,
            pos <= s.len(),
            images_binary(s) == prefixed(recs, images_from(s, pos as int, (n - i) as nat)),
            images@.len() == recs.len(),
            forall|k: int| 0 <= k < recs.len() ==> image_agrees(#[trigger] images@[k], s, recs[k]),
        decreases n - i,
    {
        match read_image(bytes, pos) {
            None => {
                return None;
            },
            Some((img, end)) => {
                let ghost name = image_record(s, pos as int).unwrap().0;
                proof {
                    let rest = images_from(s, end as int, (n - i - 1) as nat);
                    assert(images_from(s, pos as int, (n - i) as nat) == prefixed(
                        seq![(name, pos as int)],
                        rest,
                    ));
                    if let Some(r) = rest {
                        assert(recs + (seq![(name, pos as int)] + r) =~= recs.push(
                            (name, pos as int),
                        ) + r);
                    }
                    recs = recs.push((name, pos as int));
                }
                images.push(img);
                pos = end;
                i = i + 1;
            },
        }
    }
    proof {
        assert(recs + seq![] =~= recs);
    }
    Some(images)
}

/// Number of registered images in `images.bin`; `None` when the file is
/// truncated or malformed. The count is truncated to `u32`.
pub fn registered_count(bytes: &[u8]) -> (r: Option<u32>)
    ensures
        match images_binary(bytes@) {
            None => r is None,
            Some(recs) => r == Some((recs.len() as u32)),
        },
{
    match parse_images_binary(bytes) {
        None => None,
        Some(images) => Some(images.len() as u32),
    }
}

// ---------------------------------------------------------------------------
// points3D.bin
// ---------------------------------------------------------------------------

/// One `points3D.bin` record starting at `pos`: point id (`u64`), `x y z`
/// (`f64`), `r g b` bytes, reprojection error (`f64`), a `u64` track length
/// and 8 bytes per track entry. Gives the position after the record.
pub open spec fn point_record(s: Seq<u8>, pos: int) -> Option<int> {
    if pos + 51 > s.len() {
        None
    } else {
        let track = le_u64(s, pos + 43);
        if 8 * track > u64::MAX || pos + 51 + 8 * track > s.len() {
            None
        } else {
            Some(pos + 51 + 8 * track)
        }
    }
}

/// Every `stride`-th record is kept, until `MAX_SPARSE_POINTS` are kept.
pub open spec fn point_stride(n: int) -> int {
    if n > MAX_SPARSE_POINTS {
        if n / (MAX_SPARSE_POINTS as int) >= 1 {
            n / (MAX_SPARSE_POINTS as int)
        } else {
            1
        }
    } else {
        1
    }
}

/// Start positions of the kept records among records `i..n`, the first of
/// which starts at `pos`; `kept` records were kept before.
pub open spec fn points_from(s: Seq<u8>, pos: int, i: int, n: int, stride: int, kept: int) -> Option<
    Seq<int>,
>
    decreases n - i,
{
    if i >= n {
        Some(seq![])
    } else {
        match point_record(s, pos) {
            None => None,
            Some(end) => if i % stride == 0 {
                if kept + 1 >= MAX_SPARSE_POINTS {
                    Some(seq![pos])
                } else {
                    prefixed(seq![pos], points_from(s, end, i + 1, n, stride, kept + 1))
                }
            } else {
                points_from(s, end, i + 1, n, stride, kept)
            },
        }
    }
}

/// A whole `points3D.bin`: a `u64` record count (at most
/// `MAX_POINT_RECORDS`), then the records; gives the kept records' starts.
pub open spec fn points_binary(s: Seq<u8>) -> Option<Seq<int>> {
    if s.len() < 8 {
        None
    } else {
        let n = le_u64(s, 0);
        if n > MAX_POINT_RECORDS {
            None
        } else {
            points_from(s, 8, 0, n, point_stride(n), 0)
        }
    }
}

/// The raw `x y z` bits and the colour of the record starting at `p`.
pub open spec fn point_xyz(s: Seq<u8>, p: int) -> (u64, u64, u64) {
    (le_u64(s, p + 8) as u64, le_u64(s, p + 16) as u64, le_u64(s, p + 24) as u64)
}

pub open spec fn point_rgb(s: Seq<u8>, p: int) -> (u8, u8, u8) {
    (s[p + 32], s[p + 33], s[p + 34])
}

fn read_point(bytes: &[u8], pos: usize) -> (r: Option<usize>)
    ensures
        match point_record(bytes@, pos as int) {
            None => r is None,
            Some(end) => r == Some(end as usize),
        },
{
    if bytes.len() < 51 || pos > bytes.len() - 51 {
        return None;
    }
    let track = read_u64(bytes, pos + 43);
    let skip = match track.checked_mul(8) {
        None => return None,
        Some(k) => k,
    };
    let room = (bytes.len() - (pos + 51)) as u64;
    if skip > room {
        return None;
    }
    Some(pos + 51 + skip as usize)
}

/// Parses `points3D.bin` into the sparse preview's points: raw `x y z`
/// bits and `r g b` of every `point_stride`-th record, at most
/// `MAX_SPARSE_POINTS` of them. `None` for a truncated or malformed file,
/// or one that claims more than `MAX_POINT_RECORDS` records.
pub fn parse_points3d(bytes: &[u8]) -> (r: Option<(Vec<(u64, u64, u64)>, Vec<(u8, u8, u8)>)>)
    ensures
        match points_binary(bytes@) {
            None => r is None,
            Some(starts) => r matches Some((xyz, rgb)) && xyz@.len() == starts.len() && rgb@.len()
                == starts.len() && (forall|k: int|
                0 <= k < starts.len() ==> #[trigger] xyz@[k] == point_xyz(bytes@, starts[k]))
                && (forall|k: int|
                0 <= k < starts.len() ==> #[trigger] rgb@[k] == point_rgb(bytes@, starts[k])),
        },
{
    let ghost s = bytes@;
    if bytes.len() < 8 {
        return None;
    }
    let n = read_u64(bytes, 0);
    if n > MAX_POINT_RECORDS {
        return None;
    }
    let stride: u64 = if n > MAX_SPARSE_POINTS {
        let q = n / MAX_SPARSE_POINTS;
        if q >= 1 {
            q
        } else {
            1
        }
    } else {
        1
    };
    let mut xyz: Vec<(u64, u64, u64)> = Vec::new();
    let mut rgb: Vec<(u8, u8, u8)> = Vec::new();
    let ghost mut starts: Seq<int> = seq![];
    let mut pos: usize = 8;
    let mut i: u64 = 0;
    while i < n
        invariant
            s == bytes@,
            n == le_u64(s, 0),
            n <= MAX_POINT_RECORDS,
            stride == point_stride(n as int),
            stride >= 1,
            i <= n,
            pos <= s.len() <= usize::MAX,
            xyz@.len() == starts.len(),
            rgb@.len() == starts.len(),
            starts.len() < MAX_SPARSE_POINTS,
            points_binary(s) == prefixed(
                starts,
                points_from(s, pos as int, i as int, n as int, stride as int, starts.len() as int),
            ),
            forall|k: int| 0 <= k < starts.len() ==> #[trigger] xyz@[k] == point_xyz(s, starts[k]),
            forall|k: int| 0 <= k < starts.len() ==> #[trigger] rgb@[k] == point_rgb(s, starts[k]),
        decreases n - i,
    {
        let end = match read_point(bytes, pos) {
            None => return None,
            Some(e) => e,
        };
        if i % stride == 0 {
            let x = read_u64(bytes, pos + 8);
            let y = read_u64(bytes, pos + 16);
            let z = read_u64(bytes, pos + 24);
            xyz.push((x, y, z));
            rgb.push((bytes[pos + 32], bytes[pos + 33], bytes[pos + 34]));
            proof {
                assert(xyz@[starts.len() as int] == point_xyz(s, pos as int));
                assert(rgb@[starts.len() as int] == point_rgb(s, pos as int));
                let rest = points_from(
                    s,
                    end as int,
                    i + 1,
                    n as int,
                    stride as int,
                    starts.len() + 1int,
                );
                if let Some(r) = rest {
                    assert(starts + (seq![pos as int] + r) =~= starts.push(pos as int) + r);
                }
                assert(starts + seq![pos as int] =~= starts.push(pos as int));
                starts = starts.push(pos as int);
            }
            if xyz.len() as u64 >= MAX_SPARSE_POINTS {
                return Some((xyz, rgb));
            }
        }
        pos = end;
        i = i + 1;
    }
    proof {
        assert(points_from(s, pos as int, i as int, n as int, stride as int, starts.len() as int)
            == Some(Seq::<int>::empty()));
        assert(starts + seq![] =~= starts);
        assert(points_binary(bytes@) == Some(starts));
    }
    Some((xyz, rgb))
}

/// The `u64` record count at the start of `points3D.bin`, truncated to
/// `u32`; `None` when the file is shorter than the count.
pub fn points3d_count(bytes: &[u8]) -> (r: Option<u32>)
    ensures
        bytes@.len() < 8 ==> r is None,
        bytes@.len() >= 8 ==> r == Some((le_u64(bytes@, 0) as u64) as u32),
{
    if bytes.len() < 8 {
        return None;
    }
    let n = read_u64(bytes, 0);
    Some(n as u32)
}

// ---------------------------------------------------------------------------
// cameras.json
// ---------------------------------------------------------------------------

/// One `cameras.json` entry as far as the sparse model decides it: the
/// frame's name and whether COLMAP registered it. The `k`-th registered
/// entry takes its pose from the `k`-th image record.
#[derive(Debug, Clone, PartialEq, Eq)]
pub struct CameraSlot {
    pub name: String,
    pub registered: bool,
}

pub open spec fn names_of(v: Seq<String>) -> Seq<Seq<char>> {
    v.map_values(|s: String| s@)
}

/// The frames, in order, whose names are not among `reg`.
pub open spec fn unregistered(frames: Seq<Seq<char>>, reg: Seq<Seq<char>>) -> Seq<Seq<char>>
    decreases frames.len(),
{
    if frames.len() == 0 {
        seq![]
    } else {
        let rest = unregistered(frames.drop_last(), reg);
        if reg.contains(frames.last()) {
            rest
        } else {
            rest.push(frames.last())
        }
    }
}

/// Registered cameras first, in model order, then every frame COLMAP left
/// out, in frame order.
pub open spec fn camera_slots(reg: Seq<Seq<char>>, frames: Seq<Seq<char>>) -> Seq<(Seq<char>, bool)> {
    reg.map_values(|n: Seq<char>| (n, true)) + unregistered(frames, reg).map_values(
        |n: Seq<char>| (n, false),
    )
}

pub open spec fn slots_view(v: Seq<CameraSlot>) -> Seq<(Seq<char>, bool)> {
    v.map_values(|c: CameraSlot| (c.name@, c.registered))
}

fn contains_name(names: &Vec<String>, name: &String) -> (r: bool)
    ensures
        r == names_of(names@).contains(name@),
{
    let mut j: usize = 0;
    while j < names.len()
        invariant
            j <= names@.len(),
            forall|k: int| 0 <= k < j ==> names@[k]@ != name@,
        decreases names.len() - j,
    {
        if crate::text::str_is(names[j].as_str(), name.as_str()) {
            assert(names_of(names@)[j as int] == name@);
            return true;
        }
        j += 1;
    }
    proof {
        if names_of(names@).contains(name@) {
            let k = choose|k: int| 0 <= k < names_of(names@).len() && names_of(names@)[k] == name@;
            assert(names@[k]@ == name@);
        }
    }
    false
}

/// The entries of `cameras.json`: every registered image name, then every
/// frame whose name COLMAP did not register.
pub fn camera_manifest(registered: &Vec<String>, frame_names: &Vec<String>) -> (r: Vec<CameraSlot>)
    ensures
        slots_view(r@) == camera_slots(names_of(registered@), names_of(frame_names@)),
{
    let ghost reg = names_of(registered@);
    let ghost frames = names_of(frame_names@);
    let mut out: Vec<CameraSlot> = Vec::new();
    let mut k: usize = 0;
    while k < registered.len()
        invariant
            reg == names_of(registered@),
            k <= registered@.len(),
            slots_view(out@) == reg.take(k as int).map_values(|n: Seq<char>| (n, true)),
        decreases registered.len() - k,
    {
        let ghost prev = out@;
        let name = registered[k].clone();
        out.push(CameraSlot { name, registered: true });
        assert(slots_view(out@) =~= slots_view(prev).push((reg[k as int], true)));
        assert(reg.take(k + 1).map_values(|n: Seq<char>| (n, true)) =~= reg.take(k as int).map_values(
            |n: Seq<char>| (n, true),
        ).push((reg[k as int], true)));
        k += 1;
    }
    assert(reg.take(registered@.len() as int) =~= reg);
    let ghost head = slots_view(out@);
    let mut f: usize = 0;
    while f < frame_names.len()
        invariant
            reg == names_of(registered@),
            frames == names_of(frame_names@),
            f <= frame_names@.len(),
            head == reg.map_values(|n: Seq<char>| (n, true)),
            slots_view(out@) == head + unregistered(frames.take(f as int), reg).map_values(
                |n: Seq<char>| (n, false),
            ),
        decreases frame_names.len() - f,
    {
        let ghost before = frames.take(f as int);
        assert(frames.take(f + 1).drop_last() =~= before);
        assert(frames.take(f + 1).last() == frame_names@[f as int]@);
        let ghost prev = out@;
        let ghost un = unregistered(before, reg);
        if !contains_name(registered, &frame_names[f]) {
            let name = frame_names[f].clone();
            out.push(CameraSlot { name, registered: false });
            assert(slots_view(out@) =~= slots_view(prev).push((frames[f as int], false)));
            assert(unregistered(frames.take(f + 1), reg) == un.push(frames[f as int]));
            assert(un.push(frames[f as int]).map_values(|n: Seq<char>| (n, false)) =~= un.map_values(
                |n: Seq<char>| (n, false),
            ).push((frames[f as int], false)));
        } else {
            assert(unregistered(frames.take(f + 1), reg) == un);
        }
        f += 1;
    }
    assert(frames.take(frame_names@.len() as int) =~= frames);
    out
}

proof fn lemma_unregistered_keeps(frames: Seq<Seq<char>>, reg: Seq<Seq<char>>, f: Seq<char>)
    requires
        frames.contains(f),
        !reg.contains(f),
    ensures
        unregistered(frames, reg).contains(f),
    decreases frames.len(),
{
    if frames.last() == f {
        assert(unregistered(frames, reg).last() == f);
    } else {
        let k = choose|k: int| 0 <= k < frames.len() && frames[k] == f;
        assert(frames.drop_last()[k] == f);
        lemma_unregistered_keeps(frames.drop_last(), reg, f);
        let rest = unregistered(frames.drop_last(), reg);
        let j = choose|j: int| 0 <= j < rest.len() && rest[j] == f;
        if !reg.contains(frames.last()) {
            assert(rest.push(frames.last())[j] == f);
        }
    }
}

/// Every frame has an entry in `cameras.json`: registered frames among the
/// registered cameras, the others after them.
pub proof fn law_every_frame_has_a_camera(reg: Seq<Seq<char>>, frames: Seq<Seq<char>>, f: Seq<char>)
    requires
        frames.contains(f),
    ensures
        exists|k: int|
            0 <= k < camera_slots(reg, frames).len() && (#[trigger] camera_slots(reg, frames)[k]).0
                == f && camera_slots(reg, frames)[k].1 == reg.contains(f),
{
    let slots = camera_slots(reg, frames);
    if reg.contains(f) {
        let k = choose|k: int| 0 <= k < reg.len() && reg[k] == f;
        assert(slots[k] == (f, true));
    } else {
        lemma_unregistered_keeps(frames, reg, f);
        let un = unregistered(frames, reg);
        let j = choose|j: int| 0 <= j < un.len() && un[j] == f;
        assert(slots[reg.len() + j] == (f, false));
    }
}

} // verus!
