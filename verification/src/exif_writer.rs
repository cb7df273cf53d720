//! The EXIF block written into generated JPEG files: a little-endian TIFF
//! structure holding the capture time and, optionally, a GPS position,
//! spliced into the JPEG as an APP1 segment right after the start marker.

use vstd::prelude::*;
use crate::text::{append_str, string_of};

verus! {

/// A GPS position as EXIF stores it: hemisphere letters and
/// degrees/minutes/seconds as rationals.
#[derive(Clone, Copy, Debug)]
pub struct GpsFix {
    pub lat_ref: u8,
    pub lat: [(u32, u32); 3],
    pub lng_ref: u8,
    pub lng: [(u32, u32); 3],
}

pub open spec fn le16(v: int) -> Seq<u8> {
    seq![(v % 256) as u8, ((v / 256) % 256) as u8]
}

pub open spec fn le32(v: int) -> Seq<u8> {
    seq![
        (v % 256) as u8,
        ((v / 256) % 256) as u8,
        ((v / 65536) % 256) as u8,
        ((v / 16777216) % 256) as u8,
    ]
}

pub open spec fn be16(v: int) -> Seq<u8> {
    seq![((v / 256) % 256) as u8, (v % 256) as u8]
}

/// A twelve-byte IFD entry whose value lies elsewhere (or fits in four
/// bytes).
pub open spec fn ifd_entry(tag: int, ty: int, count: int, value: int) -> Seq<u8> {
    le16(tag) + le16(ty) + le32(count) + le32(value)
}

/// An IFD entry holding a one-letter ASCII string in place.
pub open spec fn ascii_inline_entry(tag: int, ch: u8) -> Seq<u8> {
    le16(tag) + le16(2) + le32(2) + seq![ch, 0u8, 0u8, 0u8]
}

/// Three rationals, numerator then denominator each.
pub open spec fn rational_triplet(t: Seq<(u32, u32)>) -> Seq<u8> {
    le32(t[0].0 as int) + le32(t[0].1 as int) + le32(t[1].0 as int) + le32(t[1].1 as int) + le32(
        t[2].0 as int,
    ) + le32(t[2].1 as int)
}

/// Where each part of the TIFF structure starts, for a date of `n` bytes
/// (its terminating NUL included).
pub open spec fn ifd0_entries(with_gps: bool) -> int {
    if with_gps {
        3
    } else {
        2
    }
}

pub open spec fn dt0_offset(with_gps: bool) -> int {
    8 + 2 + ifd0_entries(with_gps) * 12 + 4
}

pub open spec fn exif_ifd_offset(with_gps: bool, n: int) -> int {
    dt0_offset(with_gps) + n
}

pub open spec fn dto_offset(with_gps: bool, n: int) -> int {
    exif_ifd_offset(with_gps, n) + 18
}

pub open spec fn gps_ifd_offset(n: int) -> int {
    dto_offset(true, n) + n
}

pub open spec fn gps_lat_offset(n: int) -> int {
    gps_ifd_offset(n) + 54
}

pub open spec fn gps_lng_offset(n: int) -> int {
    gps_lat_offset(n) + 24
}

/// The TIFF structure up to and including the EXIF sub-IFD and its copy
/// of the date.
pub open spec fn tiff_main(dt: Seq<u8>, with_gps: bool) -> Seq<u8> {
    let n = dt.len() as int;
    seq![0x49u8, 0x49u8, 0x2Au8, 0x00u8] + le32(8) + le16(ifd0_entries(with_gps)) + ifd_entry(
        0x0132,
        2,
        n,
        dt0_offset(with_gps),
    ) + ifd_entry(0x8769, 4, 1, exif_ifd_offset(with_gps, n)) + (if with_gps {
        ifd_entry(0x8825, 4, 1, gps_ifd_offset(n))
    } else {
        Seq::empty()
    }) + le32(0) + dt + le16(1) + ifd_entry(0x9003, 2, n, dto_offset(with_gps, n)) + le32(0) + dt
}

/// The GPS sub-IFD and the rationals it points at.
pub open spec fn tiff_gps(g: GpsFix, n: int) -> Seq<u8> {
    le16(4) + ascii_inline_entry(0x0001, g.lat_ref) + ifd_entry(0x0002, 5, 3, gps_lat_offset(n))
        + ascii_inline_entry(0x0003, g.lng_ref) + ifd_entry(0x0004, 5, 3, gps_lng_offset(n)) + le32(0)
        + rational_triplet(g.lat@) + rational_triplet(g.lng@)
}

/// The TIFF structure of a date (NUL included) and an optional position.
pub open spec fn tiff_spec(dt: Seq<u8>, gps: Option<GpsFix>) -> Seq<u8> {
    match gps {
        Some(g) => tiff_main(dt, true) + tiff_gps(g, dt.len() as int),
        None => tiff_main(dt, false),
    }
}

/// `Exif\0\0` followed by the TIFF structure.
pub open spec fn exif_payload_spec(date_time: Seq<u8>, gps: Option<GpsFix>) -> Seq<u8> {
    seq![0x45u8, 0x78u8, 0x69u8, 0x66u8, 0u8, 0u8] + tiff_spec(date_time.push(0u8), gps)
}

fn push_le16(buf: &mut Vec<u8>, v: u16)
    ensures
        final(buf)@ == old(buf)@ + le16(v as int),
{
    buf.push((v % 256) as u8);
    buf.push(((v / 256) % 256) as u8);
    proof {
        assert(final(buf)@ =~= old(buf)@ + le16(v as int));
    }
}

fn push_le32(buf: &mut Vec<u8>, v: u32)
    ensures
        final(buf)@ == old(buf)@ + le32(v as int),
{
    buf.push((v % 256) as u8);
    buf.push(((v / 256) % 256) as u8);
    buf.push(((v / 65536) % 256) as u8);
    buf.push(((v / 16777216) % 256) as u8);
    proof {
        assert(final(buf)@ =~= old(buf)@ + le32(v as int));
    }
}

fn push_bytes(buf: &mut Vec<u8>, bytes: &Vec<u8>)
    ensures
        final(buf)@ == old(buf)@ + bytes@,
{
    let mut i: usize = 0;
    while i < bytes.len()
        invariant
            i <= bytes.len(),
            buf@ == old(buf)@ + bytes@.take(i as int),
        decreases bytes.len() - i,
    {
        buf.push(bytes[i]);
        i += 1;
        proof {
            assert(buf@ =~= old(buf)@ + bytes@.take(i as int));
        }
    }
    proof {
        assert(bytes@.take(bytes@.len() as int) =~= bytes@);
    }
}

/// Appends an IFD entry.
pub fn append_ifd_entry(buf: &mut Vec<u8>, tag: u16, ty: u16, count: u32, value_or_offset: u32)
    ensures
        final(buf)@ == old(buf)@ + ifd_entry(tag as int, ty as int, count as int, value_or_offset as int),
{
    push_le16(buf, tag);
    push_le16(buf, ty);
    push_le32(buf, count);
    push_le32(buf, value_or_offset);
    proof {
        assert(final(buf)@ =~= old(buf)@ + ifd_entry(
            tag as int,
            ty as int,
            count as int,
            value_or_offset as int,
        ));
    }
}

/// Appends an IFD entry holding a one-letter ASCII string in place.
pub fn append_ifd_entry_ascii_inline(buf: &mut Vec<u8>, tag: u16, one_char: u8)
    ensures
        final(buf)@ == old(buf)@ + ascii_inline_entry(tag as int, one_char),
{
    push_le16(buf, tag);
    push_le16(buf, 2);
    push_le32(buf, 2);
    buf.push(one_char);
    buf.push(0u8);
    buf.push(0u8);
    buf.push(0u8);
    proof {
        assert(final(buf)@ =~= old(buf)@ + ascii_inline_entry(tag as int, one_char));
    }
}

/// Appends three rationals.
pub fn append_rational_triplet(buf: &mut Vec<u8>, triplet: [(u32, u32); 3])
    ensures
        final(buf)@ == old(buf)@ + rational_triplet(triplet@),
{
    push_le32(buf, triplet[0].0);
    push_le32(buf, triplet[0].1);
    push_le32(buf, triplet[1].0);
    push_le32(buf, triplet[1].1);
    push_le32(buf, triplet[2].0);
    push_le32(buf, triplet[2].1);
    proof {
        assert(final(buf)@ =~= old(buf)@ + rational_triplet(triplet@));
    }
}

fn build_tiff_main(dt: &Vec<u8>, with_gps: bool) -> (r: Vec<u8>)
    requires
        0 < dt@.len() < 0x1000_0000,
    ensures
        r@ == tiff_main(dt@, with_gps),
{
    let n = dt.len() as u32;
    let entries: u16 = if with_gps {
        3
    } else {
        2
    };
    let dt0: u32 = 8 + 2 + (entries as u32) * 12 + 4;
    let exif_ifd: u32 = dt0 + n;
    let dto: u32 = exif_ifd + 18;
    let gps_ifd: u32 = dto + n;
    let mut tiff: Vec<u8> = Vec::new();
    tiff.push(0x49u8);
    tiff.push(0x49u8);
    tiff.push(0x2Au8);
    tiff.push(0x00u8);
    proof {
        assert(tiff@ =~= seq![0x49u8, 0x49u8, 0x2Au8, 0x00u8]);
    }
    push_le32(&mut tiff, 8);
    push_le16(&mut tiff, entries);
    append_ifd_entry(&mut tiff, 0x0132, 2, n, dt0);
    append_ifd_entry(&mut tiff, 0x8769, 4, 1, exif_ifd);
    let ghost before_gps = tiff@;
    if with_gps {
        append_ifd_entry(&mut tiff, 0x8825, 4, 1, gps_ifd);
    } else {
        proof {
            assert(before_gps + Seq::<u8>::empty() =~= before_gps);
        }
    }
    proof {
        assert(tiff@ == before_gps + (if with_gps {
            ifd_entry(0x8825, 4, 1, gps_ifd_offset(n as int))
        } else {
            Seq::<u8>::empty()
        }));
    }
    push_le32(&mut tiff, 0);
    push_bytes(&mut tiff, dt);
    push_le16(&mut tiff, 1);
    append_ifd_entry(&mut tiff, 0x9003, 2, n, dto);
    push_le32(&mut tiff, 0);
    push_bytes(&mut tiff, dt);
    tiff
}

fn append_tiff_gps(tiff: &mut Vec<u8>, g: GpsFix, n: u32)
    requires
        n < 0x1000_0000,
    ensures
        final(tiff)@ == old(tiff)@ + tiff_gps(g, n as int),
{
    let lat_off: u32 = 8 + 2 + 3 * 12 + 4 + n + 18 + n + 54;
    let lng_off: u32 = lat_off + 24;
    push_le16(tiff, 4);
    append_ifd_entry_ascii_inline(tiff, 0x0001, g.lat_ref);
    append_ifd_entry(tiff, 0x0002, 5, 3, lat_off);
    append_ifd_entry_ascii_inline(tiff, 0x0003, g.lng_ref);
    append_ifd_entry(tiff, 0x0004, 5, 3, lng_off);
    push_le32(tiff, 0);
    let ghost mid = tiff@;
    append_rational_triplet(tiff, g.lat);
    append_rational_triplet(tiff, g.lng);
    proof {
        assert(mid =~= old(tiff)@ + (le16(4) + ascii_inline_entry(0x0001, g.lat_ref) + ifd_entry(
            0x0002,
            5,
            3,
            gps_lat_offset(n as int),
        ) + ascii_inline_entry(0x0003, g.lng_ref) + ifd_entry(0x0004, 5, 3, gps_lng_offset(n as int))
            + le32(0)));
        assert(final(tiff)@ =~= old(tiff)@ + tiff_gps(g, n as int));
    }
}

/// The APP1 payload recording `date_time` (without its NUL) and, where
/// given, a GPS position.
pub fn build_exif_payload(date_time: &Vec<u8>, gps: Option<GpsFix>) -> (r: Vec<u8>)
    requires
        date_time@.len() < 0x1000_0000 - 1,
    ensures
        r@ == exif_payload_spec(date_time@, gps),
{
    let mut dt = date_time.clone();
    dt.push(0u8);
    proof {
        assert(dt@ =~= date_time@.push(0u8));
    }
    let n = dt.len() as u32;
    let mut tiff = build_tiff_main(&dt, gps.is_some());
    match gps {
        Some(g) => {
            append_tiff_gps(&mut tiff, g, n);
        },
        None => {},
    }
    let mut payload: Vec<u8> = Vec::new();
    payload.push(0x45u8);
    payload.push(0x78u8);
    payload.push(0x69u8);
    payload.push(0x66u8);
    payload.push(0u8);
    payload.push(0u8);
    proof {
        assert(payload@ =~= seq![0x45u8, 0x78u8, 0x69u8, 0x66u8, 0u8, 0u8]);
    }
    push_bytes(&mut payload, &tiff);
    payload
}

/// The part of the TIFF structure before the first copy of the date.
pub open spec fn tiff_prefix(n: int, with_gps: bool) -> Seq<u8> {
    seq![0x49u8, 0x49u8, 0x2Au8, 0x00u8] + le32(8) + le16(ifd0_entries(with_gps)) + ifd_entry(
        0x0132,
        2,
        n,
        dt0_offset(with_gps),
    ) + ifd_entry(0x8769, 4, 1, exif_ifd_offset(with_gps, n)) + (if with_gps {
        ifd_entry(0x8825, 4, 1, gps_ifd_offset(n))
    } else {
        Seq::empty()
    }) + le32(0)
}

proof fn lemma_tiff_main_layout(dt: Seq<u8>, wg: bool)
    ensures
        ({
            let t = tiff_main(dt, wg);
            let n = dt.len() as int;
            &&& t.len() == dto_offset(wg, n) + n
            &&& t.subrange(dt0_offset(wg), dt0_offset(wg) + n) == dt
            &&& t.subrange(exif_ifd_offset(wg, n), exif_ifd_offset(wg, n) + 2) == le16(1)
            &&& t.subrange(dto_offset(wg, n), dto_offset(wg, n) + n) == dt
        }),
{
    let n = dt.len() as int;
    let p = tiff_prefix(n, wg);
    let q = le16(1) + ifd_entry(0x9003, 2, n, dto_offset(wg, n)) + le32(0);
    assert(p.len() == dt0_offset(wg));
    assert(q.len() == 18);
    let main = tiff_main(dt, wg);
    assert(main =~= p + dt + q + dt);
    assert(main.subrange(dt0_offset(wg), dt0_offset(wg) + n) =~= dt);
    assert(main.subrange(exif_ifd_offset(wg, n), exif_ifd_offset(wg, n) + 2) =~= le16(1));
    assert(main.subrange(dto_offset(wg, n), dto_offset(wg, n) + n) =~= dt);
}

proof fn lemma_concat_inner(x: Seq<u8>, y: Seq<u8>, i: int, j: int)
    requires
        0 <= i <= j <= x.len(),
    ensures
        (x + y).subrange(i, j) == x.subrange(i, j),
{
    assert((x + y).subrange(i, j) =~= x.subrange(i, j));
}

proof fn lemma_concat_right(x: Seq<u8>, y: Seq<u8>, i: int, j: int)
    requires
        0 <= i <= j <= y.len(),
    ensures
        (x + y).subrange(x.len() + i, x.len() + j) == y.subrange(i, j),
{
    assert((x + y).subrange(x.len() + i, x.len() + j) =~= y.subrange(i, j));
}

proof fn lemma_tiff_gps_layout(main: Seq<u8>, g: GpsFix, n: int)
    requires
        main.len() == gps_ifd_offset(n),
    ensures
        ({
            let t = main + tiff_gps(g, n);
            &&& t.subrange(gps_ifd_offset(n), gps_ifd_offset(n) + 2) == le16(4)
            &&& t.subrange(gps_lat_offset(n), gps_lat_offset(n) + 24) == rational_triplet(g.lat@)
            &&& t.subrange(gps_lng_offset(n), gps_lng_offset(n) + 24) == rational_triplet(g.lng@)
            &&& t.len() == gps_lng_offset(n) + 24
        }),
{
    let h1 = le16(4);
    let h2 = ascii_inline_entry(0x0001, g.lat_ref) + ifd_entry(0x0002, 5, 3, gps_lat_offset(n))
        + ascii_inline_entry(0x0003, g.lng_ref) + ifd_entry(0x0004, 5, 3, gps_lng_offset(n)) + le32(0);
    let h = h1 + h2;
    let la = rational_triplet(g.lat@);
    let lo = rational_triplet(g.lng@);
    assert(h2.len() == 52);
    assert(la.len() == 24);
    assert(lo.len() == 24);
    assert(tiff_gps(g, n) =~= h + la + lo);
    let t = main + tiff_gps(g, n);
    assert(t =~= ((main + h) + la) + lo);
    let m = main.len() as int;
    // the GPS sub-IFD count
    lemma_concat_inner(h1, h2, 0, 2);
    assert(h1.subrange(0, 2) =~= h1);
    lemma_concat_right(main, h, 0, 2);
    lemma_concat_inner(main + h, la, m, m + 2);
    lemma_concat_inner((main + h) + la, lo, m, m + 2);
    // the latitude
    lemma_concat_right(main + h, la, 0, 24);
    assert(la.subrange(0, 24) =~= la);
    lemma_concat_inner((main + h) + la, lo, m + 54, m + 78);
    // the longitude
    lemma_concat_right((main + h) + la, lo, 0, 24);
    assert(lo.subrange(0, 24) =~= lo);
}

/// Every offset that the TIFF structure records points at what it names:
/// both copies of the date, the EXIF sub-IFD and, with a position, the GPS
/// sub-IFD and its two rational triplets; nothing follows the last of them.
pub proof fn law_exif_offsets(dt: Seq<u8>, gps: Option<GpsFix>)
    ensures
        ({
            let t = tiff_spec(dt, gps);
            let n = dt.len() as int;
            let wg = gps is Some;
            &&& t.subrange(dt0_offset(wg), dt0_offset(wg) + n) == dt
            &&& t.subrange(exif_ifd_offset(wg, n), exif_ifd_offset(wg, n) + 2) == le16(1)
            &&& t.subrange(dto_offset(wg, n), dto_offset(wg, n) + n) == dt
            &&& !wg ==> t.len() == dto_offset(wg, n) + n
            &&& wg ==> {
                &&& t.subrange(gps_ifd_offset(n), gps_ifd_offset(n) + 2) == le16(4)
                &&& t.subrange(gps_lat_offset(n), gps_lat_offset(n) + 24) == rational_triplet(
                    gps->0.lat@,
                )
                &&& t.subrange(gps_lng_offset(n), gps_lng_offset(n) + 24) == rational_triplet(
                    gps->0.lng@,
                )
                &&& t.len() == gps_lng_offset(n) + 24
            }
        }),
{
    let n = dt.len() as int;
    let wg = gps is Some;
    lemma_tiff_main_layout(dt, wg);
    match gps {
        Some(g) => {
            let main = tiff_main(dt, true);
            lemma_tiff_gps_layout(main, g, n);
            let gp = tiff_gps(g, n);
            lemma_concat_inner(main, gp, dt0_offset(wg), dt0_offset(wg) + n);
            lemma_concat_inner(main, gp, exif_ifd_offset(wg, n), exif_ifd_offset(wg, n) + 2);
            lemma_concat_inner(main, gp, dto_offset(wg, n), dto_offset(wg, n) + n);
        },
        None => {},
    }
}

// ---------------------------------------------------------------------------
// Splicing into a JPEG file
// ---------------------------------------------------------------------------

/// Why the EXIF block could not be written.
#[derive(Clone, Copy, Debug, PartialEq, Eq, Structural)]
pub enum ExifWriteError {
    InvalidDateTime,
    NotJpeg,
}

/// The length of an EXIF date and time, `YYYY:MM:DD HH:MM:SS`, in bytes.
pub const EXIF_DATETIME_LEN: usize = 19;

/// The file with the APP1 segment put right after its start marker.
pub open spec fn jpeg_with_exif(jpeg: Seq<u8>, payload: Seq<u8>) -> Seq<u8> {
    jpeg.take(2) + seq![0xFFu8, 0xE1u8] + be16(payload.len() + 2int) + payload + jpeg.skip(2)
}

pub open spec fn is_jpeg_start(jpeg: Seq<u8>) -> bool {
    jpeg.len() >= 4 && jpeg[0] == 0xFFu8 && jpeg[1] == 0xD8u8
}

pub open spec fn splice_spec(jpeg: Seq<u8>, date_time: Seq<u8>, gps: Option<GpsFix>) -> Result<
    Seq<u8>,
    ExifWriteError,
> {
    if date_time.len() != EXIF_DATETIME_LEN {
        Err(ExifWriteError::InvalidDateTime)
    } else if !is_jpeg_start(jpeg) {
        Err(ExifWriteError::NotJpeg)
    } else {
        Ok(jpeg_with_exif(jpeg, exif_payload_spec(date_time, gps)))
    }
}

/// Whether a capture time has the length of `YYYY:MM:DD HH:MM:SS`.
pub fn exif_datetime_ok(date_time: &Vec<u8>) -> (r: bool)
    ensures
        r == (date_time@.len() == EXIF_DATETIME_LEN),
{
    date_time.len() == EXIF_DATETIME_LEN
}

/// The JPEG file with an EXIF block recording the capture time and, where
/// given, the position.
pub fn splice_exif(jpeg: &Vec<u8>, date_time: &Vec<u8>, gps: Option<GpsFix>) -> (r: Result<
    Vec<u8>,
    ExifWriteError,
>)
    requires
        jpeg@.len() + 256 <= usize::MAX,
    ensures
        match splice_spec(jpeg@, date_time@, gps) {
            Ok(bytes) => r is Ok && r->Ok_0@ == bytes,
            Err(e) => r == Err::<Vec<u8>, ExifWriteError>(e),
        },
{
    if !exif_datetime_ok(date_time) {
        return Err(ExifWriteError::InvalidDateTime);
    }
    if jpeg.len() < 4 || jpeg[0] != 0xFFu8 || jpeg[1] != 0xD8u8 {
        return Err(ExifWriteError::NotJpeg);
    }
    let payload = build_exif_payload(date_time, gps);
    proof {
        law_exif_offsets(date_time@.push(0u8), gps);
        assert(payload@.len() <= 256);
    }
    let seg_len = (payload.len() + 2) as u16;
    let mut out: Vec<u8> = Vec::new();
    out.push(jpeg[0]);
    out.push(jpeg[1]);
    out.push(0xFFu8);
    out.push(0xE1u8);
    out.push((seg_len / 256) as u8);
    out.push((seg_len % 256) as u8);
    proof {
        assert(out@ =~= jpeg@.take(2) + seq![0xFFu8, 0xE1u8] + be16(payload@.len() + 2int));
    }
    push_bytes(&mut out, &payload);
    let mut i: usize = 2;
    let ghost mid = out@;
    while i < jpeg.len()
        invariant
            2 <= i <= jpeg.len(),
            out@ == mid + jpeg@.subrange(2, i as int),
        decreases jpeg.len() - i,
    {
        out.push(jpeg[i]);
        i += 1;
        proof {
            assert(out@ =~= mid + jpeg@.subrange(2, i as int));
        }
    }
    proof {
        assert(jpeg@.subrange(2, jpeg@.len() as int) =~= jpeg@.skip(2));
    }
    Ok(out)
}

impl ExifWriteError {
    /// The message shown for the error, naming the capture time or the
    /// file.
    pub fn message(&self, date_time: &str, path: &str) -> (r: String)
        ensures
            r@ == match *self {
                ExifWriteError::InvalidDateTime => "invalid exif datetime format '"@ + date_time@
                    + "', expect YYYY:MM:DD HH:MM:SS"@,
                ExifWriteError::NotJpeg => path@ + " is not a valid jpeg file"@,
            },
    {
        match self {
            ExifWriteError::InvalidDateTime => {
                let mut r = string_of("invalid exif datetime format '");
                append_str(&mut r, date_time);
                append_str(&mut r, "', expect YYYY:MM:DD HH:MM:SS");
                r
            },
            ExifWriteError::NotJpeg => {
                let mut r = string_of(path);
                append_str(&mut r, " is not a valid jpeg file");
                r
            },
        }
    }
}

} // verus!
