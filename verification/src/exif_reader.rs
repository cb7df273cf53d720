//! What a scan keeps of a photo's EXIF data: every field as text (kept as
//! a JSON object), and the capture time, read from `DateTimeOriginal` or
//! else `DateTime` of the primary image.

use vstd::prelude::*;
use exif::{Context, Value};
use crate::exif_writer::GpsFix;
use crate::json::{json_object, json_object_text};
use crate::text::{trim_seq, trimmed};

verus! {

/// One EXIF field as the reader reports it: its tag (as `Debug` shows
/// it), its value as displayed with its unit, the IFD it belongs to, and
/// the tag's context (0 TIFF, 1 Exif, 2 GPS, 3 interoperability, 4 other)
/// and number, and the numerators and denominators of a rational value
/// (none for other values).
#[derive(Debug, Clone)]
pub struct ExifField {
    pub key: String,
    pub value: String,
    pub ifd: u16,
    pub context: u8,
    pub number: u16,
    pub rationals: Vec<(u32, u32)>,
}

pub type ExifFieldView = (Seq<char>, Seq<char>, u16, u8, u16, Seq<(u32, u32)>);

pub open spec fn field_view(f: ExifField) -> ExifFieldView {
    (f.key@, f.value@, f.ifd, f.context, f.number, f.rationals@)
}

pub open spec fn fields_view(v: Seq<ExifField>) -> Seq<ExifFieldView> {
    v.map_values(|f: ExifField| field_view(f))
}

/// The fields `exif::Reader::read_from_container` finds in a file's bytes,
/// or `None` where it finds no EXIF data.
pub uninterp spec fn exif_fields_of(bytes: Seq<u8>) -> Option<Seq<ExifFieldView>>;

/// `NaiveDateTime::parse_from_str(value, format)` written as an RFC 3339
/// time in UTC, or `None` where the text does not match the format.
pub uninterp spec fn naive_datetime_rfc3339(value: Seq<char>, format: Seq<char>) -> Option<Seq<char>>;


/// `exif::Reader::new().read_from_container` over the bytes of a file,
/// each field turned into plain text and numbers (rational values also as
/// their numerator/denominator pairs).
#[verifier::external_body]
fn read_exif_fields(bytes: &Vec<u8>) -> (r: Option<Vec<ExifField>>)
    ensures
        match r {
            Some(v) => exif_fields_of(bytes@) == Some(fields_view(v@)),
            None => exif_fields_of(bytes@) is None,
        },
{
    let r = exif::Reader::new().read_from_container(&mut std::io::Cursor::new(bytes));
    r.ok().map(|exif| exif.fields().map(|f| ExifField {
        key: format!("{:?}", f.tag),
        value: f.display_value().with_unit(&exif).to_string(),
        ifd: f.ifd_num.0,
        context: match f.tag.0 { Context::Tiff => 0, Context::Exif => 1, Context::Gps => 2, Context::Interop => 3, _ => 4 },
        number: f.tag.1,
        rationals: match &f.value { Value::Rational(v) => v.iter().map(|x| (x.num, x.denom)).collect(), _ => Vec::new() },
    }).collect())
}

/// `NaiveDateTime::parse_from_str(value, format)`, then `to_rfc3339` of
/// that time taken as UTC.
#[verifier::external_body]
fn parse_naive_datetime(value: &str, format: &str) -> (r: Option<String>)
    ensures
        match r {
            Some(t) => naive_datetime_rfc3339(value@, format@) == Some(t@),
            None => naive_datetime_rfc3339(value@, format@) is None,
        },
{
    match chrono::NaiveDateTime::parse_from_str(value, format) {
        Ok(t) => Some(chrono::DateTime::<chrono::Utc>::from_naive_utc_and_offset(t, chrono::Utc).to_rfc3339()),
        Err(_) => None,
    }
}

/// The EXIF way of writing a capture time, and the way the EXIF reader
/// displays one.
pub open spec fn exif_time_format() -> Seq<char> {
    "%Y:%m:%d %H:%M:%S"@
}

pub open spec fn shown_time_format() -> Seq<char> {
    "%Y-%m-%d %H:%M:%S"@
}

pub open spec fn capture_time_spec(value: Seq<char>) -> Option<Seq<char>> {
    match naive_datetime_rfc3339(trim_seq(value), exif_time_format()) {
        Some(t) => Some(t),
        None => naive_datetime_rfc3339(trim_seq(value), shown_time_format()),
    }
}

/// A capture time as RFC 3339 in UTC: the text (trimmed) in the EXIF
/// format `YYYY:MM:DD HH:MM:SS`, or as the reader displays it,
/// `YYYY-MM-DD HH:MM:SS`.
pub fn parse_exif_datetime_to_rfc3339(value: &str) -> (r: Option<String>)
    ensures
        match r {
            Some(t) => capture_time_spec(value@) == Some(t@),
            None => capture_time_spec(value@) is None,
        },
{
    let t = trimmed(value);
    match parse_naive_datetime(t.as_str(), "%Y:%m:%d %H:%M:%S") {
        Some(s) => Some(s),
        None => parse_naive_datetime(t.as_str(), "%Y-%m-%d %H:%M:%S"),
    }
}

/// The index of the last field of the primary image with the given tag.
pub open spec fn last_field_with(fs: Seq<ExifFieldView>, context: u8, number: u16, n: int) -> Option<int>
    decreases n,
{
    if n <= 0 || n > fs.len() {
        None
    } else if fs[n - 1].2 == 0 && fs[n - 1].3 == context && fs[n - 1].4 == number {
        Some(n - 1)
    } else {
        last_field_with(fs, context, number, n - 1)
    }
}

proof fn lemma_last_field_with(fs: Seq<ExifFieldView>, context: u8, number: u16, n: int)
    ensures
        last_field_with(fs, context, number, n) matches Some(i) ==> 0 <= i < n && i < fs.len(),
    decreases n,
{
    if n > 0 && n <= fs.len() {
        lemma_last_field_with(fs, context, number, n - 1);
    }
}

/// Where the capture time is read from: `DateTimeOriginal` (Exif 0x9003),
/// else `DateTime` (TIFF 0x0132), of the primary image.
pub open spec fn shot_field(fs: Seq<ExifFieldView>) -> Option<int> {
    match last_field_with(fs, 1, 0x9003, fs.len() as int) {
        Some(i) => Some(i),
        None => last_field_with(fs, 0, 0x0132, fs.len() as int),
    }
}

fn find_last_field(fields: &Vec<ExifField>, context: u8, number: u16) -> (r: Option<usize>)
    ensures
        match r {
            Some(i) => last_field_with(fields_view(fields@), context, number, fields@.len() as int)
                == Some(i as int),
            None => last_field_with(fields_view(fields@), context, number, fields@.len() as int)
                is None,
        },
{
    let ghost fv = fields_view(fields@);
    let mut n = fields.len();
    while n > 0
        invariant
            n <= fields@.len(),
            fv == fields_view(fields@),
            last_field_with(fv, context, number, fields@.len() as int) == last_field_with(
                fv,
                context,
                number,
                n as int,
            ),
        decreases n,
    {
        let f = &fields[n - 1];
        proof {
            assert(fv[n - 1] == field_view(fields@[n - 1]));
        }
        if f.ifd == 0 && f.context == context && f.number == number {
            return Some(n - 1);
        }
        n -= 1;
    }
    None
}

pub open spec fn exif_pairs(fs: Seq<ExifFieldView>) -> Seq<(Seq<char>, Seq<char>)> {
    fs.map_values(|f: ExifFieldView| (f.0, f.1))
}

/// The capture time and the JSON object of all fields (none where there
/// are no fields).
pub open spec fn exif_summary_spec(fs: Seq<ExifFieldView>) -> (Option<Seq<char>>, Option<Seq<char>>) {
    (
        match shot_field(fs) {
            Some(i) => capture_time_spec(fs[i].1),
            None => None,
        },
        if fs.len() == 0 {
            None
        } else {
            Some(json_object_text(exif_pairs(fs)))
        },
    )
}

pub open spec fn opt_text(o: Option<String>) -> Option<Seq<char>> {
    match o {
        Some(s) => Some(s@),
        None => None,
    }
}

/// What a scan keeps of a photo's EXIF fields.
pub fn exif_summary(fields: &Vec<ExifField>) -> (r: (Option<String>, Option<String>))
    ensures
        (opt_text(r.0), opt_text(r.1)) == exif_summary_spec(fields_view(fields@)),
{
    let ghost fv = fields_view(fields@);
    proof {
        lemma_last_field_with(fv, 1, 0x9003, fv.len() as int);
        lemma_last_field_with(fv, 0, 0x0132, fv.len() as int);
    }
    let idx = match find_last_field(fields, 1, 0x9003) {
        Some(i) => Some(i),
        None => find_last_field(fields, 0, 0x0132),
    };
    let shot_at = match idx {
        Some(i) => {
            proof {
                assert(fv[i as int] == field_view(fields@[i as int]));
            }
            parse_exif_datetime_to_rfc3339(fields[i].value.as_str())
        },
        None => None,
    };
    if fields.len() == 0 {
        return (shot_at, None);
    }
    let mut pairs: Vec<(String, String)> = Vec::new();
    let mut i: usize = 0;
    while i < fields.len()
        invariant
            i <= fields@.len(),
            fv == fields_view(fields@),
            pairs@.len() == i,
            forall|k: int|
                0 <= k < i ==> (#[trigger] pairs@[k]).0@ == fields@[k].key@ && pairs@[k].1@
                    == fields@[k].value@,
        decreases fields.len() - i,
    {
        pairs.push((fields[i].key.clone(), fields[i].value.clone()));
        i += 1;
    }
    proof {
        assert(pairs@.map_values(|p: (String, String)| (p.0@, p.1@)) =~= exif_pairs(fv));
    }
    let json = json_object(&pairs);
    (shot_at, Some(json))
}

/// What a scan keeps of the EXIF data in a photo file's bytes: nothing
/// where the reader finds none.
pub fn parse_exif_for_scan(bytes: &Vec<u8>) -> (r: (Option<String>, Option<String>))
    ensures
        (opt_text(r.0), opt_text(r.1)) == match exif_fields_of(bytes@) {
            Some(fs) => exif_summary_spec(fs),
            None => (None, None),
        },
{
    match read_exif_fields(bytes) {
        Some(fields) => exif_summary(&fields),
        None => (None, None),
    }
}

/// The hemisphere of a latitude reference (`N` or `S`), as its letter.
pub open spec fn lat_ref_of(text: Seq<char>) -> Option<u8> {
    if text == "N"@ {
        Some(0x4Eu8)
    } else if text == "S"@ {
        Some(0x53u8)
    } else {
        None
    }
}

/// The hemisphere of a longitude reference (`E` or `W`), as its letter.
pub open spec fn lng_ref_of(text: Seq<char>) -> Option<u8> {
    if text == "E"@ {
        Some(0x45u8)
    } else if text == "W"@ {
        Some(0x57u8)
    } else {
        None
    }
}

/// Degrees, minutes and seconds, each a rational with a denominator.
pub open spec fn dms_ok(r: Seq<(u32, u32)>) -> bool {
    r.len() == 3 && r[0].1 > 0 && r[1].1 > 0 && r[2].1 > 0
}

/// The position the GPS data of the primary image records:
/// `GPSLatitudeRef` (1), `GPSLatitude` (2), `GPSLongitudeRef` (3) and
/// `GPSLongitude` (4), the last of each; none where one is missing, a
/// reference is not a hemisphere letter, or an angle is not three
/// rationals with denominators.
pub open spec fn gps_spec(fs: Seq<ExifFieldView>) -> Option<(u8, Seq<(u32, u32)>, u8, Seq<(u32, u32)>)> {
    let n = fs.len() as int;
    match (
        last_field_with(fs, 2, 1, n),
        last_field_with(fs, 2, 2, n),
        last_field_with(fs, 2, 3, n),
        last_field_with(fs, 2, 4, n),
    ) {
        (Some(a), Some(b), Some(c), Some(d)) => match (lat_ref_of(fs[a].1), lng_ref_of(fs[c].1)) {
            (Some(x), Some(y)) => if dms_ok(fs[b].5) && dms_ok(fs[d].5) {
                Some((x, fs[b].5, y, fs[d].5))
            } else {
                None
            },
            _ => None,
        },
        _ => None,
    }
}

pub open spec fn gps_matches(r: Option<GpsFix>, g: Option<(u8, Seq<(u32, u32)>, u8, Seq<(u32, u32)>)>) -> bool {
    match g {
        Some(g) => r matches Some(f) && f.lat_ref == g.0 && f.lat@ == g.1 && f.lng_ref == g.2
            && f.lng@ == g.3,
        None => r is None,
    }
}

fn ref_letter(text: &String, pos: char, neg: char) -> (r: Option<u8>)
    requires
        (pos == 'N' && neg == 'S') || (pos == 'E' && neg == 'W'),
    ensures
        pos == 'N' ==> r == lat_ref_of(text@),
        pos == 'E' ==> r == lng_ref_of(text@),
{
    proof {
        reveal_strlit("N");
        reveal_strlit("S");
        reveal_strlit("E");
        reveal_strlit("W");
        assert("N"@ =~= seq!['N']);
        assert("S"@ =~= seq!['S']);
        assert("E"@ =~= seq!['E']);
        assert("W"@ =~= seq!['W']);
    }
    let v = text.as_str();
    if v.unicode_len() != 1 {
        return None;
    }
    let c = v.get_char(0);
    proof {
        assert(text@ =~= seq![c]);
    }
    if c == pos {
        if pos == 'N' { Some(0x4Eu8) } else { Some(0x45u8) }
    } else if c == neg {
        if neg == 'S' { Some(0x53u8) } else { Some(0x57u8) }
    } else {
        None
    }
}

fn dms_of(r: &Vec<(u32, u32)>) -> (out: Option<[(u32, u32); 3]>)
    ensures
        match out {
            Some(a) => dms_ok(r@) && a@ == r@,
            None => !dms_ok(r@),
        },
{
    if r.len() != 3 || r[0].1 == 0 || r[1].1 == 0 || r[2].1 == 0 {
        return None;
    }
    let a = [r[0], r[1], r[2]];
    proof {
        assert(a@ =~= r@);
    }
    Some(a)
}

/// The position the EXIF fields record (see `gps_spec`).
pub fn gps_of(fields: &Vec<ExifField>) -> (r: Option<GpsFix>)
    ensures
        gps_matches(r, gps_spec(fields_view(fields@))),
{
    let ghost fv = fields_view(fields@);
    proof {
        lemma_last_field_with(fv, 2, 1, fv.len() as int);
        lemma_last_field_with(fv, 2, 2, fv.len() as int);
        lemma_last_field_with(fv, 2, 3, fv.len() as int);
        lemma_last_field_with(fv, 2, 4, fv.len() as int);
    }
    let a = match find_last_field(fields, 2, 1) {
        Some(i) => i,
        None => return None,
    };
    let b = match find_last_field(fields, 2, 2) {
        Some(i) => i,
        None => return None,
    };
    let c = match find_last_field(fields, 2, 3) {
        Some(i) => i,
        None => return None,
    };
    let d = match find_last_field(fields, 2, 4) {
        Some(i) => i,
        None => return None,
    };
    proof {
        assert(fv[a as int] == field_view(fields@[a as int]));
        assert(fv[b as int] == field_view(fields@[b as int]));
        assert(fv[c as int] == field_view(fields@[c as int]));
        assert(fv[d as int] == field_view(fields@[d as int]));
    }
    let lat_ref = match ref_letter(&fields[a].value, 'N', 'S') {
        Some(x) => x,
        None => return None,
    };
    let lng_ref = match ref_letter(&fields[c].value, 'E', 'W') {
        Some(x) => x,
        None => return None,
    };
    let lat = match dms_of(&fields[b].rationals) {
        Some(x) => x,
        None => return None,
    };
    let lng = match dms_of(&fields[d].rationals) {
        Some(x) => x,
        None => return None,
    };
    Some(GpsFix { lat_ref, lat, lng_ref, lng })
}

/// The position recorded in the EXIF data of a photo file's bytes; none
/// where the reader finds no EXIF data.
pub fn gps_for_scan(bytes: &Vec<u8>) -> (r: Option<GpsFix>)
    ensures
        gps_matches(
            r,
            match exif_fields_of(bytes@) {
                Some(fs) => gps_spec(fs),
                None => None,
            },
        ),
{
    match read_exif_fields(bytes) {
        Some(fields) => gps_of(&fields),
        None => None,
    }
}

} // verus!
