//! Planning of generated test libraries: which strategy a name selects,
//! which Saturdays a family-weekend plan visits, and the names, EXIF date
//! and file time of each planned photo.

use vstd::prelude::*;
use crate::calendar::{
    chrono_date_exists, days_before_month, days_in_month, is_leap_year, lemma_days_before_december,
    leap_year, month_days, unix_seconds, utc_timestamp, valid_civil_date, weekday_from_monday,
    weekday_of, year_in_range, year_len,
};
use crate::album_rules::{album_from_dir_spec, album_match, dot_key};
use crate::calendar::iso_date_text;
use crate::ordering::{lemma_text_lt_irreflexive, lemma_text_lt_transitive, lemma_text_trichotomy, text_less, text_lt};
use crate::text::{
    all_digits, digits_value, first_index_from, is_digit, lemma_first_index_from, lemma_padded_decimal,
    parse_i32_spec, parse_u32_spec, ten_pow, trim_seq,
    append_str, chars_of, decimal_text, int_error_text, int_parse_outcome, padded_decimal, parse_int_detailed,
    push_char, push_padded_decimal, same_text, string_of, IntErrorKind,
};

verus! {

/// How many weekends a family-weekend plan visits and how many photos
/// each trip takes.
#[derive(Clone, Copy, Debug, PartialEq, Eq)]
pub struct FamilyWeekendSpec {
    pub max_weekends: Option<usize>,
    pub min_photos_per_trip: u32,
    pub max_photos_per_trip: u32,
}

/// What a strategy name selects.
#[derive(Clone, Copy, Debug, PartialEq, Eq)]
pub enum PlanStrategy {
    Sample,
    FamilyWeekends(FamilyWeekendSpec),
}

pub open spec fn strategy_spec(name: Seq<char>) -> Option<PlanStrategy> {
    if name == "sample"@ {
        Some(PlanStrategy::Sample)
    } else if name == "family_us_weekends_small"@ {
        Some(
            PlanStrategy::FamilyWeekends(
                FamilyWeekendSpec {
                    max_weekends: Some(4),
                    min_photos_per_trip: 3,
                    max_photos_per_trip: 6,
                },
            ),
        )
    } else if name == "family_us_weekends_medium"@ {
        Some(
            PlanStrategy::FamilyWeekends(
                FamilyWeekendSpec {
                    max_weekends: Some(12),
                    min_photos_per_trip: 8,
                    max_photos_per_trip: 16,
                },
            ),
        )
    } else if name == "family_us_weekends_2025"@ || name == "family_us_weekends"@ {
        Some(
            PlanStrategy::FamilyWeekends(
                FamilyWeekendSpec {
                    max_weekends: None,
                    min_photos_per_trip: 10,
                    max_photos_per_trip: 100,
                },
            ),
        )
    } else {
        None
    }
}

/// The strategy a name selects, or `unknown strategy: <name>`.
pub fn plan_strategy(name: &str) -> (r: Result<PlanStrategy, String>)
    ensures
        match strategy_spec(name@) {
            Some(s) => r == Ok::<PlanStrategy, String>(s),
            None => r is Err && r->Err_0@ == "unknown strategy: "@ + name@,
        },
{
    if same_text(name, "sample") {
        Ok(PlanStrategy::Sample)
    } else if same_text(name, "family_us_weekends_small") {
        Ok(
            PlanStrategy::FamilyWeekends(
                FamilyWeekendSpec {
                    max_weekends: Some(4),
                    min_photos_per_trip: 3,
                    max_photos_per_trip: 6,
                },
            ),
        )
    } else if same_text(name, "family_us_weekends_medium") {
        Ok(
            PlanStrategy::FamilyWeekends(
                FamilyWeekendSpec {
                    max_weekends: Some(12),
                    min_photos_per_trip: 8,
                    max_photos_per_trip: 16,
                },
            ),
        )
    } else if same_text(name, "family_us_weekends_2025") || same_text(name, "family_us_weekends") {
        Ok(
            PlanStrategy::FamilyWeekends(
                FamilyWeekendSpec {
                    max_weekends: None,
                    min_photos_per_trip: 10,
                    max_photos_per_trip: 100,
                },
            ),
        )
    } else {
        let mut msg = string_of("unknown strategy: ");
        append_str(&mut msg, name);
        Err(msg)
    }
}

// ---------------------------------------------------------------------------
// Saturdays of a year
// ---------------------------------------------------------------------------

/// The `k`-th day (counted from 0) of year `y`, as `(month, day)`.
pub open spec fn date_at(y: int, k: nat) -> (int, int)
    decreases k,
{
    if k == 0 {
        (1, 1)
    } else {
        let p = date_at(y, (k - 1) as nat);
        if p.1 < days_in_month(y, p.0) {
            (p.0, p.1 + 1)
        } else {
            (p.0 + 1, 1)
        }
    }
}

/// The Saturdays among the first `k` days of year `y`, in order.
pub open spec fn saturdays_upto(y: int, k: nat) -> Seq<(int, int)>
    decreases k,
{
    if k == 0 {
        Seq::empty()
    } else {
        let p = date_at(y, (k - 1) as nat);
        if weekday_from_monday(y, p.0, p.1) == 5 {
            saturdays_upto(y, (k - 1) as nat).push(p)
        } else {
            saturdays_upto(y, (k - 1) as nat)
        }
    }
}

/// The Saturdays of year `y`, in order.
pub open spec fn year_saturdays(y: int) -> Seq<(int, int)> {
    saturdays_upto(y, year_len(y) as nat)
}

/// Whether walking the year for `max` weekends reaches its last day.
pub open spec fn walks_whole_year(y: int, max: Option<usize>) -> bool {
    match max {
        Some(n) => year_saturdays(y).len() <= n,
        None => true,
    }
}

/// The Saturdays a plan visits: those of the year, at most `max` of them.
pub open spec fn planned_saturdays(y: int, max: Option<usize>) -> Seq<(int, int)> {
    if walks_whole_year(y, max) {
        year_saturdays(y)
    } else {
        year_saturdays(y).take(max->0 as int)
    }
}

/// The last year a calendar date may carry: its last day has no
/// successor.
pub const LAST_YEAR: i32 = 262142;

pub open spec fn dates_view(v: Seq<(u32, u32)>) -> Seq<(int, int)> {
    v.map_values(|p: (u32, u32)| (p.0 as int, p.1 as int))
}

/// `{}` of a signed integer.
pub open spec fn signed_decimal(n: int) -> Seq<char> {
    if n < 0 {
        seq!['-'] + decimal_text((-n) as nat)
    } else {
        decimal_text(n as nat)
    }
}

pub fn signed_decimal_string(n: i64) -> (r: String)
    requires
        n > i64::MIN,
    ensures
        r@ == signed_decimal(n as int),
{
    let mut r = String::new();
    if n < 0 {
        push_char(&mut r, '-');
        let mag: i64 = -n;
        push_padded_decimal(&mut r, mag as u64, 1);
    } else {
        push_padded_decimal(&mut r, n as u64, 1);
    }
    proof {
        assert(r@ =~= signed_decimal(n as int));
    }
    r
}

proof fn lemma_saturdays_prefix(y: int, j: nat, k: nat)
    requires
        j <= k,
    ensures
        saturdays_upto(y, j).len() <= saturdays_upto(y, k).len(),
        saturdays_upto(y, k).take(saturdays_upto(y, j).len() as int) == saturdays_upto(y, j),
    decreases k,
{
    if j == k {
        assert(saturdays_upto(y, k).take(saturdays_upto(y, k).len() as int) =~= saturdays_upto(y, k));
    } else {
        lemma_saturdays_prefix(y, j, (k - 1) as nat);
        let a = saturdays_upto(y, j);
        let b = saturdays_upto(y, (k - 1) as nat);
        let c = saturdays_upto(y, k);
        assert(c.take(a.len() as int) =~= b.take(a.len() as int));
    }
}

/// The position of `(m, d)` in year `y`, counted from 0.
pub open spec fn day_of_year(y: int, p: (int, int)) -> int {
    days_before_month(y, p.0) + p.1 - 1
}

proof fn lemma_date_at(y: int, k: nat)
    requires
        k < year_len(y),
    ensures
        year_in_range(y) ==> valid_civil_date(y, date_at(y, k).0, date_at(y, k).1),
        1 <= date_at(y, k).0 <= 12,
        1 <= date_at(y, k).1 <= days_in_month(y, date_at(y, k).0),
        day_of_year(y, date_at(y, k)) == k,
    decreases k,
{
    lemma_days_before_december(y);
    if k > 0 {
        lemma_date_at(y, (k - 1) as nat);
        let p = date_at(y, (k - 1) as nat);
        reveal_with_fuel(days_before_month, 2);
        if p.1 >= days_in_month(y, p.0) && p.0 == 12 {
            assert(day_of_year(y, p) == year_len(y) - 1);
        }
    }
}

proof fn lemma_saturdays_upto(y: int, k: nat)
    requires
        k <= year_len(y),
    ensures
        forall|i: int|
            0 <= i < saturdays_upto(y, k).len() ==> {
                let p = #[trigger] saturdays_upto(y, k)[i];
                &&& 1 <= p.0 <= 12
                &&& 1 <= p.1 <= days_in_month(y, p.0)
                &&& weekday_from_monday(y, p.0, p.1) == 5
                &&& 0 <= day_of_year(y, p) < k
            },
        forall|i: int, j: int|
            0 <= i < j < saturdays_upto(y, k).len() ==> day_of_year(y, #[trigger] saturdays_upto(y, k)[i])
                < day_of_year(y, #[trigger] saturdays_upto(y, k)[j]),
    decreases k,
{
    if k > 0 {
        lemma_saturdays_upto(y, (k - 1) as nat);
        lemma_date_at(y, (k - 1) as nat);
        let prev = saturdays_upto(y, (k - 1) as nat);
        let cur = saturdays_upto(y, k);
        assert forall|i: int| 0 <= i < cur.len() implies {
            let p = #[trigger] cur[i];
            &&& 1 <= p.0 <= 12
            &&& 1 <= p.1 <= days_in_month(y, p.0)
            &&& weekday_from_monday(y, p.0, p.1) == 5
            &&& 0 <= day_of_year(y, p) < k
        } by {
            if i < prev.len() {
                assert(cur[i] == prev[i]);
            }
        }
        assert forall|i: int, j: int| 0 <= i < j < cur.len() implies day_of_year(y, #[trigger] cur[i])
            < day_of_year(y, #[trigger] cur[j]) by {
            assert(cur[i] == prev[i]);
            if j < prev.len() {
                assert(cur[j] == prev[j]);
            }
        }
    }
}

/// The trips of a weekend plan fall on Saturdays of the plan's year, in
/// date order, each date at most once, and there are no more of them than
/// the plan's limit.
pub proof fn law_planned_trips_are_saturdays(y: int, max: Option<usize>)
    requires
        year_in_range(y),
    ensures
        forall|i: int|
            0 <= i < planned_saturdays(y, max).len() ==> {
                let p = #[trigger] planned_saturdays(y, max)[i];
                &&& valid_civil_date(y, p.0, p.1)
                &&& weekday_from_monday(y, p.0, p.1) == 5
            },
        forall|i: int, j: int|
            0 <= i < j < planned_saturdays(y, max).len() ==> day_of_year(
                y,
                #[trigger] planned_saturdays(y, max)[i],
            ) < day_of_year(y, #[trigger] planned_saturdays(y, max)[j]),
        max matches Some(n) ==> planned_saturdays(y, max).len() <= n,
{
    let all = year_saturdays(y);
    lemma_saturdays_upto(y, year_len(y) as nat);
    let pl = planned_saturdays(y, max);
    if !walks_whole_year(y, max) {
        assert forall|i: int| 0 <= i < pl.len() implies pl[i] == all[i] by {}
    }
    assert forall|i: int| 0 <= i < pl.len() implies {
        let p = #[trigger] pl[i];
        &&& valid_civil_date(y, p.0, p.1)
        &&& weekday_from_monday(y, p.0, p.1) == 5
    } by {
        assert(pl[i] == all[i]);
    }
    assert forall|i: int, j: int| 0 <= i < j < pl.len() implies day_of_year(y, #[trigger] pl[i])
        < day_of_year(y, #[trigger] pl[j]) by {
        assert(pl[i] == all[i]);
        assert(pl[j] == all[j]);
    }
}

/// The Saturdays of `year` that a weekend plan visits, at most
/// `max_weekends` of them, as `(month, day)`. Fails where the year has no
/// dates, or where the walk would step past the last supported day.
pub fn weekend_trip_dates(year: i32, max_weekends: Option<usize>) -> (r: Result<Vec<(u32, u32)>, String>)
    ensures
        !year_in_range(year as int) ==> r is Err && r->Err_0@ == "invalid year "@ + signed_decimal(
            year as int,
        ),
        year_in_range(year as int) && year == LAST_YEAR && walks_whole_year(year as int, max_weekends)
            ==> r is Err && r->Err_0@ == "date overflow"@,
        year_in_range(year as int) && !(year == LAST_YEAR && walks_whole_year(
            year as int,
            max_weekends,
        )) ==> r is Ok && dates_view(r->Ok_0@) == planned_saturdays(year as int, max_weekends),
{
    if !chrono_date_exists(year, 1, 1) {
        proof {
            reveal_with_fuel(days_in_month, 1);
        }
        let mut msg = string_of("invalid year ");
        let t = signed_decimal_string(year as i64);
        append_str(&mut msg, t.as_str());
        return Err(msg);
    }
    let ghost y = year as int;
    let len: u32 = if leap_year(year) {
        366
    } else {
        365
    };
    let mut out: Vec<(u32, u32)> = Vec::new();
    let mut m: u32 = 1;
    let mut d: u32 = 1;
    let mut k: u32 = 0;
    proof {
        lemma_days_before_december(y);
    }
    while k < len
        invariant
            y == year as int,
            year_in_range(y),
            len == year_len(y),
            days_before_month(y, 12) + 31 == year_len(y),
            k <= len,
            k < len ==> date_at(y, k as nat) == (m as int, d as int),
            k < len ==> valid_civil_date(y, m as int, d as int),
            k < len ==> k == days_before_month(y, m as int) + d - 1,
            dates_view(out@) == saturdays_upto(y, k as nat),
            max_weekends matches Some(n) ==> out@.len() <= n,
        decreases len - k,
    {
        if weekday_of(year, m, d) == 5 {
            if let Some(n) = max_weekends {
                if out.len() >= n {
                    proof {
                        lemma_saturdays_prefix(y, (k + 1) as nat, len as nat);
                        let full = year_saturdays(y);
                        assert(saturdays_upto(y, (k + 1) as nat).len() == n + 1);
                        assert(full.take(n as int) =~= full.take(n as int + 1).take(n as int));
                        assert(saturdays_upto(y, (k + 1) as nat).take(n as int) =~= saturdays_upto(
                            y,
                            k as nat,
                        ));
                    }
                    return Ok(out);
                }
            }
            out.push((m, d));
            proof {
                assert(dates_view(out@) =~= saturdays_upto(y, (k + 1) as nat));
            }
        } else {
            proof {
                assert(dates_view(out@) =~= saturdays_upto(y, (k + 1) as nat));
            }
        }
        let dim = month_days(year, m);
        if d < dim {
            d = d + 1;
        } else {
            m = m + 1;
            d = 1;
        }
        k = k + 1;
        proof {
            if k < len {
                reveal_with_fuel(days_before_month, 2);
            }
        }
    }
    if year == LAST_YEAR {
        return Err(string_of("date overflow"));
    }
    Ok(out)
}

/// The Saturdays a family-weekend plan visits, after checking that its
/// photo count range is not empty.
pub fn family_weekend_dates(year: i32, spec: FamilyWeekendSpec) -> (r: Result<Vec<(u32, u32)>, String>)
    ensures
        spec.min_photos_per_trip > spec.max_photos_per_trip ==> r is Err && r->Err_0@
            == "invalid family weekend photo count range"@,
        spec.min_photos_per_trip <= spec.max_photos_per_trip ==> {
            &&& !year_in_range(year as int) ==> r is Err && r->Err_0@ == "invalid year "@
                + signed_decimal(year as int)
            &&& year_in_range(year as int) && year == LAST_YEAR && walks_whole_year(
                year as int,
                spec.max_weekends,
            ) ==> r is Err && r->Err_0@ == "date overflow"@
            &&& year_in_range(year as int) && !(year == LAST_YEAR && walks_whole_year(
                year as int,
                spec.max_weekends,
            )) ==> r is Ok && dates_view(r->Ok_0@) == planned_saturdays(
                year as int,
                spec.max_weekends,
            )
        },
{
    if spec.min_photos_per_trip > spec.max_photos_per_trip {
        return Err(string_of("invalid family weekend photo count range"));
    }
    weekend_trip_dates(year, spec.max_weekends)
}

// ---------------------------------------------------------------------------
// Planned photos
// ---------------------------------------------------------------------------

/// A photo to generate: the album directory it goes in, the marker text it
/// shows (and is named after), its EXIF capture time and its file time.
#[derive(Clone, Debug)]
pub struct PhotoPlan {
    pub album_dir_name: String,
    pub marker: String,
    pub date_time_original: String,
    pub mtime_unix: i64,
}

/// `{:0w}` of a signed integer: the sign counts toward the width.
pub open spec fn padded_signed(n: int, w: nat) -> Seq<char> {
    if n < 0 {
        seq!['-'] + padded_decimal((-n) as nat, if w > 0 {
            (w - 1) as nat
        } else {
            0
        })
    } else {
        padded_decimal(n as nat, w)
    }
}

fn push_padded_year(s: &mut String, year: i32)
    ensures
        final(s)@ == old(s)@ + padded_signed(year as int, 4),
{
    if year < 0 {
        push_char(s, '-');
        let mag: i64 = -(year as i64);
        push_padded_decimal(s, mag as u64, 3);
        proof {
            assert(final(s)@ =~= old(s)@ + padded_signed(year as int, 4));
        }
    } else {
        push_padded_decimal(s, year as u64, 4);
    }
}

/// `{:04}.{:02}.{:02}.{park}`: the directory of a trip's album.
pub open spec fn trip_album_dir_text(y: int, m: int, d: int, park: Seq<char>) -> Seq<char> {
    padded_signed(y, 4) + seq!['.'] + padded_decimal(m as nat, 2) + seq!['.'] + padded_decimal(
        d as nat,
        2,
    ) + seq!['.'] + park
}

/// `IMG_{:04}{:02}{:02}_{:03}`: the marker of the `n`-th photo of a trip.
pub open spec fn photo_marker_text(y: int, m: int, d: int, n: int) -> Seq<char> {
    "IMG_"@ + padded_signed(y, 4) + padded_decimal(m as nat, 2) + padded_decimal(d as nat, 2)
        + seq!['_'] + padded_decimal(n as nat, 3)
}

/// `{:04}:{:02}:{:02} {:02}:{:02}:{:02}`: an EXIF date and time.
pub open spec fn exif_datetime_text(y: int, m: int, d: int, h: int, mi: int, s: int) -> Seq<char> {
    padded_signed(y, 4) + seq![':'] + padded_decimal(m as nat, 2) + seq![':'] + padded_decimal(
        d as nat,
        2,
    ) + seq![' '] + padded_decimal(h as nat, 2) + seq![':'] + padded_decimal(mi as nat, 2) + seq![
        ':',
    ] + padded_decimal(s as nat, 2)
}

/// The file time given to a photo whose capture time is not a time of day.
pub const FALLBACK_MTIME: i64 = 1_735_689_600;

pub open spec fn photo_mtime_spec(y: int, m: int, d: int, h: int, mi: int, s: int) -> int {
    if h < 24 && mi < 60 && s < 60 {
        unix_seconds(y, m, d, h, mi, s)
    } else {
        FALLBACK_MTIME as int
    }
}

/// The album directory of a trip on `(year, month, day)` to `park`.
pub fn trip_album_dir(year: i32, month: u32, day: u32, park: &str) -> (r: String)
    ensures
        r@ == trip_album_dir_text(year as int, month as int, day as int, park@),
{
    let mut r = String::new();
    push_padded_year(&mut r, year);
    push_char(&mut r, '.');
    push_padded_decimal(&mut r, month as u64, 2);
    push_char(&mut r, '.');
    push_padded_decimal(&mut r, day as u64, 2);
    push_char(&mut r, '.');
    append_str(&mut r, park);
    proof {
        assert(r@ =~= trip_album_dir_text(year as int, month as int, day as int, park@));
    }
    r
}

/// The marker of the `n`-th photo (counted from 1) of a trip.
pub fn photo_marker(year: i32, month: u32, day: u32, n: u32) -> (r: String)
    ensures
        r@ == photo_marker_text(year as int, month as int, day as int, n as int),
{
    let mut r = string_of("IMG_");
    push_padded_year(&mut r, year);
    push_padded_decimal(&mut r, month as u64, 2);
    push_padded_decimal(&mut r, day as u64, 2);
    push_char(&mut r, '_');
    push_padded_decimal(&mut r, n as u64, 3);
    proof {
        assert(r@ =~= photo_marker_text(year as int, month as int, day as int, n as int));
    }
    r
}

/// The EXIF `DateTimeOriginal` text of a capture time.
pub fn exif_datetime(year: i32, month: u32, day: u32, hour: u32, minute: u32, second: u32) -> (r: String)
    ensures
        r@ == exif_datetime_text(
            year as int,
            month as int,
            day as int,
            hour as int,
            minute as int,
            second as int,
        ),
{
    let mut r = String::new();
    push_padded_year(&mut r, year);
    push_char(&mut r, ':');
    push_padded_decimal(&mut r, month as u64, 2);
    push_char(&mut r, ':');
    push_padded_decimal(&mut r, day as u64, 2);
    push_char(&mut r, ' ');
    push_padded_decimal(&mut r, hour as u64, 2);
    push_char(&mut r, ':');
    push_padded_decimal(&mut r, minute as u64, 2);
    push_char(&mut r, ':');
    push_padded_decimal(&mut r, second as u64, 2);
    proof {
        assert(r@ =~= exif_datetime_text(
            year as int,
            month as int,
            day as int,
            hour as int,
            minute as int,
            second as int,
        ));
    }
    r
}

/// The plan of the `index`-th photo (counted from 0) of a trip on a
/// date, taken at the given time of day.
pub fn plan_trip_photo(
    year: i32,
    month: u32,
    day: u32,
    album_dir_name: &str,
    index: u32,
    hour: u32,
    minute: u32,
    second: u32,
) -> (r: PhotoPlan)
    requires
        valid_civil_date(year as int, month as int, day as int),
        index < u32::MAX,
    ensures
        r.album_dir_name@ == album_dir_name@,
        r.marker@ == photo_marker_text(year as int, month as int, day as int, index + 1),
        r.date_time_original@ == exif_datetime_text(
            year as int,
            month as int,
            day as int,
            hour as int,
            minute as int,
            second as int,
        ),
        r.mtime_unix as int == photo_mtime_spec(
            year as int,
            month as int,
            day as int,
            hour as int,
            minute as int,
            second as int,
        ),
{
    let mtime = match utc_timestamp(year, month, day, hour, minute, second) {
        Some(t) => t,
        None => FALLBACK_MTIME,
    };
    PhotoPlan {
        album_dir_name: string_of(album_dir_name),
        marker: photo_marker(year, month, day, index + 1),
        date_time_original: exif_datetime(year, month, day, hour, minute, second),
        mtime_unix: mtime,
    }
}

/// The single photo of the `sample` strategy.
pub fn sample_plan() -> (r: PhotoPlan)
    ensures
        r.album_dir_name@ == "2020.02.01.Sample.Album"@,
        r.marker@ == "IMG_SAMPLE_001"@,
        r.date_time_original@ == "2020:02:01 10:11:12"@,
        r.mtime_unix == 1_580_513_600,
{
    PhotoPlan {
        album_dir_name: string_of("2020.02.01.Sample.Album"),
        marker: string_of("IMG_SAMPLE_001"),
        date_time_original: string_of("2020:02:01 10:11:12"),
        mtime_unix: 1_580_513_600,
    }
}

/// `<album_dir>/<marker>.jpg`: where a photo lies below the output
/// directory.
pub fn photo_relative_path(album_dir_name: &str, marker: &str) -> (r: String)
    ensures
        r@ == album_dir_name@ + seq!['/'] + marker@ + ".jpg"@,
{
    let mut r = string_of(album_dir_name);
    push_char(&mut r, '/');
    append_str(&mut r, marker);
    append_str(&mut r, ".jpg");
    proof {
        assert(r@ =~= album_dir_name@ + seq!['/'] + marker@ + ".jpg"@);
    }
    r
}

proof fn lemma_dot_at(s: Seq<char>, from: int, at: int)
    requires
        0 <= from <= at < s.len(),
        s[at] == '.',
        forall|k: int| from <= k < at ==> is_digit(#[trigger] s[k]),
    ensures
        first_index_from(s, '.', from) == at,
{
    lemma_first_index_from(s, '.', from);
    let r = first_index_from(s, '.', from);
    if r != at {
        if r == -1 {
            assert(s[at] != '.');
        } else if r < at {
            assert(is_digit(s[r]));
        } else {
            assert(s[at] != '.');
        }
    }
}

proof fn lemma_digits_parse(t: Seq<char>, n: nat, lo: int, hi: int, signed: bool)
    requires
        t.len() > 0,
        all_digits(t),
        digits_value(t) == n,
        lo <= n <= hi,
    ensures
        crate::text::parse_int_in(t, signed, lo, hi) == Some(n as int),
{
    assert(is_digit(t[0]));
}

/// A directory that a trip plan names is read back by the album rules: the
/// dot rule gives the trip's date and the park as the album name (for the
/// years that `{:04}` writes as four digits, and a park name that is not
/// blank).
pub proof fn law_trip_dir_is_recognized(y: int, m: int, d: int, park: Seq<char>)
    requires
        0 <= y <= 9999,
        valid_civil_date(y, m, d),
        trim_seq(park).len() > 0,
    ensures
        album_from_dir_spec(trip_album_dir_text(y, m, d, park)) == Some(
            (dot_key(), iso_date_text(y, m, d), trim_seq(park)),
        ),
{
    let ys = padded_decimal(y as nat, 4);
    let ms = padded_decimal(m as nat, 2);
    let ds = padded_decimal(d as nat, 2);
    reveal_with_fuel(ten_pow, 5);
    lemma_padded_decimal(y as nat, 4);
    lemma_padded_decimal(m as nat, 2);
    lemma_padded_decimal(d as nat, 2);
    let s = trip_album_dir_text(y, m, d, park);
    assert(s =~= ys + seq!['.'] + ms + seq!['.'] + ds + seq!['.'] + park);
    assert forall|k: int| 0 <= k < 4 implies is_digit(#[trigger] s[k]) by {
        assert(s[k] == ys[k]);
    }
    assert forall|k: int| 5 <= k < 7 implies is_digit(#[trigger] s[k]) by {
        assert(s[k] == ms[k - 5]);
    }
    assert forall|k: int| 8 <= k < 10 implies is_digit(#[trigger] s[k]) by {
        assert(s[k] == ds[k - 8]);
    }
    lemma_dot_at(s, 0, 4);
    lemma_dot_at(s, 5, 7);
    lemma_dot_at(s, 8, 10);
    assert(s.subrange(0, 4) =~= ys);
    assert(s.subrange(5, 7) =~= ms);
    assert(s.subrange(8, 10) =~= ds);
    assert(s.subrange(11, s.len() as int) =~= park);
    lemma_digits_parse(ys, y as nat, i32::MIN as int, i32::MAX as int, true);
    lemma_digits_parse(ms, m as nat, 0, u32::MAX as int, false);
    lemma_digits_parse(ds, d as nat, 0, u32::MAX as int, false);
    assert(parse_i32_spec(ys) == Some(y));
    assert(parse_u32_spec(ms) == Some(m));
    assert(parse_u32_spec(ds) == Some(d));
    assert(album_match(dot_key(), s, '.') == Some((dot_key(), iso_date_text(y, m, d), trim_seq(park))));
}

// ---------------------------------------------------------------------------
// Command line
// ---------------------------------------------------------------------------

/// What the command line of the generator asks for.
#[derive(Clone, Debug)]
pub struct BuilderOptions {
    pub output_dir: String,
    pub strategy: String,
    pub year: i32,
    pub seed: u64,
    pub clean: bool,
    pub manifest_path: Option<String>,
}

/// `(output_dir, strategy, year, seed, clean, manifest_path)`.
pub type OptionsModel = (Seq<char>, Seq<char>, int, int, bool, Option<Seq<char>>);

impl BuilderOptions {
    pub open spec fn model(&self) -> OptionsModel {
        (
            self.output_dir@,
            self.strategy@,
            self.year as int,
            self.seed as int,
            self.clean,
            match self.manifest_path {
                Some(p) => Some(p@),
                None => None,
            },
        )
    }
}

pub open spec fn args_view(args: Seq<String>) -> Seq<Seq<char>> {
    args.map_values(|a: String| a@)
}

/// The value after the flag at `idx`, which must be there and must not
/// itself look like a flag.
pub open spec fn required_value_spec(args: Seq<Seq<char>>, idx: int, flag: Seq<char>) -> Result<
    Seq<char>,
    Seq<char>,
> {
    if idx + 1 >= args.len() || (args[idx + 1].len() >= 2 && args[idx + 1].take(2) == "--"@) {
        Err(flag + " requires a value"@)
    } else {
        Ok(args[idx + 1])
    }
}

pub open spec fn bad_number_text(flag: Seq<char>, value: Seq<char>, k: IntErrorKind) -> Seq<char> {
    "invalid "@ + flag + " value '"@ + value + "': "@ + int_error_text(k)
}

/// One flag at `idx`: the options after it and where the next flag is.
pub open spec fn option_step(args: Seq<Seq<char>>, idx: int, o: OptionsModel) -> Result<
    (OptionsModel, int),
    Seq<char>,
> {
    let a = args[idx];
    if a == "--help"@ || a == "-h"@ {
        Err("help requested"@)
    } else if a == "--strategy"@ {
        match required_value_spec(args, idx, a) {
            Ok(v) => Ok(((o.0, v, o.2, o.3, o.4, o.5), idx + 2)),
            Err(e) => Err(e),
        }
    } else if a == "--year"@ {
        match required_value_spec(args, idx, a) {
            Ok(v) => match int_parse_outcome(v, true, i32::MIN as int, i32::MAX as int) {
                Ok(y) => Ok(((o.0, o.1, y, o.3, o.4, o.5), idx + 2)),
                Err(k) => Err(bad_number_text(a, v, k)),
            },
            Err(e) => Err(e),
        }
    } else if a == "--seed"@ {
        match required_value_spec(args, idx, a) {
            Ok(v) => match int_parse_outcome(v, false, 0, u64::MAX as int) {
                Ok(n) => Ok(((o.0, o.1, o.2, n, o.4, o.5), idx + 2)),
                Err(k) => Err(bad_number_text(a, v, k)),
            },
            Err(e) => Err(e),
        }
    } else if a == "--clean"@ {
        Ok(((o.0, o.1, o.2, o.3, true, o.5), idx + 1))
    } else if a == "--manifest"@ {
        match required_value_spec(args, idx, a) {
            Ok(v) => Ok(((o.0, o.1, o.2, o.3, o.4, Some(v)), idx + 2)),
            Err(e) => Err(e),
        }
    } else {
        Err("unknown argument: "@ + a)
    }
}

/// The options that the flags from `idx` on make of `o`.
pub open spec fn options_from(args: Seq<Seq<char>>, idx: int, o: OptionsModel) -> Result<
    OptionsModel,
    Seq<char>,
>
    decreases args.len() - idx,
{
    if idx < 0 || idx >= args.len() {
        Ok(o)
    } else {
        match option_step(args, idx, o) {
            Err(e) => Err(e),
            Ok(next) => if next.1 > idx {
                options_from(args, next.1, next.0)
            } else {
                Ok(o)
            },
        }
    }
}

/// The options before any flag: the output directory and the defaults.
pub open spec fn default_options(output_dir: Seq<char>) -> OptionsModel {
    (output_dir, "family_us_weekends_2025"@, 2025, 42, false, None)
}

pub open spec fn parse_options_spec(args: Seq<Seq<char>>) -> Result<OptionsModel, Seq<char>> {
    if args.len() == 0 {
        Err("missing output_dir"@)
    } else {
        options_from(args, 1, default_options(args[0]))
    }
}

fn starts_with_dashes(s: &str) -> (r: bool)
    ensures
        r == (s@.len() >= 2 && s@.take(2) == "--"@),
{
    let v = crate::text::chars_of(s);
    proof {
        reveal_strlit("--");
    }
    if v.len() >= 2 && v[0] == '-' && v[1] == '-' {
        proof {
            assert(s@.take(2) =~= "--"@);
        }
        true
    } else {
        proof {
            if s@.len() >= 2 && s@.take(2) == "--"@ {
                assert(s@.take(2)[0] == '-');
                assert(s@.take(2)[1] == '-');
            }
        }
        false
    }
}

/// The value after the flag at `idx`.
pub fn parse_required_value(args: &Vec<String>, idx: usize, flag: &str) -> (r: Result<String, String>)
    requires
        idx < args.len(),
    ensures
        match required_value_spec(args_view(args@), idx as int, flag@) {
            Ok(v) => r is Ok && r->Ok_0@ == v,
            Err(e) => r is Err && r->Err_0@ == e,
        },
{
    let next = idx + 1;
    if next >= args.len() || starts_with_dashes(args[next].as_str()) {
        let mut msg = string_of(flag);
        append_str(&mut msg, " requires a value");
        return Err(msg);
    }
    Ok(args[next].clone())
}

fn bad_number(flag: &str, value: &str, k: IntErrorKind) -> (r: String)
    ensures
        r@ == bad_number_text(flag@, value@, k),
{
    let mut msg = string_of("invalid ");
    append_str(&mut msg, flag);
    append_str(&mut msg, " value '");
    append_str(&mut msg, value);
    append_str(&mut msg, "': ");
    append_str(&mut msg, k.message());
    proof {
        assert(msg@ =~= bad_number_text(flag@, value@, k));
    }
    msg
}

/// Whether the command line asks for help anywhere.
pub fn wants_help(args: &Vec<String>) -> (r: bool)
    ensures
        r == exists|i: int| 0 <= i < args@.len() && (args@[i]@ == "--help"@ || args@[i]@ == "-h"@),
{
    let mut i: usize = 0;
    while i < args.len()
        invariant
            i <= args.len(),
            forall|k: int| 0 <= k < i ==> !(args@[k]@ == "--help"@ || args@[k]@ == "-h"@),
        decreases args.len() - i,
    {
        if same_text(args[i].as_str(), "--help") || same_text(args[i].as_str(), "-h") {
            return true;
        }
        i += 1;
    }
    false
}

/// Reads the command line: the output directory first, then flags.
pub fn parse_options(args: &Vec<String>) -> (r: Result<BuilderOptions, String>)
    ensures
        match parse_options_spec(args_view(args@)) {
            Ok(o) => r is Ok && r->Ok_0.model() == o,
            Err(e) => r is Err && r->Err_0@ == e,
        },
{
    let ghost av = args_view(args@);
    if args.len() == 0 {
        return Err(string_of("missing output_dir"));
    }
    let mut options = BuilderOptions {
        output_dir: args[0].clone(),
        strategy: string_of("family_us_weekends_2025"),
        year: 2025,
        seed: 42,
        clean: false,
        manifest_path: None,
    };
    proof {
        assert(av[0] == args@[0]@);
    }
    let mut idx: usize = 1;
    while idx < args.len()
        invariant
            av == args_view(args@),
            1 <= idx,
            parse_options_spec(av) == options_from(av, idx as int, options.model()),
        decreases args.len() - idx,
    {
        let arg = args[idx].as_str();
        proof {
            assert(av[idx as int] == arg@);
        }
        let ghost before = options.model();
        let ghost old_idx = idx as int;
        if same_text(arg, "--help") || same_text(arg, "-h") {
            return Err(string_of("help requested"));
        } else if same_text(arg, "--strategy") {
            match parse_required_value(args, idx, arg) {
                Ok(v) => {
                    options.strategy = v;
                },
                Err(e) => {
                    return Err(e);
                },
            }
            idx = idx + 2;
        } else if same_text(arg, "--year") {
            let v = match parse_required_value(args, idx, arg) {
                Ok(v) => v,
                Err(e) => {
                    return Err(e);
                },
            };
            match parse_int_detailed(v.as_str(), true, i32::MIN as i128, i32::MAX as i128) {
                Ok(y) => {
                    options.year = y as i32;
                },
                Err(k) => {
                    return Err(bad_number(arg, v.as_str(), k));
                },
            }
            idx = idx + 2;
        } else if same_text(arg, "--seed") {
            let v = match parse_required_value(args, idx, arg) {
                Ok(v) => v,
                Err(e) => {
                    return Err(e);
                },
            };
            match parse_int_detailed(v.as_str(), false, 0, u64::MAX as i128) {
                Ok(n) => {
                    options.seed = n as u64;
                },
                Err(k) => {
                    return Err(bad_number(arg, v.as_str(), k));
                },
            }
            idx = idx + 2;
        } else if same_text(arg, "--clean") {
            options.clean = true;
            idx = idx + 1;
        } else if same_text(arg, "--manifest") {
            match parse_required_value(args, idx, arg) {
                Ok(v) => {
                    options.manifest_path = Some(v);
                },
                Err(e) => {
                    return Err(e);
                },
            }
            idx = idx + 2;
        } else {
            let mut msg = string_of("unknown argument: ");
            append_str(&mut msg, arg);
            return Err(msg);
        }
        proof {
            assert(av[old_idx] == arg@);
            assert(option_step(av, old_idx, before).is_ok());
            assert(option_step(av, old_idx, before)->Ok_0.1 == idx as int);
            assert(option_step(av, old_idx, before)->Ok_0.0 == options.model());
            assert(option_step(av, old_idx, before) == Ok::<(OptionsModel, int), Seq<char>>(
                (options.model(), idx as int),
            ));
        }
    }
    Ok(options)
}

// ---------------------------------------------------------------------------
// Manifest
// ---------------------------------------------------------------------------

/// How often `name` occurs in `names`.
pub open spec fn count_in(names: Seq<Seq<char>>, name: Seq<char>) -> nat
    decreases names.len(),
{
    if names.len() == 0 {
        0
    } else {
        count_in(names.drop_last(), name) + if names.last() == name {
            1nat
        } else {
            0nat
        }
    }
}

pub open spec fn names_view(v: Seq<String>) -> Seq<Seq<char>> {
    v.map_values(|s: String| s@)
}

pub open spec fn entry_keys(r: Seq<(String, usize)>) -> Seq<Seq<char>> {
    r.map_values(|e: (String, usize)| e.0@)
}

/// Whether `name` is one of the keys.
pub open spec fn key_listed(keys: Seq<Seq<char>>, name: Seq<char>) -> bool {
    exists|i: int| 0 <= i < keys.len() && keys[i] == name
}

pub open spec fn strictly_ascending(keys: Seq<Seq<char>>) -> bool {
    forall|i: int, j: int| 0 <= i < j < keys.len() ==> text_lt(#[trigger] keys[i], #[trigger] keys[j])
}

/// The album directories of the generated photos, each once, in ascending
/// order, with how many photos each holds.
pub fn album_photo_counts(album_dir_names: &Vec<String>) -> (r: Vec<(String, usize)>)
    ensures
        strictly_ascending(entry_keys(r@)),
        forall|i: int|
            0 <= i < r@.len() ==> (#[trigger] r@[i]).1 as nat == count_in(
                names_view(album_dir_names@),
                r@[i].0@,
            ) && r@[i].1 > 0,
        forall|j: int|
            0 <= j < album_dir_names@.len() ==> #[trigger] key_listed(
                entry_keys(r@),
                album_dir_names@[j]@,
            ),
{
    let ghost nv = names_view(album_dir_names@);
    let mut keys: Vec<String> = Vec::new();
    let mut counts: Vec<usize> = Vec::new();
    let mut n: usize = 0;
    while n < album_dir_names.len()
        invariant
            n <= album_dir_names.len(),
            nv == names_view(album_dir_names@),
            keys@.len() == counts@.len(),
            strictly_ascending(names_view(keys@)),
            forall|i: int|
                0 <= i < keys@.len() ==> (#[trigger] counts@[i]) as nat == count_in(
                    nv.take(n as int),
                    keys@[i]@,
                ) && counts@[i] > 0 && counts@[i] <= n,
            forall|j: int|
                0 <= j < n ==> #[trigger] key_listed(names_view(keys@), nv[j]),
        decreases album_dir_names.len() - n,
    {
        let name = &album_dir_names[n];
        let nc = chars_of(name.as_str());
        let ghost kv = names_view(keys@);
        proof {
            assert(nv[n as int] == name@);
            assert(nv.take(n + 1).drop_last() =~= nv.take(n as int));
        }
        let mut pos: usize = 0;
        while pos < keys.len() && text_less(&chars_of(keys[pos].as_str()), &nc)
            invariant
                pos <= keys@.len(),
                kv == names_view(keys@),
                nc@ == name@,
                forall|t: int| 0 <= t < pos ==> text_lt(#[trigger] kv[t], name@),
            decreases keys.len() - pos,
        {
            pos += 1;
        }
        let ghost old_keys = keys@;
        let ghost old_counts = counts@;
        if pos < keys.len() && crate::text::same_text(keys[pos].as_str(), name.as_str()) {
            let c = counts[pos];
            counts.set(pos, c + 1);
            proof {
                assert forall|i: int| 0 <= i < keys@.len() implies (#[trigger] counts@[i]) as nat
                    == count_in(nv.take(n + 1), keys@[i]@) && counts@[i] > 0 && counts@[i] <= n + 1 by {
                    if i != pos {
                        assert(kv[i] != kv[pos as int]) by {
                            if i < pos {
                                assert(text_lt(kv[i], kv[pos as int]));
                            } else {
                                assert(text_lt(kv[pos as int], kv[i]));
                            }
                            lemma_text_lt_irreflexive(kv[i]);
                        }
                    }
                }
                assert forall|j: int| 0 <= j < n + 1 implies #[trigger] key_listed(
                    names_view(keys@),
                    nv[j],
                ) by {
                    assert(names_view(keys@) =~= kv);
                    if j == n {
                        assert(kv[pos as int] == nv[j]);
                    } else {
                        assert(key_listed(kv, nv[j]));
                    }
                }
            }
        } else {
            proof {
                if pos < keys@.len() {
                    lemma_text_trichotomy(kv[pos as int], name@);
                }
                assert forall|i: int| 0 <= i < keys@.len() implies count_in(nv.take(n + 1), #[trigger] kv[i])
                    == count_in(nv.take(n as int), kv[i]) by {
                    if i < pos {
                        lemma_text_lt_irreflexive(name@);
                    } else {
                        assert(text_lt(name@, kv[pos as int]));
                        if i > pos {
                            lemma_text_lt_transitive(name@, kv[pos as int], kv[i]);
                        }
                        lemma_text_lt_irreflexive(name@);
                    }
                }
            }
            keys.insert(pos, name.clone());
            counts.insert(pos, 1);
            proof {
                let nk = names_view(keys@);
                assert(nk =~= kv.insert(pos as int, name@));
                assert forall|i: int, j: int| 0 <= i < j < nk.len() implies text_lt(
                    #[trigger] nk[i],
                    #[trigger] nk[j],
                ) by {
                    if j == pos {
                        assert(text_lt(kv[i], name@));
                    } else if i == pos {
                        assert(text_lt(name@, kv[pos as int]));
                        if j - 1 > pos {
                            lemma_text_lt_transitive(name@, kv[pos as int], kv[j - 1]);
                        }
                    } else if i < pos && j > pos {
                        assert(text_lt(kv[i], kv[j - 1]));
                    } else if i > pos {
                        assert(text_lt(kv[i - 1], kv[j - 1]));
                    } else {
                        assert(text_lt(kv[i], kv[j]));
                    }
                }
                assert forall|i: int| 0 <= i < keys@.len() implies (#[trigger] counts@[i]) as nat
                    == count_in(nv.take(n + 1), keys@[i]@) && counts@[i] > 0 && counts@[i] <= n + 1 by {
                    if i < pos {
                        assert(keys@[i] == old_keys[i]);
                        assert(counts@[i] == old_counts[i]);
                        assert(count_in(nv.take(n + 1), kv[i]) == count_in(nv.take(n as int), kv[i]));
                    } else if i > pos {
                        assert(keys@[i] == old_keys[i - 1]);
                        assert(counts@[i] == old_counts[i - 1]);
                        assert(count_in(nv.take(n + 1), kv[i - 1]) == count_in(nv.take(n as int), kv[i - 1]));
                    } else {
                        assert(count_in(nv.take(n as int), name@) == 0) by {
                            if count_in(nv.take(n as int), name@) > 0 {
                                lemma_count_positive(nv.take(n as int), name@);
                                let j = choose|j: int| 0 <= j < n && nv.take(n as int)[j] == name@;
                                assert(nv[j] == name@);
                                assert(key_listed(kv, nv[j]));
                                let w = choose|w: int| 0 <= w < kv.len() && kv[w] == nv[j];
                                assert(kv[w] == name@);
                                if w < pos {
                                    lemma_text_lt_irreflexive(name@);
                                } else {
                                    if w > pos {
                                        lemma_text_lt_transitive(name@, kv[pos as int], kv[w]);
                                    }
                                    lemma_text_lt_irreflexive(name@);
                                }
                            }
                        }
                    }
                }
                assert forall|j: int| 0 <= j < n + 1 implies #[trigger] key_listed(nk, nv[j]) by {
                    if j == n {
                        assert(nk[pos as int] == nv[j]);
                    } else {
                        assert(key_listed(kv, nv[j]));
                        let w = choose|w: int| 0 <= w < kv.len() && kv[w] == nv[j];
                        if w < pos {
                            assert(nk[w] == kv[w]);
                        } else {
                            assert(nk[w + 1] == kv[w]);
                        }
                    }
                }
            }
        }
        n += 1;
    }
    proof {
        assert(nv.take(n as int) =~= nv);
        assert(nv.len() == n);
        assert forall|j: int| 0 <= j < nv.len() implies #[trigger] key_listed(
            names_view(keys@),
            nv[j],
        ) by {
            assert(0 <= j < n);
        }
        assert forall|t: int| 0 <= t < keys@.len() implies (#[trigger] counts@[t]) as nat == count_in(
            nv,
            keys@[t]@,
        ) && counts@[t] > 0 by {}
    }
    let mut out: Vec<(String, usize)> = Vec::new();
    let mut i: usize = 0;
    while i < keys.len()
        invariant
            i <= keys@.len(),
            keys@.len() == counts@.len(),
            out@.len() == i,
            forall|t: int| 0 <= t < i ==> (#[trigger] out@[t]).0 == keys@[t] && out@[t].1 == counts@[t],
            nv == names_view(album_dir_names@),
            strictly_ascending(names_view(keys@)),
            forall|t: int|
                0 <= t < keys@.len() ==> (#[trigger] counts@[t]) as nat == count_in(nv, keys@[t]@)
                    && counts@[t] > 0,
            forall|j: int|
                0 <= j < nv.len() ==> #[trigger] key_listed(names_view(keys@), nv[j]),
        decreases keys.len() - i,
    {
        out.push((keys[i].clone(), counts[i]));
        i += 1;
    }
    proof {
        let ov = entry_keys(out@);
        assert(ov =~= names_view(keys@));
        assert forall|t: int| 0 <= t < out@.len() implies (#[trigger] out@[t]).1 as nat == count_in(
            names_view(album_dir_names@),
            out@[t].0@,
        ) && out@[t].1 > 0 by {
            assert(out@[t].0 == keys@[t]);
        }
        assert forall|j: int| 0 <= j < album_dir_names@.len() implies #[trigger] key_listed(
            ov,
            album_dir_names@[j]@,
        ) by {
            assert(nv[j] == album_dir_names@[j]@);
            assert(key_listed(names_view(keys@), nv[j]));
        }
    }
    out
}

proof fn lemma_count_positive(names: Seq<Seq<char>>, name: Seq<char>)
    requires
        count_in(names, name) > 0,
    ensures
        exists|j: int| 0 <= j < names.len() && names[j] == name,
    decreases names.len(),
{
    if names.last() == name {
        assert(names[names.len() - 1] == name);
    } else {
        lemma_count_positive(names.drop_last(), name);
        let j = choose|j: int| 0 <= j < names.drop_last().len() && names.drop_last()[j] == name;
        assert(names[j] == name);
    }
}

} // verus!
