//! The creation time of a note: seconds since the Unix epoch turned into
//! `YYYY-MM-DDThh:mm:ss` text.
use vstd::prelude::*;
use crate::text::{push_signed_zero_padded, signed_zero_padded, string_of};
use crate::clock::{time_since_epoch, whole_seconds};

verus! {

/// Rust's `/` on signed integers: the quotient rounded towards zero.
pub open spec fn tdiv(a: int, b: int) -> int {
    if a >= 0 { a / b } else { -((-a) / b) }
}

/// Rust's `%` on signed integers: the remainder that has the sign of `a`.
pub open spec fn trem(a: int, b: int) -> int {
    if a >= 0 { a % b } else { -((-a) % b) }
}

/// The date fields `(year, month, day)` that a note's timestamp shows for the day `days`
/// after 1970-01-01.
///
/// The day count is turned into a date through a year estimate counted from 0000-03-01:
/// `y = 400 * doe / 146097` years, the day within that year, then month and day from the
/// day within the year.  For `days >= 0` the estimate is one year short on some days
/// around the first of March; on those days the fields are not a calendar date (see
/// `timestamp_is_calendar_date` for the days on which they are).
pub open spec fn date_fields(days: int) -> (int, int, int) {
    let doe = days + 719468;
    let y = tdiv(400 * doe, 146097);
    let yoe0 = doe - y * 365 - tdiv(y, 4) + tdiv(y, 100) - tdiv(y, 400);
    let leap: int = if trem(y, 4) == 0 && (trem(y, 100) != 0 || trem(y, 400) == 0) { 1 } else { 0 };
    let doy = if yoe0 < 0 { yoe0 + 365 + leap } else { yoe0 };
    let mp = tdiv(5 * doy + 2, 153);
    let d = doy - tdiv(153 * mp + 2, 5) + 1;
    let m = if mp < 10 { mp + 3 } else { mp - 9 };
    let year = y + if m <= 2 { 1int } else { 0int };
    (year, m, d)
}

/// The time fields `(hour, minute, second)` of `time_secs` seconds into a day.
pub open spec fn time_fields(time_secs: int) -> (int, int, int) {
    (tdiv(time_secs, 3600), tdiv(trem(time_secs, 3600), 60), trem(time_secs, 60))
}

/// The date and time fields `(year, month, day, hour, minute, second)` that a note's
/// timestamp shows for `total_secs` seconds after 1970-01-01T00:00:00: the date of the
/// day count and the time of the seconds into that day, both as Rust's `/` and `%` give
/// them.
pub open spec fn timestamp_fields(total_secs: int) -> (int, int, int, int, int, int) {
    let date = date_fields(tdiv(total_secs, 86400));
    let time = time_fields(trem(total_secs, 86400));
    (date.0, date.1, date.2, time.0, time.1, time.2)
}

/// The timestamp text `YYYY-MM-DDThh:mm:ss` of `total_secs`: each field as `{:04}` or
/// `{:02}` prints it (see `signed_zero_padded`).
pub open spec fn timestamp_text(total_secs: int) -> Seq<char> {
    let f = timestamp_fields(total_secs);
    signed_zero_padded(f.0, 4) + seq!['-'] + signed_zero_padded(f.1, 2) + seq!['-']
        + signed_zero_padded(f.2, 2) + seq!['T'] + signed_zero_padded(f.3, 2) + seq![':']
        + signed_zero_padded(f.4, 2) + seq![':'] + signed_zero_padded(f.5, 2)
}

/// Whether `y` is a leap year of the Gregorian calendar.
pub open spec fn is_leap_year(y: int) -> bool {
    y % 4 == 0 && (y % 100 != 0 || y % 400 == 0)
}

/// The number of leap years among the years `1 .. y`.
pub open spec fn leap_years_before(y: int) -> int {
    (y - 1) / 4 - (y - 1) / 100 + (y - 1) / 400
}

/// The days from 1970-01-01 to the first of January of year `y`.
pub open spec fn days_before_year(y: int) -> int {
    365 * (y - 1970) + leap_years_before(y) - leap_years_before(1970)
}

/// The number of days of month `m` (1 to 12) of year `y`.
pub open spec fn days_in_month(y: int, m: int) -> int {
    if m == 2 {
        if is_leap_year(y) { 29 } else { 28 }
    } else if m == 4 || m == 6 || m == 9 || m == 11 {
        30
    } else {
        31
    }
}

/// The days of year `y` before the first of month `m` (1 to 12).
pub open spec fn days_before_month(y: int, m: int) -> int {
    let common: int = if m == 1 { 0 } else if m == 2 { 31 } else if m == 3 { 59 } else if m == 4 { 90 }
        else if m == 5 { 120 } else if m == 6 { 151 } else if m == 7 { 181 } else if m == 8 { 212 }
        else if m == 9 { 243 } else if m == 10 { 273 } else if m == 11 { 304 } else { 334 };
    common + if m > 2 && is_leap_year(y) { 1int } else { 0int }
}

/// The days from 1970-01-01 to the date `y-m-d`.
pub open spec fn days_from_epoch(y: int, m: int, d: int) -> int {
    days_before_year(y) + days_before_month(y, m) + d - 1
}

/// The days from 0000-03-01 to the first of March of year `y`.
pub open spec fn days_to_march_first(y: int) -> int {
    365 * y + y / 4 - y / 100 + y / 400
}

/// Whether the year estimate of `timestamp_fields` falls one year short on the day
/// `days` after 1970-01-01: the March-based year it estimates has already ended.
pub open spec fn year_estimate_is_short(days: int) -> bool {
    let doe = days + 719468;
    days_to_march_first((400 * doe) / 146097 + 1) <= doe
}

pub(crate) proof fn lemma_march_years(y: int)
    requires
        y >= 0,
    ensures
        days_to_march_first(y + 1) - days_to_march_first(y) == 365 + if is_leap_year(y + 1) { 1int } else { 0int },
        days_to_march_first(y) == 365 * y + leap_years_before(y + 1),
        leap_years_before(y + 2) == leap_years_before(y + 1) + if is_leap_year(y + 1) { 1int } else { 0int },
{
    assert((y + 1) / 4 == y / 4 + if (y + 1) % 4 == 0 { 1int } else { 0int });
    assert((y + 1) / 100 == y / 100 + if (y + 1) % 100 == 0 { 1int } else { 0int });
    assert((y + 1) / 400 == y / 400 + if (y + 1) % 400 == 0 { 1int } else { 0int });
    assert((y + 1) % 100 == 0 ==> (y + 1) % 4 == 0);
    assert((y + 1) % 400 == 0 ==> (y + 1) % 100 == 0);
}

proof fn lemma_month_of_day(doy: int, leap: int)
    requires
        0 <= leap <= 1,
        0 <= doy < 365 + leap,
    ensures
        ({
            let mp = (5 * doy + 2) / 153;
            let d = doy - (153 * mp + 2) / 5 + 1;
            let m = if mp < 10 { mp + 3 } else { mp - 9 };
            &&& 0 <= mp <= 11
            &&& 1 <= m <= 12
            &&& 1 <= d
            &&& d <= if m == 2 { 28 + leap } else if m == 4 || m == 6 || m == 9 || m == 11 { 30 } else { 31 }
            &&& m >= 3 ==> doy == days_before_month(1, m) - 59 + d - 1
            &&& m <= 2 ==> doy == days_before_month(1, m) + 306 + d - 1
        }),
{
    let mp = (5 * doy + 2) / 153;
    assert(153 * mp <= 5 * doy + 2 < 153 * mp + 153);
    assert(0 <= mp <= 11);
    assert(!is_leap_year(1));
    if mp == 0 { assert((153 * mp + 2) / 5 == 0); }
    else if mp == 1 { assert((153 * mp + 2) / 5 == 31); }
    else if mp == 2 { assert((153 * mp + 2) / 5 == 61); }
    else if mp == 3 { assert((153 * mp + 2) / 5 == 92); }
    else if mp == 4 { assert((153 * mp + 2) / 5 == 122); }
    else if mp == 5 { assert((153 * mp + 2) / 5 == 153); }
    else if mp == 6 { assert((153 * mp + 2) / 5 == 184); }
    else if mp == 7 { assert((153 * mp + 2) / 5 == 214); }
    else if mp == 8 { assert((153 * mp + 2) / 5 == 245); }
    else if mp == 9 { assert((153 * mp + 2) / 5 == 275); }
    else if mp == 10 { assert((153 * mp + 2) / 5 == 306); }
    else { assert((153 * mp + 2) / 5 == 337); }
}

pub(crate) proof fn lemma_time_of_day(time_secs: int)
    requires
        0 <= time_secs < 86400,
    ensures
        ({
            let (hour, minute, second) = time_fields(time_secs);
            &&& 0 <= hour < 24
            &&& 0 <= minute < 60
            &&& 0 <= second < 60
            &&& hour * 3600 + minute * 60 + second == time_secs
        }),
{
}

pub(crate) proof fn lemma_year_estimate(doe: int)
    requires
        doe >= 0,
    ensures
        (400 * doe) / 146097 >= 0,
        days_to_march_first((400 * doe) / 146097) <= doe,
{
    let y = (400 * doe) / 146097;
    assert(146097 * y <= 400 * doe);
    assert(y / 4 * 4 <= y);
    assert(y / 100 * 100 >= y - 99);
    assert(y / 400 * 400 <= y);
}

proof fn lemma_calendar_days(y: int, doy: int, m: int, d: int)
    requires
        y >= 0,
        1 <= m <= 12,
        m >= 3 ==> doy == days_before_month(1, m) - 59 + d - 1,
        m <= 2 ==> doy == days_before_month(1, m) + 306 + d - 1,
    ensures
        days_from_epoch(if m <= 2 { y + 1 } else { y }, m, d) == days_to_march_first(y) + doy - 719468,
{
    lemma_march_years(y);
    assert(leap_years_before(1970) == 477);
    assert(!is_leap_year(1));
    assert(leap_years_before(y + 1) == leap_years_before(y) + if is_leap_year(y) { 1int } else { 0int }) by {
        if y >= 1 {
            lemma_march_years(y - 1);
        } else {
            assert(y == 0);
        }
    }
}

proof fn lemma_date_of_day(days: int)
    requires
        days >= 0,
        !year_estimate_is_short(days),
    ensures
        ({
            let (year, month, day) = date_fields(days);
            &&& 1 <= month <= 12
            &&& 1 <= day <= days_in_month(year, month)
            &&& days_from_epoch(year, month, day) == days
        }),
{
    let doe = days + 719468;
    let y = (400 * doe) / 146097;
    lemma_year_estimate(doe);
    let yoe0 = doe - y * 365 - y / 4 + y / 100 - y / 400;
    assert(yoe0 == doe - days_to_march_first(y));
    lemma_march_years(y);
    let leap: int = if is_leap_year(y + 1) { 1 } else { 0 };
    assert(0 <= yoe0 < 365 + leap);
    lemma_month_of_day(yoe0, leap);
    let mp = (5 * yoe0 + 2) / 153;
    let d = yoe0 - (153 * mp + 2) / 5 + 1;
    let m = if mp < 10 { mp + 3 } else { mp - 9 };
    let year = y + if m <= 2 { 1int } else { 0int };
    assert(date_fields(days) == (year, m, d));
    lemma_calendar_days(y, yoe0, m, d);
}

/// On the days on which the year estimate is short (`year_estimate_is_short`), the date
/// fields of a non-negative day count are not the date of that day: they show February 29
/// of a common year, February 30, or the first of March a year early.
pub proof fn short_estimate_days_are_misdated(days: int)
    requires
        days >= 0,
        year_estimate_is_short(days),
    ensures
        ({
            let (year, month, day) = date_fields(days);
            !(1 <= month <= 12 && 1 <= day <= days_in_month(year, month)
                && days_from_epoch(year, month, day) == days)
        }),
{
    let doe = days + 719468;
    let y = (400 * doe) / 146097;
    lemma_year_estimate(doe);
    lemma_march_years(y);
    let y1 = y + 1;
    assert(400 * doe < 146097 * y1);
    assert(y1 / 4 * 4 >= y1 - 3);
    assert(y1 / 100 * 100 <= y1);
    assert(y1 / 400 * 400 >= y1 - 399);
    assert(doe <= days_to_march_first(y1) + 1);
    let yoe0 = doe - y * 365 - y / 4 + y / 100 - y / 400;
    assert(yoe0 == doe - days_to_march_first(y));
    let leap: int = if is_leap_year(y1) { 1 } else { 0 };
    assert(365 + leap <= yoe0 <= 366 + leap);
    let f = date_fields(days);
    if yoe0 == 367 {
        assert((5 * yoe0 + 2) / 153 == 12);
        assert((153 * 12 + 2) / 5 == 367);
        assert(f == (y, 3int, 1int));
        lemma_calendar_days(y, 0, 3, 1);
    } else {
        assert((5 * yoe0 + 2) / 153 == 11);
        assert((153 * 11 + 2) / 5 == 337);
        assert(f.1 == 2);
        assert(f.2 == yoe0 - 336);
    }
}

/// For a non-negative `total_secs`, on every day on which the year estimate is not short
/// (see `year_estimate_is_short`), the timestamp fields are a calendar date and a time of
/// day, and they name exactly the instant `total_secs` seconds after 1970-01-01T00:00:00.
pub proof fn timestamp_is_calendar_date(total_secs: int)
    requires
        total_secs >= 0,
        !year_estimate_is_short(total_secs / 86400),
    ensures
        ({
            let (year, month, day, hour, minute, second) = timestamp_fields(total_secs);
            &&& 1 <= month <= 12
            &&& 1 <= day <= days_in_month(year, month)
            &&& 0 <= hour < 24
            &&& 0 <= minute < 60
            &&& 0 <= second < 60
            &&& days_from_epoch(year, month, day) * 86400 + hour * 3600 + minute * 60 + second
                == total_secs
        }),
{
    let days = total_secs / 86400;
    let time_secs = total_secs % 86400;
    lemma_time_of_day(time_secs);
    lemma_date_of_day(days);
    assert(days * 86400 + time_secs == total_secs);
}

/// The date fields of the day `days` after 1970-01-01 (see `date_fields`).
fn date_of_day(days: i64) -> (r: (i64, i64, i64))
    requires
        -106751991167301 <= days <= 106751991167300,
    ensures
        (r.0 as int, r.1 as int, r.2 as int) == date_fields(days as int),
{
    let era: i64 = 719468;
    let doe = days + era;
    let y = (400 * doe) / 146097;
    assert(-300000000000 <= y <= 300000000000);
    let mut yoe = doe - y * 365 - y / 4 + y / 100 - y / 400;
    if yoe < 0 {
        let leap: i64 = if y % 4 == 0 && (y % 100 != 0 || y % 400 == 0) { 1 } else { 0 };
        yoe += 365 + leap;
    }
    assert(-300000000000000 <= yoe <= 300000000000000);
    let doy = yoe;
    let mp = (5 * doy + 2) / 153;
    let d = doy - (153 * mp + 2) / 5 + 1;
    let m = if mp < 10 { mp + 3 } else { mp - 9 };
    let year = y + if m <= 2 { 1 } else { 0 };
    (year, m, d)
}

/// The time fields of `time_secs` seconds into a day (see `time_fields`).
fn time_of_day(time_secs: i64) -> (r: (i64, i64, i64))
    ensures
        (r.0 as int, r.1 as int, r.2 as int) == time_fields(time_secs as int),
{
    let h = time_secs / 3600;
    let min = (time_secs % 3600) / 60;
    let s = time_secs % 60;
    (h, min, s)
}

/// The timestamp text of `total_secs` seconds after the Unix epoch.
pub fn format_timestamp(total_secs: i64) -> (r: String)
    ensures
        r@ == timestamp_text(total_secs as int),
{
    let days = total_secs / 86400;
    let time_secs = total_secs % 86400;
    let (year, m, d) = date_of_day(days);
    let (h, min, s) = time_of_day(time_secs);
    let mut out: Vec<char> = Vec::new();
    push_signed_zero_padded(&mut out, year, 4);
    out.push('-');
    push_signed_zero_padded(&mut out, m, 2);
    out.push('-');
    push_signed_zero_padded(&mut out, d, 2);
    out.push('T');
    push_signed_zero_padded(&mut out, h, 2);
    out.push(':');
    push_signed_zero_padded(&mut out, min, 2);
    out.push(':');
    push_signed_zero_padded(&mut out, s, 2);
    assert(out@ =~= timestamp_text(total_secs as int));
    string_of(&out)
}

/// The timestamp text of the current time, as the system clock gives it.  `None` when the
/// clock reads a time before the Unix epoch.
pub fn timestamp_now() -> (r: Option<String>)
    ensures
        r matches Some(s) ==> exists|t: i64| s@ == #[trigger] timestamp_text(t as int),
{
    match time_since_epoch() {
        Some(elapsed) => {
            let secs = whole_seconds(&elapsed);
            let r = format_timestamp(secs as i64);
            assert(r@ == timestamp_text((secs as i64) as int));
            assert(exists|t: i64| r@ == #[trigger] timestamp_text(t as int));
            Some(r)
        },
        None => None,
    }
}

} // verus!
