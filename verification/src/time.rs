//! Unix seconds and ISO-8601 (`Z`) date-times, computed with the civil-day
//! algorithm so that no calendar crate is needed inside the Worker.

use vstd::prelude::*;

use crate::decimal::{
    all_digits, digits_of, fmt_padded, is_digit, lemma_digits_of, lemma_digits_value_leading_zeros,
    pad_zeros, parse_i64, parse_i64_spec, push_padded,
};
use crate::text::{
    chars_of, lemma_split_concat, lemma_split_none, split, split_chars, string_of, trim,
    trim_chars, trim_end, trim_start,
};

verus! {

/// Days from 0000-03-01 to 1970-01-01 in the proleptic Gregorian calendar.
pub open spec fn epoch_shift() -> int {
    719468
}

/// `(year, month, day)` of day number `z` (days since 1970-01-01).
pub open spec fn spec_civil_from_days(z: int) -> (int, int, int) {
    let z1 = z + epoch_shift();
    let era = z1 / 146097;
    let doe = z1 - era * 146097;
    let yoe = (doe - doe / 1460 + doe / 36524 - doe / 146096) / 365;
    let y = yoe + era * 400;
    let doy = doe - (365 * yoe + yoe / 4 - yoe / 100);
    let mp = (5 * doy + 2) / 153;
    let d = doy - (153 * mp + 2) / 5 + 1;
    let m = if mp < 10 { mp + 3 } else { mp - 9 };
    (if m <= 2 { y + 1 } else { y }, m, d)
}

/// Day number (days since 1970-01-01) of the civil date `y-m-d`.
pub open spec fn spec_days_from_civil(y: int, m: int, d: int) -> int {
    let y1 = if m <= 2 { y - 1 } else { y };
    let era = y1 / 400;
    let yoe = y1 - era * 400;
    let mp = if m > 2 { m - 3 } else { m + 9 };
    let doy = (153 * mp + 2) / 5 + d - 1;
    let doe = yoe * 365 + yoe / 4 - yoe / 100 + doy;
    era * 146097 + doe - epoch_shift()
}

pub open spec fn fits_i64(x: int) -> bool {
    i64::MIN <= x <= i64::MAX
}

/// Every intermediate value of `days_from_civil` fits in an `i64`.
pub open spec fn days_from_civil_fits(y: int, m: int, d: int) -> bool {
    let y1 = if m <= 2 { y - 1 } else { y };
    let era = y1 / 400;
    &&& fits_i64(y1)
    &&& fits_i64(y1 - 399)
    &&& fits_i64(era * 146097)
    &&& fits_i64(spec_days_from_civil(y, m, d) + epoch_shift())
    &&& fits_i64(spec_days_from_civil(y, m, d))
}

/// The year-of-era computed from a day-of-era stays below 400.
proof fn lemma_yoe_bounds(doe: int)
    requires
        0 <= doe <= 146096,
    ensures
        0 <= (doe - doe / 1460 + doe / 36524 - doe / 146096) / 365 <= 399,
        ({
            let yoe = (doe - doe / 1460 + doe / 36524 - doe / 146096) / 365;
            let doy = doe - (365 * yoe + yoe / 4 - yoe / 100);
            0 <= doy <= 365
        }),
{
    let a = doe / 1460;
    let b = doe / 36524;
    let c = doe / 146096;
    assert(0 <= c <= 1);
    assert(0 <= b <= 4);
    assert(b <= a);
    let f = doe - a + b - c;
    let yoe = f / 365;
    assert(0 <= yoe <= 399);
    assert(yoe == (doe - doe / 1460 + doe / 36524 - doe / 146096) / 365);
    let doy = doe - (365 * yoe + yoe / 4 - yoe / 100);
    assert(0 <= doy <= 365);
}

/// A leap year of the proleptic Gregorian calendar.
pub open spec fn is_leap_year(y: int) -> bool {
    y % 4 == 0 && (y % 100 != 0 || y % 400 == 0)
}

/// The number of days of month `m` (1 to 12) of year `y`.
pub open spec fn days_in_month(y: int, m: int) -> int {
    if m == 2 {
        if is_leap_year(y) {
            29
        } else {
            28
        }
    } else if m == 4 || m == 6 || m == 9 || m == 11 {
        30
    } else {
        31
    }
}

/// The first day of year `yoe` of an era (years counted from March).
spec fn year_start(yoe: int) -> int {
    365 * yoe + yoe / 4 - yoe / 100
}

/// The year of an era that a day of the era falls in.
spec fn year_of_era(doe: int) -> int {
    (doe - doe / 1460 + doe / 36524 - doe / 146096) / 365
}

/// A year of an era (counted from March) has a 366th day only when the
/// February that ends it has 29 days.
proof fn lemma_long_year_is_leap(doe: int)
    requires
        0 <= doe <= 146096,
        doe - year_start(year_of_era(doe)) == 365,
    ensures
        (year_of_era(doe) + 1) % 4 == 0,
        (year_of_era(doe) + 1) % 100 != 0 || year_of_era(doe) == 399,
{
    lemma_yoe_bounds(doe);
    let k = year_of_era(doe);
    let c = k / 100;
    let a = (k % 100) / 4;
    let b = (k % 100) % 4;
    assert(k == 100 * c + 4 * a + b);
    assert(0 <= c <= 3 && 0 <= a <= 24 && 0 <= b <= 3);
    assert(k / 4 == 25 * c + a);
    assert(k / 100 == c);
    assert(doe == 36524 * c + 1461 * a + 365 * b + 365);
    if b <= 2 {
        assert(doe / 1460 == 25 * c + a);
        assert(doe / 36524 == c);
        assert(doe / 146096 == 0);
        assert((doe - doe / 1460 + doe / 36524 - doe / 146096) == 365 * (k + 1));
        assert(year_of_era(doe) == k + 1);
    }
    if b == 3 && a == 24 && c < 3 {
        assert(doe == 36524 * (c + 1));
        assert(doe / 1460 == 25 * (c + 1));
        assert(doe / 36524 == c + 1);
        assert(doe / 146096 == 0);
        assert((doe - doe / 1460 + doe / 36524 - doe / 146096) == 365 * (k + 1));
        assert(year_of_era(doe) == k + 1);
    }
}

/// The day of a civil date computed from a day number lies within its
/// month: at most 28, 29, 30 or 31 as the month and year have.
pub proof fn lemma_civil_day_in_month(z: int)
    ensures
        ({
            let (y, m, d) = spec_civil_from_days(z);
            1 <= m <= 12 && 1 <= d <= days_in_month(y, m)
        }),
{
    let z1 = z + epoch_shift();
    let era = z1 / 146097;
    let doe = z1 - era * 146097;
    assert(0 <= doe < 146097);
    lemma_yoe_bounds(doe);
    let yoe = year_of_era(doe);
    let doy = doe - year_start(yoe);
    let mp = (5 * doy + 2) / 153;
    let d = doy - (153 * mp + 2) / 5 + 1;
    assert(0 <= mp <= 11);
    if mp == 11 && d == 29 {
        assert(doy == 365);
        lemma_long_year_is_leap(doe);
        let y1 = yoe + era * 400 + 1;
        assert(y1 % 4 == 0) by {
            vstd::arithmetic::div_mod::lemma_mod_multiples_vanish(era * 100, yoe + 1, 4);
            assert(4 * (era * 100) == era * 400) by (nonlinear_arith);
        }
        assert(y1 % 100 != 0 || y1 % 400 == 0) by {
            vstd::arithmetic::div_mod::lemma_mod_multiples_vanish(era * 4, yoe + 1, 100);
            vstd::arithmetic::div_mod::lemma_mod_multiples_vanish(era, yoe + 1, 400);
            assert(100 * (era * 4) == era * 400) by (nonlinear_arith);
        }
    }
}

/// Converting a day number to a civil date and back gives the same day number.
pub proof fn lemma_days_civil_roundtrip(z: int)
    ensures
        ({
            let (y, m, d) = spec_civil_from_days(z);
            &&& 1 <= m <= 12
            &&& 1 <= d <= 31
            &&& spec_days_from_civil(y, m, d) == z
            &&& z + epoch_shift() - 146096 <= ((if m <= 2 { y - 1 } else { y }) / 400) * 146097
                <= z + epoch_shift()
        }),
{
    let z1 = z + epoch_shift();
    let era = z1 / 146097;
    let doe = z1 - era * 146097;
    assert(0 <= doe < 146097);
    lemma_yoe_bounds(doe);
    let yoe = (doe - doe / 1460 + doe / 36524 - doe / 146096) / 365;
    let y0 = yoe + era * 400;
    let doy = doe - (365 * yoe + yoe / 4 - yoe / 100);
    let mp = (5 * doy + 2) / 153;
    assert(0 <= mp <= 11);
    let d = doy - (153 * mp + 2) / 5 + 1;
    assert(1 <= d <= 31);
    assert(y0 / 400 == era);
    assert(y0 - (y0 / 400) * 400 == yoe);
}


/// `worker::Date::now().as_millis()`: milliseconds since the Unix epoch by the
/// Worker's clock. The clock decides the value, so nothing is stated of it.
#[verifier::external_body]
fn now_millis() -> u64 {
    worker::Date::now().as_millis()
}

/// The largest value `now_ts` can return.
pub open spec fn max_now() -> int {
    u64::MAX as int / 1000
}

/// Current Unix time in seconds.
pub fn now_ts() -> (r: i64)
    ensures
        0 <= r <= max_now(),
{
    (now_millis() / 1000) as i64
}

/// `civil_from_days`: `(year, month, day)` of the day number `z`.
pub fn civil_from_days(z: i64) -> (r: (i64, u32, u32))
    requires
        z + epoch_shift() <= i64::MAX,
    ensures
        r.0 as int == spec_civil_from_days(z as int).0,
        r.1 as int == spec_civil_from_days(z as int).1,
        r.2 as int == spec_civil_from_days(z as int).2,
        1 <= r.1 <= 12,
        1 <= r.2 <= 31,
        r.2 as int <= days_in_month(r.0 as int, r.1 as int),
{
    proof {
        lemma_days_civil_roundtrip(z as int);
        lemma_civil_day_in_month(z as int);
        let z1 = z + epoch_shift();
        lemma_yoe_bounds(z1 - (z1 / 146097) * 146097);
    }
    let z = z + 719468;
    let era: i64 = if z >= 0 {
        z / 146097
    } else {
        -((146096 - z) / 146097)
    };
    assert(era == (z as int) / 146097);
    let doe = z - era * 146097;
    let yoe = (doe - doe / 1460 + doe / 36524 - doe / 146096) / 365;
    let y = yoe + era * 400;
    let doy = doe - (365 * yoe + yoe / 4 - yoe / 100);
    let mp = (5 * doy + 2) / 153;
    let d = (doy - (153 * mp + 2) / 5 + 1) as u32;
    let m = if mp < 10 {
        mp + 3
    } else {
        mp - 9
    } as u32;
    let y = if m <= 2 {
        y + 1
    } else {
        y
    };
    (y, m, d)
}

/// `days_from_civil`: day number of the civil date `y-m-d`.
pub fn days_from_civil(y: i64, m: u32, d: u32) -> (r: i64)
    requires
        days_from_civil_fits(y as int, m as int, d as int),
    ensures
        r as int == spec_days_from_civil(y as int, m as int, d as int),
{
    let y = if m <= 2 {
        y - 1
    } else {
        y
    };
    let era: i64 = if y >= 0 {
        y / 400
    } else {
        -((399 - y) / 400)
    };
    assert(era == (y as int) / 400);
    let yoe = y - era * 400;
    let mp = if m > 2 {
        m - 3
    } else {
        m + 9
    } as i64;
    let doy = (153 * mp + 2) / 5 + d as i64 - 1;
    let doe = yoe * 365 + yoe / 4 - yoe / 100 + doy;
    era * 146097 + doe - 719468
}

/// `format!("{y:04}-{mo:02}-{d:02}T{h:02}:{m:02}:{s:02}Z")`.
pub open spec fn iso_text(y: int, mo: int, d: int, h: int, mi: int, se: int) -> Seq<char> {
    fmt_padded(y, 4) + seq!['-'] + fmt_padded(mo, 2) + seq!['-'] + fmt_padded(d, 2) + seq!['T']
        + fmt_padded(h, 2) + seq![':'] + fmt_padded(mi, 2) + seq![':'] + fmt_padded(se, 2) + seq![
        'Z',
    ]
}

/// The ISO-8601 text of the Unix time `ts`.
pub open spec fn spec_format_unix_iso(ts: int) -> Seq<char> {
    let days = ts / 86400;
    let secs = ts % 86400;
    let (y, mo, d) = spec_civil_from_days(days);
    iso_text(y, mo, d, secs / 3600, (secs % 3600) / 60, secs % 60)
}

/// Unix seconds to `YYYY-MM-DDTHH:MM:SSZ`.
pub fn format_unix_iso(ts: i64) -> (r: String)
    ensures
        r@ == spec_format_unix_iso(ts as int),
{
    let wide = ts as i128;
    let days_w: i128 = if wide >= 0 {
        wide / 86400
    } else {
        -((86399 - wide) / 86400)
    };
    assert(days_w == (ts as int) / 86400);
    let days = days_w as i64;
    let secs = (wide - days_w * 86400) as i64;
    assert(secs == (ts as int) % 86400);
    let (h, m, s) = (secs / 3600, (secs % 3600) / 60, secs % 60);
    let (y, mo, d) = civil_from_days(days);
    let mut out: Vec<char> = Vec::new();
    push_padded(&mut out, y, 4);
    out.push('-');
    push_padded(&mut out, mo as i64, 2);
    out.push('-');
    push_padded(&mut out, d as i64, 2);
    out.push('T');
    push_padded(&mut out, h, 2);
    out.push(':');
    push_padded(&mut out, m, 2);
    out.push(':');
    push_padded(&mut out, s, 2);
    out.push('Z');
    assert(out@ =~= spec_format_unix_iso(ts as int));
    string_of(&out)
}

/// The text after `.replace('T', " ").replace('Z', "")`.
pub open spec fn iso_normalize(t: Seq<char>) -> Seq<char>
    decreases t.len(),
{
    if t.len() == 0 {
        t
    } else {
        let r = iso_normalize(t.drop_last());
        if t.last() == 'Z' {
            r
        } else if t.last() == 'T' {
            r.push(' ')
        } else {
            r.push(t.last())
        }
    }
}

/// The values of the pieces that parse as an `i64`, in order (`filter_map`).
pub open spec fn parsed_i64s(parts: Seq<Seq<char>>) -> Seq<int>
    decreases parts.len(),
{
    if parts.len() == 0 {
        Seq::<int>::empty()
    } else {
        let r = parsed_i64s(parts.drop_last());
        match parse_i64_spec(parts.last()) {
            Some(v) => r.push(v),
            None => r,
        }
    }
}

/// Year, month, day, hour, minute and second read from an ISO text, or `None`
/// when the text lacks a date part or a time part.
pub open spec fn iso_fields(s: Seq<char>) -> Option<(int, int, int, int, int, int)> {
    let parts = split(iso_normalize(trim(s)), ' ');
    if parts.len() < 2 {
        None
    } else {
        let date = parsed_i64s(split(parts[0], '-'));
        let time = parsed_i64s(split(parts[1], ':'));
        if date.len() < 3 || time.len() < 2 {
            None
        } else {
            Some(
                (
                    date[0],
                    (date[1] as u32) as int,
                    (date[2] as u32) as int,
                    time[0],
                    time[1],
                    if time.len() > 2 {
                        time[2]
                    } else {
                        0
                    },
                ),
            )
        }
    }
}

/// The Unix seconds of the given civil date and time of day.
pub open spec fn civil_seconds(y: int, m: int, d: int, h: int, mi: int, se: int) -> int {
    spec_days_from_civil(y, m, d) * 86400 + h * 3600 + mi * 60 + se
}

/// `parse_iso_pub`'s arithmetic on the fields of `s` stays within `i64`.
pub open spec fn iso_fits(s: Seq<char>) -> bool {
    match iso_fields(s) {
        None => true,
        Some((y, m, d, h, mi, se)) => {
            let days = spec_days_from_civil(y, m, d);
            &&& days_from_civil_fits(y, m, d)
            &&& fits_i64(days * 86400)
            &&& fits_i64(h * 3600)
            &&& fits_i64(days * 86400 + h * 3600)
            &&& fits_i64(mi * 60)
            &&& fits_i64(days * 86400 + h * 3600 + mi * 60)
            &&& fits_i64(civil_seconds(y, m, d, h, mi, se))
        },
    }
}

/// What `parse_iso_pub` returns: the Unix seconds of the text, 0 when it is
/// not a date and time.
pub open spec fn spec_parse_iso(s: Seq<char>) -> int {
    match iso_fields(s) {
        None => 0,
        Some((y, m, d, h, mi, se)) => civil_seconds(y, m, d, h, mi, se),
    }
}

fn iso_normalize_chars(t: &[char]) -> (r: Vec<char>)
    ensures
        r@ == iso_normalize(t@),
{
    let mut r: Vec<char> = Vec::new();
    let mut i: usize = 0;
    while i < t.len()
        invariant
            i <= t.len(),
            r@ == iso_normalize(t@.take(i as int)),
        decreases t.len() - i,
    {
        assert(t@.take(i as int + 1).drop_last() =~= t@.take(i as int));
        let c = t[i];
        if c == 'T' {
            r.push(' ');
        } else if c != 'Z' {
            r.push(c);
        }
        i = i + 1;
    }
    assert(t@.take(t@.len() as int) =~= t@);
    r
}

fn parse_i64_all(parts: &Vec<Vec<char>>) -> (r: Vec<i64>)
    ensures
        r@.len() == parsed_i64s(parts.deep_view()).len(),
        forall|k: int| 0 <= k < r@.len() ==> r@[k] as int == parsed_i64s(parts.deep_view())[k],
{
    let mut r: Vec<i64> = Vec::new();
    let mut i: usize = 0;
    while i < parts.len()
        invariant
            i <= parts.len(),
            r@.len() == parsed_i64s(parts.deep_view().take(i as int)).len(),
            forall|k: int|
                0 <= k < r@.len() ==> r@[k] as int == parsed_i64s(
                    parts.deep_view().take(i as int),
                )[k],
        decreases parts.len() - i,
    {
        assert(parts.deep_view().take(i as int + 1).drop_last() =~= parts.deep_view().take(
            i as int,
        ));
        assert(parts.deep_view()[i as int] =~= parts[i as int]@);
        match parse_i64(parts[i].as_slice()) {
            Some(v) => {
                r.push(v);
            },
            None => {},
        }
        i = i + 1;
    }
    assert(parts.deep_view().take(parts.len() as int) =~= parts.deep_view());
    r
}

/// The six fields of an ISO text, as `parse_iso_pub` reads them.
fn iso_fields_of(s: &str) -> (r: Option<(i64, u32, u32, i64, i64, i64)>)
    ensures
        r is None <==> iso_fields(s@) is None,
        r matches Some((y, m, d, h, mi, se)) ==> iso_fields(s@) == Some(
            (y as int, m as int, d as int, h as int, mi as int, se as int),
        ),
{
    let chars = chars_of(s);
    let t = trim_chars(&chars);
    let u = iso_normalize_chars(&t);
    let parts = split_chars(&u, ' ');
    if parts.len() < 2 {
        return None;
    }
    assert(parts.deep_view()[0] =~= parts[0]@);
    assert(parts.deep_view()[1] =~= parts[1]@);
    let date_parts = split_chars(parts[0].as_slice(), '-');
    let time_parts = split_chars(parts[1].as_slice(), ':');
    let date = parse_i64_all(&date_parts);
    let time = parse_i64_all(&time_parts);
    if date.len() < 3 || time.len() < 2 {
        return None;
    }
    let se = if time.len() > 2 {
        time[2]
    } else {
        0
    };
    Some((date[0], date[1] as u32, date[2] as u32, time[0], time[1], se))
}

/// Parses `...Z` or space separated ISO text to Unix seconds; 0 when the text
/// has no date part and time part.
pub fn parse_iso_pub(s: &str) -> (r: i64)
    requires
        iso_fits(s@),
    ensures
        r as int == spec_parse_iso(s@),
{
    match iso_fields_of(s) {
        None => 0,
        Some((y, m, d, h, mi, se)) => {
            let days = days_from_civil(y, m, d);
            days * 86400 + h * 3600 + mi * 60 + se
        },
    }
}

/// `days_from_civil` computed without bounds on the year.
fn days_from_civil_wide(y: i64, m: u32, d: u32) -> (r: i128)
    ensures
        r as int == spec_days_from_civil(y as int, m as int, d as int),
{
    let y: i128 = if m <= 2 {
        y as i128 - 1
    } else {
        y as i128
    };
    let era: i128 = if y >= 0 {
        y / 400
    } else {
        -((399 - y) / 400)
    };
    assert(era == (y as int) / 400);
    let yoe = y - era * 400;
    let mp: i128 = if m > 2 {
        m as i128 - 3
    } else {
        m as i128 + 9
    };
    let doy = (153 * mp + 2) / 5 + d as i128 - 1;
    let doe = yoe * 365 + yoe / 4 - yoe / 100 + doy;
    era * 146097 + doe - 719468
}

/// `parse_iso_pub` where its arithmetic stays within `i64`, `None` where it
/// would not.
pub fn parse_iso_checked(s: &str) -> (r: Option<i64>)
    ensures
        r is Some <==> iso_fits(s@),
        r matches Some(v) ==> v as int == spec_parse_iso(s@),
{
    match iso_fields_of(s) {
        None => Some(0),
        Some((y, m, d, h, mi, se)) => {
            let y1: i128 = if m <= 2 {
                y as i128 - 1
            } else {
                y as i128
            };
            let era: i128 = if y1 >= 0 {
                y1 / 400
            } else {
                -((399 - y1) / 400)
            };
            assert(era == (y1 as int) / 400);
            let days = days_from_civil_wide(y, m, d);
            let lo = i64::MIN as i128;
            let hi = i64::MAX as i128;
            let a = days * 86400;
            let b = h as i128 * 3600;
            let c = mi as i128 * 60;
            let total = a + b + c + se as i128;
            if lo <= y1 && y1 <= hi && lo <= y1 - 399 && y1 - 399 <= hi && lo <= era * 146097
                && era * 146097 <= hi && lo <= days + 719468 && days + 719468 <= hi && lo <= days
                && days <= hi && lo <= a && a <= hi && lo <= b && b <= hi && lo <= a + b && a + b
                <= hi && lo <= c && c <= hi && lo <= a + b + c && a + b + c <= hi && lo <= total
                && total <= hi {
                Some(total as i64)
            } else {
                None
            }
        },
    }
}

/// Day numbers from 0000-01-01 on have a year of at least 0.
proof fn lemma_year_nonneg(z: int)
    requires
        z >= -719528,
    ensures
        spec_civil_from_days(z).0 >= 0,
{
    let z1 = z + epoch_shift();
    let era = z1 / 146097;
    let doe = z1 - era * 146097;
    lemma_yoe_bounds(doe);
    if z1 < 0 {
        assert(era == -1);
        assert(146037 <= doe <= 146096);
        let yoe = (doe - doe / 1460 + doe / 36524 - doe / 146096) / 365;
        assert(yoe == 399);
        let doy = doe - (365 * yoe + yoe / 4 - yoe / 100);
        assert(306 <= doy <= 365);
        let mp = (5 * doy + 2) / 153;
        assert(10 <= mp <= 11);
    }
}

/// A zero padded natural number is a digit string that parses back to it.
proof fn lemma_padded_parse(v: int, w: nat)
    requires
        0 <= v <= i64::MAX,
    ensures
        all_digits(fmt_padded(v, w)),
        fmt_padded(v, w).len() >= 1,
        parse_i64_spec(fmt_padded(v, w)) == Some(v),
{
    let ds = digits_of(v as nat);
    lemma_digits_of(v as nat);
    let s = fmt_padded(v, w);
    if ds.len() < w {
        lemma_digits_value_leading_zeros((w - ds.len()) as nat, ds);
    }
    assert(s == pad_zeros(ds, w));
    assert(is_digit(s[0]));
}

proof fn lemma_digits_plain(s: Seq<char>)
    requires
        all_digits(s),
    ensures
        iso_normalize(s) == s,
        !s.contains(' '),
        !s.contains('-'),
        !s.contains(':'),
    decreases s.len(),
{
    if s.len() > 0 {
        assert(all_digits(s.drop_last()));
        lemma_digits_plain(s.drop_last());
        assert(is_digit(s[s.len() - 1]));
        assert(s.drop_last().push(s.last()) =~= s);
    }
}

proof fn lemma_iso_normalize_concat(a: Seq<char>, b: Seq<char>)
    ensures
        iso_normalize(a + b) == iso_normalize(a) + iso_normalize(b),
    decreases b.len(),
{
    if b.len() == 0 {
        assert(a + b =~= a);
        assert(iso_normalize(a) + iso_normalize(b) =~= iso_normalize(a));
    } else {
        assert((a + b).drop_last() =~= a + b.drop_last());
        lemma_iso_normalize_concat(a, b.drop_last());
        assert((a + b).last() == b.last());
        let x = iso_normalize(a);
        let y = iso_normalize(b.drop_last());
        assert((x + y).push(' ') =~= x + y.push(' '));
        assert((x + y).push(b.last()) =~= x + y.push(b.last()));
    }
}

proof fn lemma_iso_normalize_char(c: char)
    ensures
        iso_normalize(seq![c]) == (if c == 'Z' {
            Seq::<char>::empty()
        } else if c == 'T' {
            seq![' ']
        } else {
            seq![c]
        }),
{
    assert(seq![c].drop_last() =~= Seq::<char>::empty());
    assert(seq![c].last() == c);
    assert(iso_normalize(Seq::<char>::empty()) == Seq::<char>::empty());
    assert(Seq::<char>::empty().push(' ') =~= seq![' ']);
    assert(Seq::<char>::empty().push(c) =~= seq![c]);
}

proof fn lemma_parsed_all(ps: Seq<Seq<char>>, vs: Seq<int>)
    requires
        ps.len() == vs.len(),
        forall|i: int| 0 <= i < ps.len() ==> parse_i64_spec(#[trigger] ps[i]) == Some(vs[i]),
    ensures
        parsed_i64s(ps) == vs,
    decreases ps.len(),
{
    if ps.len() > 0 {
        lemma_parsed_all(ps.drop_last(), vs.drop_last());
        assert(parse_i64_spec(ps[ps.len() - 1]) == Some(vs[vs.len() - 1]));
        assert(vs.drop_last().push(vs.last()) =~= vs);
    } else {
        assert(vs =~= Seq::<int>::empty());
    }
}

/// Three digit strings joined by `sep` split back into the three, each
/// parsing to its value.
proof fn lemma_three_fields(a: int, wa: nat, b: int, wb: nat, c: int, wc: nat, sep: char)
    requires
        0 <= a <= i64::MAX,
        0 <= b <= i64::MAX,
        0 <= c <= i64::MAX,
        sep == '-' || sep == ':',
    ensures
        parsed_i64s(
            split(fmt_padded(a, wa) + seq![sep] + fmt_padded(b, wb) + seq![sep] + fmt_padded(c, wc), sep),
        ) == seq![a, b, c],
{
    let (x, y, z) = (fmt_padded(a, wa), fmt_padded(b, wb), fmt_padded(c, wc));
    lemma_padded_parse(a, wa);
    lemma_padded_parse(b, wb);
    lemma_padded_parse(c, wc);
    lemma_digits_plain(x);
    lemma_digits_plain(y);
    lemma_digits_plain(z);
    lemma_split_concat(x + seq![sep] + y, z, sep);
    lemma_split_concat(x, y, sep);
    lemma_split_none(x, sep);
    lemma_split_none(y, sep);
    lemma_split_none(z, sep);
    let ps = split(x + seq![sep] + y + seq![sep] + z, sep);
    assert(ps =~= seq![x, y, z]);
    lemma_parsed_all(ps, seq![a, b, c]);
}

proof fn lemma_join3_no_char(a: Seq<char>, b: Seq<char>, c: Seq<char>, sep: char, x: char)
    requires
        !a.contains(x),
        !b.contains(x),
        !c.contains(x),
        sep != x,
    ensures
        !(a + seq![sep] + b + seq![sep] + c).contains(x),
{
    let s = a + seq![sep] + b + seq![sep] + c;
    if s.contains(x) {
        let k = choose|k: int| 0 <= k < s.len() && s[k] == x;
        if k < a.len() {
            assert(a[k] == x);
        } else if k == a.len() {
        } else if k < a.len() + 1 + b.len() {
            assert(b[k - a.len() - 1] == x);
        } else if k == a.len() + 1 + b.len() {
        } else {
            assert(c[k - a.len() - 2 - b.len()] == x);
        }
    }
}

proof fn lemma_normalize3(a: Seq<char>, b: Seq<char>, c: Seq<char>, sep: char)
    requires
        all_digits(a),
        all_digits(b),
        all_digits(c),
        sep == '-' || sep == ':',
    ensures
        iso_normalize(a + seq![sep] + b + seq![sep] + c) == a + seq![sep] + b + seq![sep] + c,
        !(a + seq![sep] + b + seq![sep] + c).contains(' '),
{
    lemma_digits_plain(a);
    lemma_digits_plain(b);
    lemma_digits_plain(c);
    lemma_iso_normalize_char(sep);
    lemma_iso_normalize_concat(a + seq![sep] + b + seq![sep], c);
    lemma_iso_normalize_concat(a + seq![sep] + b, seq![sep]);
    lemma_iso_normalize_concat(a + seq![sep], b);
    lemma_iso_normalize_concat(a, seq![sep]);
    lemma_join3_no_char(a, b, c, sep, ' ');
}

/// The fields read back from an ISO text written from natural numbers.
#[verifier::rlimit(40)]
proof fn lemma_iso_text_fields(y: int, mo: int, d: int, h: int, mi: int, se: int)
    requires
        0 <= y <= i64::MAX,
        0 <= mo <= u32::MAX,
        0 <= d <= u32::MAX,
        0 <= h <= i64::MAX,
        0 <= mi <= i64::MAX,
        0 <= se <= i64::MAX,
    ensures
        iso_fields(iso_text(y, mo, d, h, mi, se)) == Some((y, mo, d, h, mi, se)),
{
    let t = iso_text(y, mo, d, h, mi, se);
    let (ys, ms, ds) = (fmt_padded(y, 4), fmt_padded(mo, 2), fmt_padded(d, 2));
    let (hs, mis, ses) = (fmt_padded(h, 2), fmt_padded(mi, 2), fmt_padded(se, 2));
    lemma_padded_parse(y, 4);
    lemma_padded_parse(mo, 2);
    lemma_padded_parse(d, 2);
    lemma_padded_parse(h, 2);
    lemma_padded_parse(mi, 2);
    lemma_padded_parse(se, 2);
    let date = ys + seq!['-'] + ms + seq!['-'] + ds;
    let time = hs + seq![':'] + mis + seq![':'] + ses;
    assert(t =~= date + seq!['T'] + time + seq!['Z']);
    assert(t[0] == ys[0]);
    assert(is_digit(ys[0]));
    assert(trim_start(t) == t);
    assert(t.last() == 'Z');
    assert(trim_end(t) == t);
    lemma_normalize3(ys, ms, ds, '-');
    lemma_normalize3(hs, mis, ses, ':');
    lemma_iso_normalize_char('Z');
    lemma_iso_normalize_char('T');
    lemma_iso_normalize_concat(date + seq!['T'] + time, seq!['Z']);
    lemma_iso_normalize_concat(date + seq!['T'], time);
    lemma_iso_normalize_concat(date, seq!['T']);
    let u = iso_normalize(trim(t));
    assert(u =~= date + seq![' '] + time);
    lemma_split_concat(date, time, ' ');
    lemma_split_none(date, ' ');
    lemma_split_none(time, ' ');
    assert(split(u, ' ') =~= seq![date, time]);
    lemma_three_fields(y, 4, mo, 2, d, 2, '-');
    lemma_three_fields(h, 2, mi, 2, se, 2, ':');
}

/// Parsing the text that `format_unix_iso` writes gives back the Unix time,
/// for every time from year 0 on (an earlier year is written with a minus
/// sign, which the parser reads as a separator).
#[verifier::rlimit(40)]
#[verifier::spinoff_prover]
pub proof fn lemma_parse_format_roundtrip(ts: i64)
    requires
        ts >= -62167219200,
    ensures
        iso_fits(spec_format_unix_iso(ts as int)),
        spec_parse_iso(spec_format_unix_iso(ts as int)) == ts,
{
    let days = (ts as int) / 86400;
    let secs = (ts as int) % 86400;
    let (y, mo, d) = spec_civil_from_days(days);
    let (h, mi, se) = (secs / 3600, (secs % 3600) / 60, secs % 60);
    assert(spec_days_from_civil(y, mo, d) == days && 1 <= mo <= 12 && 1 <= d <= 31) by {
        lemma_days_civil_roundtrip(days);
    }
    assert(0 <= y <= days + epoch_shift() + 401) by {
        lemma_year_nonneg(days);
        lemma_year_bound(days);
    }
    assert(0 <= h < 24 && 0 <= mi < 60 && 0 <= se < 60);
    assert(civil_seconds(y, mo, d, h, mi, se) == ts);
    assert(iso_fields(spec_format_unix_iso(ts as int)) == Some((y, mo, d, h, mi, se))) by {
        lemma_iso_text_fields(y, mo, d, h, mi, se);
    }
}

/// The year of a day number is far below the day number.
proof fn lemma_year_bound(z: int)
    requires
        z >= -719528,
    ensures
        spec_civil_from_days(z).0 <= z + epoch_shift() + 401,
{
    let z1 = z + epoch_shift();
    let era = z1 / 146097;
    let doe = z1 - era * 146097;
    lemma_yoe_bounds(doe);
    lemma_year_nonneg(z);
    if z1 >= 0 {
        assert(era >= 0);
        assert(era * 400 <= era * 146097);
    }
}

} // verus!
