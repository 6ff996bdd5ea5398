//! Field formatters: ISO 8601 timestamps, calendar conversion.
use crate::text::{
    field_i64, get_i64, lemma_digits_value_bound, pow10, push_padded, push_str, str_chars, str_eq,
    str_trim, string_from_char_range, string_from_chars, trim_ws, padded, signed_decimal,
};
use vstd::prelude::*;
use vstd::string::StringSliceAdditionalSpecFns;

verus! {

/// Euclidean quotient and remainder (`div_euclid`, `rem_euclid`).
pub fn div_mod_euclid(a: i128, b: i128) -> (r: (i128, i128))
    requires
        b > 0,
        a > i128::MIN,
    ensures
        r.0 == a / b,
        r.1 == a % b,
{
    if a >= 0 {
        let q = (a as u128 / b as u128) as i128;
        let m = (a as u128 % b as u128) as i128;
        proof {
            vstd::arithmetic::div_mod::lemma_fundamental_div_mod(a as int, b as int);
        }
        (q, m)
    } else {
        let n: u128 = (-(a + 1)) as u128;
        let qn = (n / b as u128) as i128;
        let rn = (n % b as u128) as i128;
        let q = -qn - 1;
        let m = b - 1 - rn;
        proof {
            vstd::arithmetic::div_mod::lemma_fundamental_div_mod(n as int, b as int);
            assert(n as int == qn * b + rn);
            assert(a == q * b + m) by (nonlinear_arith)
                requires
                    n == -(a + 1),
                    n == qn * b + rn,
                    q == -qn - 1,
                    m == b - 1 - rn,
            ;
            vstd::arithmetic::div_mod::lemma_fundamental_div_mod_converse(a as int, b as int, q as int, m as int);
        }
        (q, m)
    }
}

/// Date and time of day (UTC) of an epoch second count, as the proleptic
/// Gregorian civil calendar gives them: (year, month, day, hour, minute,
/// second).
pub open spec fn civil_components(epoch: int) -> (int, int, int, int, int, int) {
    let secs = epoch % 86400;
    let days = epoch / 86400 + 719468;
    let era = days / 146097;
    let doe = days % 146097;
    let yoe = (doe - doe / 1460 + doe / 36524 - doe / 146096) / 365;
    let y = yoe + era * 400;
    let doy = doe - (365 * yoe + yoe / 4 - yoe / 100);
    let mp = (5 * doy + 2) / 153;
    let day = doy - (153 * mp + 2) / 5 + 1;
    let month = if mp < 10 { mp + 3 } else { mp - 9 };
    let year = if month <= 2 { y + 1 } else { y };
    (year, month, day, secs / 3600, (secs % 3600) / 60, secs % 60)
}

/// Convert epoch seconds to date components (UTC).
pub fn epoch_secs_to_components(epoch: i64) -> (r: (i64, i64, i64, i64, i64, i64))
    ensures
        (r.0 as int, r.1 as int, r.2 as int, r.3 as int, r.4 as int, r.5 as int) == civil_components(epoch as int),
{
    let (qd, secs) = div_mod_euclid(epoch as i128, 86400);
    let days = qd + 719468;
    let (era, doe) = div_mod_euclid(days, 146097);
    let d: u128 = doe as u128;
    let yoe: u128 = (d - d / 1460 + d / 36524 - d / 146096) / 365;
    let y: i128 = yoe as i128 + era * 400;
    let doy: u128 = d - (365 * yoe + yoe / 4 - yoe / 100);
    let mp: u128 = (5 * doy + 2) / 153;
    let day: u128 = doy - (153 * mp + 2) / 5 + 1;
    let month: u128 = if mp < 10 {
        mp + 3
    } else {
        mp - 9
    };
    let year: i128 = if month <= 2 {
        y + 1
    } else {
        y
    };
    let s: u128 = secs as u128;
    let hour = (s / 3600) as i64;
    let minute = ((s % 3600) / 60) as i64;
    let second = (s % 60) as i64;
    (year as i64, month as i64, day as i64, hour, minute, second)
}

/// Epoch seconds of a UTC date and time (proleptic Gregorian calendar).
pub open spec fn epoch_of_date(year: int, month: int, day: int, hour: int, minute: int, second: int) -> int {
    let y = if month <= 2 { year - 1 } else { year };
    let m = if month <= 2 { month + 9 } else { month - 3 };
    let era = y / 400;
    let yoe = y % 400;
    let doy = (153 * m + 2) / 5 + day - 1;
    let doe = yoe * 365 + yoe / 4 - yoe / 100 + doy;
    let days = era * 146097 + doe - 719468;
    days * 86400 + hour * 3600 + minute * 60 + second
}

/// The year of era and day of year computed from a day of the 400-year era
/// stay in range: `0 <= yoe < 400` and `0 <= doy <= 365`.
proof fn lemma_era_day_ranges(doe: int)
    requires
        0 <= doe < 146097,
    ensures
        ({
            let yoe = (doe - doe / 1460 + doe / 36524 - doe / 146096) / 365;
            let doy = doe - (365 * yoe + yoe / 4 - yoe / 100);
            &&& 0 <= yoe < 400
            &&& 0 <= doy <= 365
        }),
{
    let q1 = doe / 1460;
    let q2 = doe / 36524;
    let q3 = doe / 146096;
    vstd::arithmetic::div_mod::lemma_fundamental_div_mod(doe, 1460);
    vstd::arithmetic::div_mod::lemma_fundamental_div_mod(doe, 36524);
    vstd::arithmetic::div_mod::lemma_fundamental_div_mod(doe, 146096);
    let n = doe - q1 + q2 - q3;
    let yoe = n / 365;
    vstd::arithmetic::div_mod::lemma_fundamental_div_mod(n, 365);
    let r4 = yoe / 4;
    let r100 = yoe / 100;
    vstd::arithmetic::div_mod::lemma_fundamental_div_mod(yoe, 4);
    vstd::arithmetic::div_mod::lemma_fundamental_div_mod(yoe, 100);
    assert(0 <= yoe < 400 && 0 <= doe - (365 * yoe + r4 - r100) <= 365) by (nonlinear_arith)
        requires
            0 <= doe < 146097,
            doe == 1460 * q1 + doe % 1460,
            0 <= doe % 1460 < 1460,
            doe == 36524 * q2 + doe % 36524,
            0 <= doe % 36524 < 36524,
            doe == 146096 * q3 + doe % 146096,
            0 <= doe % 146096 < 146096,
            n == doe - q1 + q2 - q3,
            n == 365 * yoe + n % 365,
            0 <= n % 365 < 365,
            yoe == 4 * r4 + yoe % 4,
            0 <= yoe % 4 < 4,
            yoe == 100 * r100 + yoe % 100,
            0 <= yoe % 100 < 100,
    ;
}

/// For epoch seconds at or after the epoch, the date and time of day are in
/// their ranges: a year from 1600 on, month `1..=12`, day `1..=31`, hour
/// `0..=23`, minute and second `0..=59`.
pub proof fn lemma_civil_ranges(epoch: int)
    requires
        0 <= epoch,
    ensures
        ({
            let c = civil_components(epoch);
            &&& 1600 <= c.0
            &&& 1 <= c.1 <= 12
            &&& 1 <= c.2 <= 31
            &&& 0 <= c.3 <= 23
            &&& 0 <= c.4 <= 59
            &&& 0 <= c.5 <= 59
        }),
{
    let secs = epoch % 86400;
    let d = epoch / 86400;
    vstd::arithmetic::div_mod::lemma_fundamental_div_mod(epoch, 86400);
    let days = d + 719468;
    let era = days / 146097;
    let doe = days % 146097;
    vstd::arithmetic::div_mod::lemma_fundamental_div_mod(days, 146097);
    assert(d >= 0) by (nonlinear_arith)
        requires
            0 <= epoch,
            epoch == 86400 * d + secs,
            0 <= secs < 86400,
    ;
    assert(era >= 4) by (nonlinear_arith)
        requires
            days >= 719468,
            days == 146097 * era + doe,
            0 <= doe < 146097,
    ;
    lemma_era_day_ranges(doe);
    let yoe = (doe - doe / 1460 + doe / 36524 - doe / 146096) / 365;
    let doy = doe - (365 * yoe + yoe / 4 - yoe / 100);
    let mp = (5 * doy + 2) / 153;
    vstd::arithmetic::div_mod::lemma_fundamental_div_mod(5 * doy + 2, 153);
    assert(0 <= mp <= 11) by (nonlinear_arith)
        requires
            0 <= doy <= 365,
            mp == (5 * doy + 2) / 153,
    ;
    let q = (153 * mp + 2) / 5;
    vstd::arithmetic::div_mod::lemma_fundamental_div_mod(153 * mp + 2, 5);
    assert(0 <= doy - q <= 30);
    let h = secs / 3600;
    vstd::arithmetic::div_mod::lemma_fundamental_div_mod(secs, 3600);
    let r = secs % 3600;
    vstd::arithmetic::div_mod::lemma_fundamental_div_mod(r, 60);
    assert(0 <= h <= 23);
}

/// Converting epoch seconds to a calendar date and time of day and back
/// gives the same epoch seconds.
pub proof fn lemma_calendar_round_trip(epoch: int)
    ensures
        ({
            let c = civil_components(epoch);
            epoch_of_date(c.0, c.1, c.2, c.3, c.4, c.5) == epoch
        }),
{
    let secs = epoch % 86400;
    let d = epoch / 86400;
    vstd::arithmetic::div_mod::lemma_fundamental_div_mod(epoch, 86400);
    let days = d + 719468;
    let era = days / 146097;
    let doe = days % 146097;
    vstd::arithmetic::div_mod::lemma_fundamental_div_mod(days, 146097);
    lemma_era_day_ranges(doe);
    let yoe = (doe - doe / 1460 + doe / 36524 - doe / 146096) / 365;
    let y = yoe + era * 400;
    let doy = doe - (365 * yoe + yoe / 4 - yoe / 100);
    let mp = (5 * doy + 2) / 153;
    assert(0 <= mp <= 11) by (nonlinear_arith)
        requires
            0 <= doy <= 365,
            mp == (5 * doy + 2) / 153,
    ;
    let day = doy - (153 * mp + 2) / 5 + 1;
    let month = if mp < 10 { mp + 3 } else { mp - 9 };
    let year = if month <= 2 { y + 1 } else { y };
    let c = civil_components(epoch);
    assert(c == (year, month, day, secs / 3600, (secs % 3600) / 60, secs % 60));
    // back again
    let yb = if month <= 2 { year - 1 } else { year };
    let mb = if month <= 2 { month + 9 } else { month - 3 };
    assert(yb == y);
    assert(mb == mp);
    vstd::arithmetic::div_mod::lemma_fundamental_div_mod_converse(y, 400, era, yoe);
    assert(y / 400 == era && y % 400 == yoe);
    let doyb = (153 * mb + 2) / 5 + day - 1;
    assert(doyb == doy);
    let doeb = yoe * 365 + yoe / 4 - yoe / 100 + doyb;
    assert(doeb == doe);
    let daysb = era * 146097 + doeb - 719468;
    assert(daysb == d);
    let h = secs / 3600;
    let mi = (secs % 3600) / 60;
    let se = secs % 60;
    assert(h * 3600 + mi * 60 + se == secs) by (nonlinear_arith)
        requires
            0 <= secs < 86400,
            h == secs / 3600,
            mi == (secs % 3600) / 60,
            se == secs % 60,
    ;
    assert(epoch_of_date(year, month, day, h, mi, se) == daysb * 86400 + h * 3600 + mi * 60 + se);
}

/// Whether `y` is a leap year of the Gregorian calendar.
pub open spec fn is_leap_year(y: int) -> bool {
    y % 4 == 0 && (y % 100 != 0 || y % 400 == 0)
}

/// Number of days of month `m` (1 to 12) of year `y`.
pub open spec fn days_in_month(y: int, m: int) -> int {
    if m == 2 {
        if is_leap_year(y) { 29 } else { 28 }
    } else if m == 4 || m == 6 || m == 9 || m == 11 {
        30
    } else {
        31
    }
}

/// Whether year `yoe` of a 400-year era, counted from March, holds a
/// February 29th (that of the next calendar year).
spec fn era_year_is_long(yoe: int) -> bool {
    (yoe + 1) % 4 == 0 && ((yoe + 1) % 100 != 0 || yoe == 399)
}

/// Day `doy` of year `yoe` of an era, as a day of the era, gives back year
/// `yoe` when the day lies within that year.
proof fn lemma_year_of_era(yoe: int, doy: int)
    requires
        0 <= yoe < 400,
        0 <= doy,
        doy <= 364 || (doy == 365 && era_year_is_long(yoe)),
    ensures
        ({
            let doe = yoe * 365 + yoe / 4 - yoe / 100 + doy;
            &&& 0 <= doe < 146097
            &&& (doe - doe / 1460 + doe / 36524 - doe / 146096) / 365 == yoe
        }),
{
    let a = yoe / 100;
    let r = yoe % 100;
    vstd::arithmetic::div_mod::lemma_fundamental_div_mod(yoe, 100);
    let b = r / 4;
    let c = r % 4;
    vstd::arithmetic::div_mod::lemma_fundamental_div_mod(r, 4);
    assert(0 <= a <= 3);
    vstd::arithmetic::div_mod::lemma_fundamental_div_mod_converse(yoe, 4, 25 * a + b, c);
    vstd::arithmetic::div_mod::lemma_fundamental_div_mod_converse(yoe + 1, 100, a + if r == 99 { 1int } else { 0 }, if r == 99 { 0int } else { r + 1 });
    vstd::arithmetic::div_mod::lemma_fundamental_div_mod_converse(yoe + 1, 4, 25 * a + b + if c == 3 { 1int } else { 0 }, if c == 3 { 0int } else { c + 1 });
    assert(era_year_is_long(yoe) ==> c == 3 && (b != 24 || a == 3));
    let doe = yoe * 365 + yoe / 4 - yoe / 100 + doy;
    assert(doe == 36524 * a + 1461 * b + 365 * c + doy);
    let r1 = 24 * a + b + 365 * c + doy;
    let q1: int = 25 * a + b + if r1 >= 1460 { 1int } else { 0 };
    vstd::arithmetic::div_mod::lemma_fundamental_div_mod_converse(doe, 1460, q1, doe - 1460 * q1);
    let top = doe == 146096;
    let q2: int = a + if top { 1int } else { 0 };
    vstd::arithmetic::div_mod::lemma_fundamental_div_mod_converse(doe, 36524, q2, doe - 36524 * q2);
    let q3: int = if top { 1int } else { 0 };
    vstd::arithmetic::div_mod::lemma_fundamental_div_mod_converse(doe, 146096, q3, doe - 146096 * q3);
    let f = doe - q1 + q2 - q3;
    assert(f == 365 * yoe + doy - (if r1 >= 1460 { 1int } else { 0 }));
    assert(0 <= doy - (if r1 >= 1460 { 1int } else { 0 }) < 365);
    vstd::arithmetic::div_mod::lemma_fundamental_div_mod_converse(f, 365, yoe, doy - (if r1 >= 1460 { 1int } else { 0 }));
}

/// A valid UTC date and time of day, turned into epoch seconds and back into
/// a date and time, gives the same date and time.
pub proof fn lemma_date_round_trip(year: int, month: int, day: int, hour: int, minute: int, second: int)
    requires
        1 <= month <= 12,
        1 <= day <= days_in_month(year, month),
        0 <= hour <= 23,
        0 <= minute <= 59,
        0 <= second <= 59,
    ensures
        civil_components(epoch_of_date(year, month, day, hour, minute, second)) == (
            year,
            month,
            day,
            hour,
            minute,
            second,
        ),
{
    let yb = if month <= 2 { year - 1 } else { year };
    let mb = if month <= 2 { month + 9 } else { month - 3 };
    let era = yb / 400;
    let yoe = yb % 400;
    vstd::arithmetic::div_mod::lemma_fundamental_div_mod(yb, 400);
    let start = (153 * mb + 2) / 5;
    vstd::arithmetic::div_mod::lemma_fundamental_div_mod(153 * mb + 2, 5);
    let doy = start + day - 1;
    if month == 2 {
        assert(year == 4 * (100 * era) + (yoe + 1));
        vstd::arithmetic::div_mod::lemma_mod_multiples_vanish(100 * era, yoe + 1, 4);
        assert(year == 100 * (4 * era) + (yoe + 1));
        vstd::arithmetic::div_mod::lemma_mod_multiples_vanish(4 * era, yoe + 1, 100);
        vstd::arithmetic::div_mod::lemma_mod_multiples_vanish(era, yoe + 1, 400);
        if yoe < 399 {
            vstd::arithmetic::div_mod::lemma_small_mod((yoe + 1) as nat, 400);
        }
        assert(is_leap_year(year) == era_year_is_long(yoe));
    }
    assert(doy <= 364 || (doy == 365 && era_year_is_long(yoe)));
    lemma_year_of_era(yoe, doy);
    let doe = yoe * 365 + yoe / 4 - yoe / 100 + doy;
    let days = era * 146097 + doe - 719468;
    let secs = hour * 3600 + minute * 60 + second;
    let epoch = days * 86400 + secs;
    assert(epoch == epoch_of_date(year, month, day, hour, minute, second));
    vstd::arithmetic::div_mod::lemma_fundamental_div_mod_converse(epoch, 86400, days, secs);
    vstd::arithmetic::div_mod::lemma_fundamental_div_mod_converse(days + 719468, 146097, era, doe);
    let yoe2 = (doe - doe / 1460 + doe / 36524 - doe / 146096) / 365;
    assert(yoe2 == yoe);
    let doy2 = doe - (365 * yoe2 + yoe2 / 4 - yoe2 / 100);
    assert(doy2 == doy);
    vstd::arithmetic::div_mod::lemma_fundamental_div_mod_converse(5 * doy + 2, 153, mb, 5 * doy + 2 - 153 * mb);
    vstd::arithmetic::div_mod::lemma_fundamental_div_mod_converse(secs, 3600, hour, minute * 60 + second);
    vstd::arithmetic::div_mod::lemma_fundamental_div_mod_converse(minute * 60 + second, 60, minute, second);
    vstd::arithmetic::div_mod::lemma_fundamental_div_mod_converse(yb, 400, era, yoe);
}

/// Convert date components to epoch seconds (UTC).
fn date_to_epoch(year: i64, month: i64, day: i64, hour: i64, minute: i64, second: i64) -> (r: i64)
    requires
        -10000 <= year <= 10000,
        1 <= month <= 12,
        1 <= day <= 31,
        0 <= hour <= 23,
        0 <= minute <= 59,
        0 <= second <= 60,
    ensures
        r == epoch_of_date(year as int, month as int, day as int, hour as int, minute as int, second as int),
{
    let y: i128 = if month <= 2 {
        year as i128 - 1
    } else {
        year as i128
    };
    let m: i128 = if month <= 2 {
        month as i128 + 9
    } else {
        month as i128 - 3
    };
    let (era, yoe) = div_mod_euclid(y, 400);
    proof {
        assert(-26 <= era <= 26) by (nonlinear_arith)
            requires
                era == y / 400,
                -10001 <= y <= 10000,
        ;
    }
    let mm: u128 = m as u128;
    let doy: i128 = ((153 * mm + 2) / 5) as i128 + day as i128 - 1;
    let yo: u128 = yoe as u128;
    let doe: i128 = (yo * 365 + yo / 4 - yo / 100) as i128 + doy;
    let days: i128 = era * 146097 + doe - 719468;
    let r: i128 = days * 86400 + hour as i128 * 3600 + minute as i128 * 60 + second as i128;
    r as i64
}

/// `parse_tz_offset`: seconds of a `hh:mm`, `hhmm` or `hh` offset.
pub open spec fn tz_offset_secs(o: Seq<char>) -> Option<int> {
    let b = vstd::utf8::encode_utf8(trim_ws(o));
    if b.len() < 2 {
        None
    } else if b.len() >= 5 && b[2] == 58 {
        match (field_i64(b, 0, 2), field_i64(b, 3, 5)) {
            (Some(hh), Some(mm)) => Some(hh * 3600 + mm * 60),
            _ => None,
        }
    } else if b.len() >= 4 {
        match (field_i64(b, 0, 2), field_i64(b, 2, 4)) {
            (Some(hh), Some(mm)) => Some(hh * 3600 + mm * 60),
            _ => None,
        }
    } else {
        match field_i64(b, 0, 2) {
            Some(hh) => Some(hh * 3600),
            None => None,
        }
    }
}

pub open spec fn same_value(r: Option<i64>, s: Option<int>) -> bool {
    match (r, s) {
        (Some(x), Some(y)) => x == y,
        (None, None) => true,
        _ => false,
    }
}

/// A field of at most two bytes parses to a value in `-9..=99`.
proof fn lemma_short_field(b: Seq<u8>, a: int, e: int)
    requires
        e - a <= 2,
        field_i64(b, a, e) is Some,
    ensures
        -9 <= field_i64(b, a, e)->0 <= 99,
{
    let x = b.subrange(a, e);
    reveal_with_fuel(pow10, 3);
    assert(x.len() <= 2);
    if x.len() > 0 && (x[0] == 43 || x[0] == 45) {
        lemma_digits_value_bound(x.drop_first());
        assert(pow10(x.drop_first().len()) <= 10);
    } else {
        lemma_digits_value_bound(x);
        assert(pow10(x.len()) <= 100);
    }
}

/// A field of at most four bytes parses to a value in `-999..=9999`.
proof fn lemma_year_field(b: Seq<u8>, a: int, e: int)
    requires
        e - a <= 4,
        field_i64(b, a, e) is Some,
    ensures
        -999 <= field_i64(b, a, e)->0 <= 9999,
{
    let x = b.subrange(a, e);
    reveal_with_fuel(pow10, 5);
    assert(x.len() <= 4);
    if x.len() > 0 && (x[0] == 43 || x[0] == 45) {
        lemma_digits_value_bound(x.drop_first());
        assert(pow10(x.drop_first().len()) <= 1000);
    } else {
        lemma_digits_value_bound(x);
        assert(pow10(x.len()) <= 10000);
    }
}

/// Parse a timezone offset (`hh:mm`, `hhmm` or `hh`) into seconds.
pub fn parse_tz_offset(s: &str) -> (r: Option<i64>)
    ensures
        same_value(r, tz_offset_secs(s@)),
{
    let t = str_trim(s);
    let b = t.as_bytes();
    let n = b.len();
    if n < 2 {
        return None;
    }
    let (hh, mm): (i64, i64) = if n >= 5 && b[2] == 58u8 {
        let h = match get_i64(t, 0, 2) {
            Some(v) => v,
            None => return None,
        };
        let m = match get_i64(t, 3, 5) {
            Some(v) => v,
            None => return None,
        };
        proof {
            lemma_short_field(t.spec_bytes(), 0, 2);
            lemma_short_field(t.spec_bytes(), 3, 5);
        }
        (h, m)
    } else if n >= 4 {
        let h = match get_i64(t, 0, 2) {
            Some(v) => v,
            None => return None,
        };
        let m = match get_i64(t, 2, 4) {
            Some(v) => v,
            None => return None,
        };
        proof {
            lemma_short_field(t.spec_bytes(), 0, 2);
            lemma_short_field(t.spec_bytes(), 2, 4);
        }
        (h, m)
    } else {
        let h = match get_i64(t, 0, 2) {
            Some(v) => v,
            None => return None,
        };
        proof {
            lemma_short_field(t.spec_bytes(), 0, 2);
        }
        (h, 0)
    };
    Some(hh * 3600 + mm * 60)
}

/// Number of leading ASCII digits.
pub open spec fn leading_digits(s: Seq<char>) -> nat
    decreases s.len(),
{
    if s.len() > 0 && '0' <= s[0] <= '9' {
        1 + leading_digits(s.drop_first())
    } else {
        0
    }
}

/// The text after the seconds field once a fractional part is skipped.
pub open spec fn after_fraction(rest: Seq<char>) -> Seq<char> {
    if rest.len() > 0 && rest[0] == '.' {
        rest.drop_first().skip(leading_digits(rest.drop_first()) as int)
    } else {
        rest
    }
}

/// Offset in seconds that the zone designator denotes.
pub open spec fn zone_secs(z: Seq<char>) -> Option<int> {
    if z.len() == 0 || z == seq!['Z'] || z == seq!['z'] {
        Some(0)
    } else if z[0] == '+' {
        tz_offset_secs(z.drop_first())
    } else if z[0] == '-' {
        match tz_offset_secs(z.drop_first()) {
            Some(t) => Some(-t),
            None => None,
        }
    } else {
        None
    }
}

/// Seconds since the epoch that an ISO 8601 timestamp denotes, as
/// `parse_iso8601` reads it: `YYYY-MM-DD` then `T`, `t` or a space, then
/// `hh:mm:ss`, an optional fraction, and an optional zone (`Z`, `z`,
/// `+hh:mm`, `-hhmm`, ...). Surrounding whitespace is ignored.
pub open spec fn iso8601_secs(s: Seq<char>) -> Option<int> {
    let b = vstd::utf8::encode_utf8(trim_ws(s));
    if b.len() < 19 {
        None
    } else {
        match (
            field_i64(b, 0, 4),
            field_i64(b, 5, 7),
            field_i64(b, 8, 10),
            field_i64(b, 11, 13),
            field_i64(b, 14, 16),
            field_i64(b, 17, 19),
        ) {
            (Some(year), Some(month), Some(day), Some(hour), Some(minute), Some(second)) => {
                if b[4] == 45 && b[7] == 45 && (b[10] == 84 || b[10] == 116 || b[10] == 32) && b[13]
                    == 58 && b[16] == 58 && 1 <= month <= 12 && 1 <= day <= 31 && 0 <= hour <= 23
                    && 0 <= minute <= 59 && 0 <= second <= 60 {
                    let rest = vstd::utf8::decode_utf8(b.subrange(19, b.len() as int));
                    match zone_secs(after_fraction(rest)) {
                        Some(tz) => Some(epoch_of_date(year, month, day, hour, minute, second) - tz),
                        None => None,
                    }
                } else {
                    None
                }
            },
            _ => None,
        }
    }
}

/// Minimal ISO 8601 parser — extracts seconds since epoch.
/// Handles: "2024-01-15T10:30:00Z", "2024-01-15T10:30:00+00:00",
/// "2024-01-15T10:30:00.123Z", "2024-01-15 10:30:00"
#[verifier::rlimit(50)]
pub fn parse_iso8601(s: &str) -> (r: Option<i64>)
    ensures
        same_value(r, iso8601_secs(s@)),
{
    let t = str_trim(s);
    let b = t.as_bytes();
    if b.len() < 19 {
        return None;
    }
    let ghost bb = t.spec_bytes();
    let year = match get_i64(t, 0, 4) {
        Some(v) => v,
        None => return None,
    };
    if b[4] != 45u8 {
        return None;
    }
    let month = match get_i64(t, 5, 7) {
        Some(v) => v,
        None => return None,
    };
    if b[7] != 45u8 {
        return None;
    }
    let day = match get_i64(t, 8, 10) {
        Some(v) => v,
        None => return None,
    };
    let sep = b[10];
    if sep != 84u8 && sep != 116u8 && sep != 32u8 {
        return None;
    }
    let hour = match get_i64(t, 11, 13) {
        Some(v) => v,
        None => return None,
    };
    if b[13] != 58u8 {
        return None;
    }
    let minute = match get_i64(t, 14, 16) {
        Some(v) => v,
        None => return None,
    };
    if b[16] != 58u8 {
        return None;
    }
    let second = match get_i64(t, 17, 19) {
        Some(v) => v,
        None => return None,
    };
    if !(1 <= month && month <= 12) || !(1 <= day && day <= 31) {
        return None;
    }
    if !(0 <= hour && hour <= 23) || !(0 <= minute && minute <= 59) || !(0 <= second && second <= 60) {
        return None;
    }
    proof {
        lemma_year_field(bb, 0, 4);
    }
    let epoch = date_to_epoch(year, month, day, hour, minute, second);
    let (_, rest) = t.split_at(19);
    proof {
        vstd::utf8::encode_utf8_decode_utf8(rest@);
        assert(rest@ == vstd::utf8::decode_utf8(bb.subrange(19, bb.len() as int)));
    }
    let rc = str_chars(rest);
    // Skip fractional seconds
    let mut i: usize = 0;
    if rc.len() > 0 && rc[0] == '.' {
        i = 1;
        while i < rc.len() && '0' <= rc[i] && rc[i] <= '9'
            invariant
                1 <= i <= rc@.len(),
                rc@ == rest@,
                rc@[0] == '.',
                leading_digits(rc@.drop_first()) == (i - 1) + leading_digits(rc@.skip(i as int)),
            decreases rc@.len() - i,
        {
            proof {
                assert(rc@.skip(i as int).drop_first() == rc@.skip(i + 1));
            }
            i = i + 1;
        }
        proof {
            assert(rc@.drop_first() == rc@.skip(1));
            if i < rc@.len() {
                assert(leading_digits(rc@.skip(i as int)) == 0);
            } else {
                assert(rc@.skip(i as int).len() == 0);
            }
            assert(rc@.drop_first().skip(leading_digits(rc@.drop_first()) as int) == rc@.skip(i as int));
        }
    }
    let tail = string_from_char_range(&rc, i, rc.len());
    let ghost zs = rc@.subrange(i as int, rc@.len() as int);
    proof {
        assert(zs == after_fraction(rest@));
    }
    let zc = str_chars(tail.as_str());
    let tz: i64 = if zc.len() == 0 || (zc.len() == 1 && (zc[0] == 'Z' || zc[0] == 'z')) {
        proof {
            if zc.len() == 1 {
                if zc[0] == 'Z' {
                    assert(zs == seq!['Z']);
                } else {
                    assert(zs == seq!['z']);
                }
            }
        }
        0
    } else if zc[0] == '+' || zc[0] == '-' {
        let off = string_from_char_range(&zc, 1, zc.len());
        proof {
            assert(off@ == zs.drop_first());
            assert(zs != seq!['Z'] && zs != seq!['z']);
        }
        let v = match parse_tz_offset(off.as_str()) {
            Some(v) => v,
            None => return None,
        };
        proof {
            lemma_tz_bound(off@);
        }
        if zc[0] == '-' {
            -v
        } else {
            v
        }
    } else {
        proof {
            assert(zs != seq!['Z'] && zs != seq!['z']);
        }
        return None;
    };
    Some(epoch - tz)
}

/// Offsets parse to at most 99 hours and 99 minutes either way.
proof fn lemma_tz_bound(o: Seq<char>)
    requires
        tz_offset_secs(o) is Some,
    ensures
        -9 * 3600 - 9 * 60 <= tz_offset_secs(o)->0 <= 99 * 3600 + 99 * 60,
{
    let b = vstd::utf8::encode_utf8(trim_ws(o));
    if b.len() >= 5 && b[2] == 58 {
        lemma_short_field(b, 0, 2);
        lemma_short_field(b, 3, 5);
    } else if b.len() >= 4 {
        lemma_short_field(b, 0, 2);
        lemma_short_field(b, 2, 4);
    } else {
        lemma_short_field(b, 0, 2);
    }
}

/// DateTime formatting mode.
#[derive(Debug, Clone, PartialEq, Eq, Structural)]
pub enum DateTimeMode {
    Relative,
    Absolute,
}

/// Duration input unit.
#[derive(Debug, Clone, PartialEq, Eq, Structural)]
pub enum DurationUnit {
    Milliseconds,
    Nanoseconds,
}

/// Field format specification parsed at compile time.
#[derive(Debug, Clone, PartialEq, Eq, Structural)]
pub enum FieldFormat {
    DateTime(DateTimeMode),
    Duration(DurationUnit),
    Bytes,
}

/// What `FieldFormat::parse` yields for a `format:` string.
pub open spec fn field_format_of(s: Seq<char>) -> Option<FieldFormat> {
    if s == "datetime"@ || s == "datetime:relative"@ {
        Some(FieldFormat::DateTime(DateTimeMode::Relative))
    } else if s == "datetime:absolute"@ {
        Some(FieldFormat::DateTime(DateTimeMode::Absolute))
    } else if s == "duration"@ || s == "duration:ms"@ {
        Some(FieldFormat::Duration(DurationUnit::Milliseconds))
    } else if s == "duration:ns"@ {
        Some(FieldFormat::Duration(DurationUnit::Nanoseconds))
    } else if s == "bytes"@ {
        Some(FieldFormat::Bytes)
    } else {
        None
    }
}

impl FieldFormat {
    /// Parse a `format:` string into a FieldFormat.
    /// Returns None for unrecognized format strings (including "json" and "key_value"
    /// which are handled separately as RestFormat).
    pub fn parse(s: &str) -> (r: Option<Self>)
        ensures
            r == field_format_of(s@),
    {
        if str_eq(s, "datetime") || str_eq(s, "datetime:relative") {
            Some(FieldFormat::DateTime(DateTimeMode::Relative))
        } else if str_eq(s, "datetime:absolute") {
            Some(FieldFormat::DateTime(DateTimeMode::Absolute))
        } else if str_eq(s, "duration") || str_eq(s, "duration:ms") {
            Some(FieldFormat::Duration(DurationUnit::Milliseconds))
        } else if str_eq(s, "duration:ns") {
            Some(FieldFormat::Duration(DurationUnit::Nanoseconds))
        } else if str_eq(s, "bytes") {
            Some(FieldFormat::Bytes)
        } else {
            None
        }
    }
}

/// How long ago (or ahead) `diff` seconds is, in its largest whole unit.
pub open spec fn relative_text(diff: int) -> Seq<char> {
    if diff < 0 {
        "in "@ + signed_decimal(-diff) + "s"@
    } else if diff < 60 {
        signed_decimal(diff) + "s ago"@
    } else if diff < 3600 {
        signed_decimal(diff / 60) + "m ago"@
    } else if diff < 86400 {
        signed_decimal(diff / 3600) + "h ago"@
    } else {
        signed_decimal(diff / 86400) + "d ago"@
    }
}

/// `YYYY-MM-DD hh:mm:ss` for the given epoch seconds.
pub open spec fn absolute_text(epoch: int) -> Seq<char> {
    let c = civil_components(epoch);
    padded(c.0, 4) + "-"@ + padded(c.1, 2) + "-"@ + padded(c.2, 2) + " "@ + padded(c.3, 2) + ":"@
        + padded(c.4, 2) + ":"@ + padded(c.5, 2)
}

/// What `format_datetime` shows for `value` when the clock reads `now`
/// (epoch seconds): `None` when `value` is no ISO 8601 timestamp.
pub open spec fn datetime_text(value: Seq<char>, mode: DateTimeMode, now: int) -> Option<Seq<char>> {
    match iso8601_secs(value) {
        None => None,
        Some(epoch) => match mode {
            DateTimeMode::Relative => Some(relative_text(now - epoch)),
            DateTimeMode::Absolute => Some(absolute_text(epoch)),
        },
    }
}

/// `SystemTime::now()` as whole seconds since the Unix epoch (0 when the
/// clock is before the epoch). The clock decides it, so nothing is stated.
#[verifier::external_body]
fn now_epoch_secs() -> i64 {
    std::time::SystemTime::now().duration_since(std::time::UNIX_EPOCH).unwrap_or(std::time::Duration::ZERO).as_secs() as i64
}

/// Appends `prefix`, the decimal of `v` and `suffix`.
fn push_number(out: &mut Vec<char>, prefix: &str, v: i128, suffix: &str)
    requires
        v > i128::MIN,
    ensures
        final(out)@ == old(out)@ + prefix@ + signed_decimal(v as int) + suffix@,
{
    push_str(out, prefix);
    push_padded(out, v, 0);
    push_str(out, suffix);
}

/// Parse an ISO 8601 timestamp and format it, taking `now` (epoch seconds)
/// as the current time for relative output.
pub fn format_datetime_at(value: &str, mode: &DateTimeMode, now: i64) -> (r: Option<String>)
    ensures
        match (r, datetime_text(value@, *mode, now as int)) {
            (Some(x), Some(y)) => x@ == y,
            (None, None) => true,
            _ => false,
        },
{
    let epoch = match parse_iso8601(value) {
        Some(e) => e,
        None => return None,
    };
    let mut out: Vec<char> = Vec::new();
    match mode {
        DateTimeMode::Relative => {
            let diff: i128 = now as i128 - epoch as i128;
            if diff < 0 {
                push_number(&mut out, "in ", -diff, "s");
            } else if diff < 60 {
                push_number(&mut out, "", diff, "s ago");
            } else if diff < 3600 {
                push_number(&mut out, "", diff / 60, "m ago");
            } else if diff < 86400 {
                push_number(&mut out, "", diff / 3600, "h ago");
            } else {
                push_number(&mut out, "", diff / 86400, "d ago");
            }
            proof {
                assert(""@ == Seq::<char>::empty()) by {
                    reveal_strlit("");
                }
            }
        },
        DateTimeMode::Absolute => {
            let (year, month, day, hour, minute, second) = epoch_secs_to_components(epoch);
            push_padded(&mut out, year as i128, 4);
            push_str(&mut out, "-");
            push_padded(&mut out, month as i128, 2);
            push_str(&mut out, "-");
            push_padded(&mut out, day as i128, 2);
            push_str(&mut out, " ");
            push_padded(&mut out, hour as i128, 2);
            push_str(&mut out, ":");
            push_padded(&mut out, minute as i128, 2);
            push_str(&mut out, ":");
            push_padded(&mut out, second as i128, 2);
        },
    }
    Some(string_from_chars(out.as_slice()))
}

/// Parse an ISO 8601 timestamp and format it.
pub fn format_datetime(value: &str, mode: &DateTimeMode) -> (r: Option<String>)
    ensures
        exists|now: int|
            match (r, #[trigger] datetime_text(value@, *mode, now)) {
                (Some(x), Some(y)) => x@ == y,
                (None, None) => true,
                _ => false,
            },
        *mode == DateTimeMode::Absolute ==> match (r, datetime_text(value@, *mode, 0)) {
            (Some(x), Some(y)) => x@ == y,
            (None, None) => true,
            _ => false,
        },
{
    let now = now_epoch_secs();
    format_datetime_at(value, mode, now)
}

} // verus!
