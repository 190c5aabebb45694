//! Proleptic-Gregorian calendar arithmetic for the orchestrator's
//! second-precision ISO 8601 UTC timestamps.

use vstd::prelude::*;

use crate::text::{dec_spec, pad_zeros, push_padded, string_from_chars};

verus! {

/// Gregorian leap-year rule.
pub open spec fn is_leap(y: int) -> bool {
    (y % 4 == 0 && y % 100 != 0) || y % 400 == 0
}

/// Number of days in year `y`.
pub open spec fn year_len(y: int) -> int {
    if is_leap(y) { 366 } else { 365 }
}

/// Number of days in month `m` (1..=12) of year `y`.
pub open spec fn month_len(y: int, m: int) -> int {
    if m == 2 {
        if is_leap(y) { 29 } else { 28 }
    } else if m == 4 || m == 6 || m == 9 || m == 11 {
        30
    } else {
        31
    }
}

/// Leap years among the years `1..=n` (extended to all `n` by floor division).
pub open spec fn leaps_through(n: int) -> int {
    n / 4 - n / 100 + n / 400
}

/// Days from 1970-01-01 to January 1st of year `y` (negative before 1970).
pub open spec fn days_before_year(y: int) -> int {
    365 * (y - 1970) + leaps_through(y - 1) - leaps_through(1969)
}

/// Days from January 1st to the first day of month `m` in year `y`.
pub open spec fn days_before_month(y: int, m: int) -> int {
    let base: int = if m <= 1 {
        0
    } else if m == 2 {
        31
    } else if m == 3 {
        59
    } else if m == 4 {
        90
    } else if m == 5 {
        120
    } else if m == 6 {
        151
    } else if m == 7 {
        181
    } else if m == 8 {
        212
    } else if m == 9 {
        243
    } else if m == 10 {
        273
    } else if m == 11 {
        304
    } else {
        334
    };
    base + if m > 2 && is_leap(y) { 1int } else { 0int }
}

/// A real calendar date.
pub open spec fn valid_date(y: int, m: int, d: int) -> bool {
    1 <= m <= 12 && 1 <= d <= month_len(y, m)
}

/// Days from 1970-01-01 (day 0) to the date `y-m-d`.
pub open spec fn days_from_civil(y: int, m: int, d: int) -> int {
    days_before_year(y) + days_before_month(y, m) + d - 1
}

/// Consecutive years are `year_len` days apart.
pub proof fn lemma_year_step(y: int)
    ensures
        days_before_year(y + 1) == days_before_year(y) + year_len(y),
{
    assert(leaps_through(y) - leaps_through(y - 1) == if is_leap(y) { 1int } else { 0int });
}

/// Consecutive months are `month_len` days apart.
pub proof fn lemma_month_step(y: int, m: int)
    requires
        1 <= m < 12,
    ensures
        days_before_month(y, m + 1) == days_before_month(y, m) + month_len(y, m),
{
}

/// Largest day count `days_to_ymd` accepts: the last day of year
/// `i32::MAX`, beyond which its `i32` year counter would overflow.
pub const MAX_YMD_DAYS: i64 = 784_351_576_776;

/// Days since 1970-01-01 → `(year, month, day)`, counting whole years and
/// then whole months forward from the epoch. A negative count counts no
/// year or month and leaves `days + 1`, wrapped to `u32`, as the day.
pub fn days_to_ymd(days: i64) -> (r: (i32, u32, u32))
    requires
        days <= MAX_YMD_DAYS,
    ensures
        days >= 0 ==> valid_date(r.0 as int, r.1 as int, r.2 as int),
        days >= 0 ==> days_from_civil(r.0 as int, r.1 as int, r.2 as int) == days,
        days < 0 ==> r == (1970i32, 1u32, (days + 1) as u32),
{
    if days < 0 {
        return (1970, 1, (days + 1) as u32);
    }
    let mut y: i32 = 1970;
    let mut d: i64 = days;
    loop
        invariant
            1970 <= y,
            0 <= d <= days,
            days_before_year(y as int) + d == days,
            days <= MAX_YMD_DAYS,
        ensures
            1970 <= y,
            0 <= d < year_len(y as int),
            days_before_year(y as int) + d == days,
        decreases d,
    {
        let leap = (y % 4 == 0 && y % 100 != 0) || y % 400 == 0;
        let year_days: i64 = if leap { 366 } else { 365 };
        if d < year_days {
            break;
        }
        proof {
            lemma_year_step(y as int);
            if y as int + 1 >= 0x8000_0000 {
                lemma_year_monotone(0x8000_0000, y as int + 1);
            }
        }
        d = d - year_days;
        y = y + 1;
    }
    let leap = (y % 4 == 0 && y % 100 != 0) || y % 400 == 0;
    let mlen: [i64; 12] = if leap {
        [31, 29, 31, 30, 31, 30, 31, 31, 30, 31, 30, 31]
    } else {
        [31, 28, 31, 30, 31, 30, 31, 31, 30, 31, 30, 31]
    };
    let mut mo: u32 = 1;
    let mut i: usize = 0;
    loop
        invariant
            0 <= i < 12,
            mo == i + 1,
            0 <= d,
            days_before_month(y as int, mo as int) + d + days_before_year(y as int) == days,
            forall|k: int| 0 <= k < 12 ==> mlen[k] == month_len(y as int, k + 1),
            d < year_len(y as int) - days_before_month(y as int, mo as int),
        ensures
            1 <= mo <= 12,
            0 <= d < month_len(y as int, mo as int),
            days_before_month(y as int, mo as int) + d + days_before_year(y as int) == days,
        decreases 12 - i,
    {
        let len = mlen[i];
        if d < len {
            break;
        }
        proof {
            lemma_month_step(y as int, mo as int);
        }
        d = d - len;
        mo = mo + 1;
        i = i + 1;
    }
    (y, mo, (d + 1) as u32)
}


/// Days from 0000-03-01 (proleptic Gregorian) to March 1st of year `y`.
pub open spec fn days_to_march_first(y: int) -> int {
    365 * y + y / 4 - y / 100 + y / 400
}

/// Day offset of the start of year-of-era `k` within a 400-year era
/// whose years start on March 1st.
pub open spec fn era_year_start(k: int) -> int {
    365 * k + k / 4 - k / 100
}

/// March-based counting agrees with the January-based calendar.
pub proof fn lemma_march_first(y: int)
    ensures
        days_before_year(y) + 59 + (if is_leap(y) { 1int } else { 0int })
            == days_to_march_first(y) - 719_468,
{
    assert(leaps_through(1969) == 477);
    lemma_floor_step(y, 4);
    lemma_floor_step(y, 100);
    lemma_floor_step(y, 400);
    assert(leaps_through(y) - leaps_through(y - 1) == if is_leap(y) { 1int } else { 0int });
}

/// Floor division steps up by one exactly at multiples of the divisor.
pub proof fn lemma_floor_step(y: int, k: int)
    requires
        k > 0,
    ensures
        y / k - (y - 1) / k == if y % k == 0 { 1int } else { 0int },
{
    vstd::arithmetic::div_mod::lemma_fundamental_div_mod(y, k);
    vstd::arithmetic::div_mod::lemma_fundamental_div_mod(y - 1, k);
    assert(y / k - (y - 1) / k == if y % k == 0 { 1int } else { 0int }) by (nonlinear_arith)
        requires
            y == k * (y / k) + y % k,
            y - 1 == k * ((y - 1) / k) + (y - 1) % k,
            0 <= y % k < k,
            0 <= (y - 1) % k < k,
            k > 0,
    ;
}

/// Splitting a March-based year into 400-year eras.
pub proof fn lemma_era_split(era: int, yoe: int)
    requires
        0 <= yoe < 400,
    ensures
        days_to_march_first(era * 400 + yoe) == era * 146_097 + era_year_start(yoe),
{
    let y = era * 400 + yoe;
    assert(y / 4 == era * 100 + yoe / 4);
    assert(y / 100 == era * 4 + yoe / 100);
    assert(y / 400 == era);
}

/// Hinnant's year-of-era estimate lands in the right year.
#[verifier::spinoff_prover]
#[verifier::rlimit(100)]
pub proof fn lemma_year_of_era(doe: int)
    requires
        0 <= doe <= 146_096,
    ensures
        ({
            let yoe = (doe - doe / 1460 + doe / 36_524 - doe / 146_096) / 365;
            &&& 0 <= yoe <= 399
            &&& era_year_start(yoe) <= doe
            &&& doe < era_year_start(yoe + 1) || (yoe == 399 && doe <= 146_096)
        }),
{
}

/// Mapping a day of the March-based year onto a January-based date.
pub proof fn lemma_day_of_year(yy: int, doy: int)
    requires
        0 <= doy <= 365,
        doy == 365 ==> is_leap(yy + 1),
    ensures
        ({
            let mp = (5 * doy + 2) / 153;
            let d = doy - (153 * mp + 2) / 5 + 1;
            let m = if mp < 10 { mp + 3 } else { mp - 9 };
            let y = if m <= 2 { yy + 1 } else { yy };
            &&& 0 <= mp <= 11
            &&& valid_date(y, m, d)
            &&& days_from_civil(y, m, d) == days_to_march_first(yy) - 719_468 + doy
        }),
{
    let mp = (5 * doy + 2) / 153;
    lemma_march_first(yy);
    lemma_march_first(yy + 1);
    lemma_year_step(yy);
    assert(0 <= mp <= 11);
    if mp < 10 {
        assert(days_before_year(yy) + days_before_month(yy, mp + 3) == days_before_year(yy) + 59
            + (if is_leap(yy) { 1int } else { 0int }) + (153 * mp + 2) / 5);
    }
}

/// Largest day count `civil_from_days` accepts: shifting it to the
/// 0000-03-01 epoch must not overflow.
pub const CIVIL_DAYS_MAX: i64 = 9_223_372_036_854_056_339;

/// Days since 1970-01-01 → `(year, month, day)` by Hinnant's
/// era-based closed form.
#[verifier::spinoff_prover]
#[verifier::rlimit(100)]
pub fn civil_from_days(z: i64) -> (r: (i64, u32, u32))
    requires
        z <= CIVIL_DAYS_MAX,
    ensures
        valid_date(r.0 as int, r.1 as int, r.2 as int),
        days_from_civil(r.0 as int, r.1 as int, r.2 as int) == z,
{
    let ghost z0 = z as int;
    let z = z + 719_468;
    let num: i64 = if z >= 0 { z } else { z - 146_096 };
    let era: i64 = num / 146_097;
    proof {
        assert(era as int == (z as int) / 146_097) by (nonlinear_arith)
            requires
                num == if z >= 0 { z as int } else { z - 146_096 },
                era == if num >= 0 { num / 146_097 } else { -((-num) / 146_097) },
        ;
        assert(z - 146_097 < era * 146_097 <= z) by (nonlinear_arith)
            requires
                era == (z as int) / 146_097,
        ;
    }
    let doe = (z - era * 146_097) as u64;
    let yoe = (doe - doe / 1460 + doe / 36_524 - doe / 146_096) / 365;
    proof {
        lemma_year_of_era(doe as int);
        lemma_era_split(era as int, yoe as int);
    }
    let y: i64 = yoe as i64 + era * 400;
    let doy = doe - (365 * yoe + yoe / 4 - yoe / 100);
    let mp = (5 * doy + 2) / 153;
    let d = (doy - (153 * mp + 2) / 5 + 1) as u32;
    let m = (if mp < 10 { mp + 3 } else { mp - 9 }) as u32;
    proof {
        lemma_day_of_year(y as int, doy as int);
    }
    let y: i64 = if m <= 2 { y + 1 } else { y };
    (y, m, d)
}


/// Later years start later: at least 365 days per year in between.
pub proof fn lemma_year_monotone(a: int, b: int)
    requires
        a <= b,
    ensures
        days_before_year(a) + 365 * (b - a) <= days_before_year(b),
    decreases b - a,
{
    if a < b {
        lemma_year_monotone(a, b - 1);
        lemma_year_step(b - 1);
    }
}

/// A valid date lies within its year.
pub proof fn lemma_date_in_year(y: int, m: int, d: int)
    requires
        valid_date(y, m, d),
    ensures
        days_before_year(y) <= days_from_civil(y, m, d) < days_before_year(y + 1),
{
    lemma_year_step(y);
}

/// Each day number names at most one calendar date.
pub proof fn lemma_date_unique(y1: int, m1: int, d1: int, y2: int, m2: int, d2: int)
    requires
        valid_date(y1, m1, d1),
        valid_date(y2, m2, d2),
        days_from_civil(y1, m1, d1) == days_from_civil(y2, m2, d2),
    ensures
        y1 == y2 && m1 == m2 && d1 == d2,
{
    lemma_date_in_year(y1, m1, d1);
    lemma_date_in_year(y2, m2, d2);
    if y1 < y2 {
        lemma_year_monotone(y1 + 1, y2);
    } else if y2 < y1 {
        lemma_year_monotone(y2 + 1, y1);
    }
    assert(y1 == y2);
}

/// The calendar date of day number `z` (days since 1970-01-01).
pub open spec fn civil_date(z: int) -> (int, int, int) {
    choose|r: (int, int, int)| valid_date(r.0, r.1, r.2) && days_from_civil(r.0, r.1, r.2) == z
}

/// Any valid date for day `z` is `civil_date(z)`.
pub proof fn lemma_civil_date(z: int, y: int, m: int, d: int)
    requires
        valid_date(y, m, d),
        days_from_civil(y, m, d) == z,
    ensures
        civil_date(z) == (y, m, d),
{
    let w = (y, m, d);
    assert(valid_date(w.0, w.1, w.2) && days_from_civil(w.0, w.1, w.2) == z);
    let r = civil_date(z);
    assert(valid_date(r.0, r.1, r.2) && days_from_civil(r.0, r.1, r.2) == z);
    lemma_date_unique(r.0, r.1, r.2, y, m, d);
}

/// Dates on or after the epoch have years from 1970 on.
pub proof fn lemma_epoch_year(y: int, m: int, d: int)
    requires
        valid_date(y, m, d),
        days_from_civil(y, m, d) >= 0,
    ensures
        y >= 1970,
{
    lemma_date_in_year(y, m, d);
    if y < 1970 {
        lemma_year_monotone(y + 1, 1970);
    }
}

/// `YYYY-MM-DDTHH:MM:SSZ` with zero-padded fields.
pub open spec fn iso8601_fields(y: int, mo: int, d: int, h: int, mi: int, s: int) -> Seq<char> {
    pad_zeros(dec_spec(y as nat), 4) + seq!['-'] + pad_zeros(dec_spec(mo as nat), 2) + seq!['-']
        + pad_zeros(dec_spec(d as nat), 2) + seq!['T'] + pad_zeros(dec_spec(h as nat), 2) + seq![
        ':',
    ] + pad_zeros(dec_spec(mi as nat), 2) + seq![':'] + pad_zeros(dec_spec(s as nat), 2) + seq![
        'Z',
    ]
}

/// The ISO 8601 UTC rendering of a Unix time in seconds.
pub open spec fn iso8601_text(secs: nat) -> Seq<char> {
    let date = civil_date((secs / 86_400) as int);
    let sod = secs % 86_400;
    iso8601_fields(date.0, date.1, date.2, (sod / 3600) as int, ((sod / 60) % 60) as int, (sod % 60) as int)
}

/// Renders a date and time of day.
fn render_iso8601(y: u64, mo: u64, d: u64, h: u64, mi: u64, s: u64) -> (r: String)
    ensures
        r@ == iso8601_fields(y as int, mo as int, d as int, h as int, mi as int, s as int),
{
    let mut v: Vec<char> = Vec::new();
    push_padded(&mut v, y, 4);
    v.push('-');
    push_padded(&mut v, mo, 2);
    v.push('-');
    push_padded(&mut v, d, 2);
    v.push('T');
    push_padded(&mut v, h, 2);
    v.push(':');
    push_padded(&mut v, mi, 2);
    v.push(':');
    push_padded(&mut v, s, 2);
    v.push('Z');
    assert(v@ =~= iso8601_fields(y as int, mo as int, d as int, h as int, mi as int, s as int));
    string_from_chars(&v)
}

/// Minimal ISO 8601 UTC formatter for a Unix time in seconds,
/// second precision (`2026-06-04T00:00:00Z`), via [`civil_from_days`].
pub fn format_iso8601(unix_secs: u64) -> (r: String)
    ensures
        r@ == iso8601_text(unix_secs as nat),
{
    let days = (unix_secs / 86_400) as i64;
    let sec_of_day = unix_secs % 86_400;
    let (h, m, s) = (sec_of_day / 3600, (sec_of_day / 60) % 60, sec_of_day % 60);
    let (y, mo, d) = civil_from_days(days);
    proof {
        lemma_civil_date(days as int, y as int, mo as int, d as int);
        lemma_epoch_year(y as int, mo as int, d as int);
    }
    render_iso8601(y as u64, mo as u64, d as u64, h, m, s)
}

/// Largest Unix time `iso8601_utc` accepts: the last second of year
/// `i32::MAX` (its year counter is an `i32`).
pub const MAX_ISO_SECS: u64 = 67_767_976_233_532_799;

/// The same timestamp shape as [`format_iso8601`], computed by counting
/// years and months forward with [`days_to_ymd`].
pub fn iso8601_utc(unix_secs: u64) -> (r: String)
    requires
        unix_secs <= MAX_ISO_SECS,
    ensures
        r@ == iso8601_text(unix_secs as nat),
{
    let days_since_epoch = unix_secs / 86_400;
    let day_secs = unix_secs % 86_400;
    let h = day_secs / 3600;
    let m = (day_secs % 3600) / 60;
    let s = day_secs % 60;
    let (y, mo, d) = days_to_ymd(days_since_epoch as i64);
    proof {
        lemma_civil_date(days_since_epoch as int, y as int, mo as int, d as int);
        assert((day_secs % 3600) / 60 == (day_secs / 60) % 60);
    }
    render_iso8601(y as u64, mo as u64, d as u64, h, m, s)
}

/// Seconds since the Unix epoch, from the system clock
/// (`SystemTime::now().duration_since(UNIX_EPOCH)`, 0 if the clock reads
/// before the epoch).
#[verifier::external_body]
fn unix_time_secs() -> u64 {
    std::time::SystemTime::now().duration_since(std::time::UNIX_EPOCH).map(|d| d.as_secs()).unwrap_or(0)
}

/// The current time as an ISO 8601 UTC timestamp.
pub fn now_iso8601() -> (r: String)
    ensures
        exists|secs: nat| r@ == iso8601_text(secs),
{
    format_iso8601(unix_time_secs())
}

} // verus!