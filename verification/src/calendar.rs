//! Dates of the Gregorian calendar and the days they fall on, counted from
//! 1970-01-01.

use vstd::prelude::*;

use crate::text::{padded, padded_text};

pub mod laws;

verus! {

/// A calendar date.
#[derive(Clone, Copy, Debug, PartialEq, Eq, Structural)]
pub struct Date {
    pub year: i64,
    pub month: i64,
    pub day: i64,
}

pub open spec fn is_leap(year: int) -> bool {
    year % 4 == 0 && (year % 100 != 0 || year % 400 == 0)
}

pub open spec fn month_length(year: int, month: int) -> int {
    if month == 2 {
        if is_leap(year) {
            29
        } else {
            28
        }
    } else if month == 4 || month == 6 || month == 9 || month == 11 {
        30
    } else {
        31
    }
}

/// The days of the year before the first of the month.
pub open spec fn days_before_month(year: int, month: int) -> int
    decreases month,
{
    if month <= 1 {
        0
    } else {
        days_before_month(year, month - 1) + month_length(year, month - 1)
    }
}

/// The days from 0001-01-01 to the first day of the year.
pub open spec fn days_before_year(year: int) -> int {
    365 * (year - 1) + (year - 1) / 4 - (year - 1) / 100 + (year - 1) / 400
}

/// The days from 1970-01-01 to the date.
pub open spec fn day_number(year: int, month: int, day: int) -> int {
    days_before_year(year) - days_before_year(1970) + days_before_month(year, month) + day - 1
}

/// Whether the date exists.
pub open spec fn is_date(date: Date) -> bool {
    1 <= date.month <= 12 && 1 <= date.day <= month_length(date.year as int, date.month as int)
}

/// Whether `date` is the date of day `n`.
pub open spec fn falls_on(date: Date, n: int) -> bool {
    is_date(date) && day_number(date.year as int, date.month as int, date.day as int) == n
}

/// The date of day `n`.
pub open spec fn date_of_day(n: int) -> Date {
    choose|date: Date| falls_on(date, n)
}

/// A year is as long as its months: 365 days, or 366 in a leap year.
proof fn lemma_year_length(year: int)
    ensures
        days_before_year(year + 1) == days_before_year(year) + 365 + if is_leap(year) {
            1int
        } else {
            0
        },
{
    lemma_quotient_step(year, 4);
    lemma_quotient_step(year, 100);
    lemma_quotient_step(year, 400);
    assert(year % 400 == 0 ==> year % 100 == 0);
    assert(year % 100 == 0 ==> year % 4 == 0);
}

/// A quotient grows by one exactly at the multiples of the divisor.
proof fn lemma_quotient_step(n: int, d: int)
    requires
        d == 4 || d == 100 || d == 400,
    ensures
        n / d == (n - 1) / d + if n % d == 0 {
            1int
        } else {
            0
        },
{
    if d == 4 {
        assert(n / 4 == (n - 1) / 4 + if n % 4 == 0 { 1int } else { 0 });
    } else if d == 100 {
        assert(n / 100 == (n - 1) / 100 + if n % 100 == 0 { 1int } else { 0 });
    } else {
        assert(n / 400 == (n - 1) / 400 + if n % 400 == 0 { 1int } else { 0 });
    }
}

/// The days from 1 March to the first of the month that is `mp` months later.
spec fn days_from_march(mp: int) -> int {
    if mp == 0 {
        0
    } else if mp == 1 {
        31
    } else if mp == 2 {
        61
    } else if mp == 3 {
        92
    } else if mp == 4 {
        122
    } else if mp == 5 {
        153
    } else if mp == 6 {
        184
    } else if mp == 7 {
        214
    } else if mp == 8 {
        245
    } else if mp == 9 {
        275
    } else if mp == 10 {
        306
    } else if mp == 11 {
        337
    } else {
        366
    }
}

/// The month of a day counted from 1 March.
proof fn lemma_month_of_day(n: int)
    requires
        0 <= n <= 365,
    ensures
        ({
            let mp = (5 * n + 2) / 153;
            &&& 0 <= mp <= 11
            &&& days_from_march(mp) <= n < days_from_march(mp + 1)
            &&& (153 * mp + 2) / 5 == days_from_march(mp)
        }),
{
}

/// The same months counted from 1 January.
proof fn lemma_march_months(year: int, mp: int)
    requires
        0 <= mp <= 11,
    ensures
        mp < 10 ==> days_before_year(year) + days_before_month(year, mp + 3) == days_before_year(
            year + 1,
        ) - 306 + days_from_march(mp),
        mp >= 10 ==> days_before_year(year + 1) + days_before_month(year + 1, mp - 9)
            == days_before_year(year + 1) - 306 + days_from_march(mp),
        mp < 11 && mp != 9 ==> days_from_march(mp + 1) - days_from_march(mp) == month_length(
            if mp < 10 {
                year
            } else {
                year + 1
            },
            if mp < 10 {
                mp + 3
            } else {
                mp - 9
            },
        ),
        mp == 9 ==> days_from_march(mp + 1) - days_from_march(mp) == month_length(year, 12),
        mp == 11 ==> month_length(year + 1, 2) == if is_leap(year + 1) {
            29int
        } else {
            28
        },
{
    lemma_year_length(year);
    lemma_months(year);
    lemma_months(year + 1);
}

/// The days before each month, written out.
proof fn lemma_months(year: int)
    ensures
        days_before_month(year, 1) == 0,
        days_before_month(year, 2) == 31,
        ({
            let leap: int = if is_leap(year) {
                1
            } else {
                0
            };
            &&& days_before_month(year, 3) == 59 + leap
            &&& days_before_month(year, 4) == 90 + leap
            &&& days_before_month(year, 5) == 120 + leap
            &&& days_before_month(year, 6) == 151 + leap
            &&& days_before_month(year, 7) == 181 + leap
            &&& days_before_month(year, 8) == 212 + leap
            &&& days_before_month(year, 9) == 243 + leap
            &&& days_before_month(year, 10) == 273 + leap
            &&& days_before_month(year, 11) == 304 + leap
            &&& days_before_month(year, 12) == 334 + leap
            &&& days_before_month(year, 13) == 365 + leap
        }),
{
    reveal_with_fuel(days_before_month, 14);
}

/// The day of 1 March of year `400 * era + yoe`, with the year of the era written as
/// centuries, quadrennia and years.
proof fn lemma_march(era: int, c: int, q: int, t: int)
    requires
        0 <= c <= 3,
        0 <= q <= 24,
        0 <= t <= 3,
    ensures
        ({
            let year = 400 * era + 100 * c + 4 * q + t;
            days_before_year(year + 1) == 146097 * era + 36524 * c + 1461 * q + 365 * t
        }),
{
    let year = 400 * era + 100 * c + 4 * q + t;
    assert(year / 4 == 100 * era + 25 * c + q);
    assert(year / 100 == 4 * era + c);
    assert(year / 400 == era);
}

/// A year counted from 1 March has a 366th day only where its last month is the
/// February of a leap year.
proof fn lemma_leap_day(era: int, c: int, q: int, t: int, n: int)
    requires
        0 <= c <= 3,
        0 <= q <= 24,
        0 <= t <= 3,
        0 <= n <= 365,
        n == 365 ==> t == 3 && (q < 24 || c == 3),
    ensures
        n == 365 ==> is_leap(400 * era + 100 * c + 4 * q + t + 1),
{
    if n == 365 {
        let year = 400 * era + 100 * c + 4 * q + 4;
        assert(year % 4 == 0);
        if q < 24 {
            assert(year % 100 == 4 * q + 4);
        } else {
            assert(year % 400 == 0);
        }
    }
}

/// The date of day `n`.
pub fn civil_from_days(n: i64) -> (date: Date)
    requires
        -200_000_000_000_000 <= n <= 200_000_000_000_000,
    ensures
        falls_on(date, n as int),
{
    // Days from 0000-03-01, so that a leap day ends its year.
    let z: i64 = n + 719468;
    let era: i64 = (if z >= 0 { z } else { z - 146096 }) / 146097;
    let of_era: i64 = z - era * 146097;
    let mut c: i64 = of_era / 36524;
    if c == 4 {
        c = 3;
    }
    let of_century: i64 = of_era - c * 36524;
    let q: i64 = of_century / 1461;
    let of_quad: i64 = of_century - q * 1461;
    let mut t: i64 = of_quad / 365;
    if t == 4 {
        t = 3;
    }
    let of_year: i64 = of_quad - t * 365;
    let march_year: i64 = era * 400 + c * 100 + q * 4 + t;
    let mp: i64 = (5 * of_year + 2) / 153;
    let day: i64 = of_year - (153 * mp + 2) / 5 + 1;
    let month: i64 = if mp < 10 { mp + 3 } else { mp - 9 };
    let year: i64 = if month <= 2 { march_year + 1 } else { march_year };
    proof {
        assert(0 <= of_era < 146097);
        assert(0 <= of_century <= 36524);
        assert(0 <= q <= 24);
        assert(0 <= of_year <= 365);
        lemma_march(era as int, c as int, q as int, t as int);
        lemma_month_of_day(of_year as int);
        lemma_march_months(march_year as int, mp as int);
        lemma_leap_day(era as int, c as int, q as int, t as int, of_year as int);
        assert(days_before_year(1970) == 719162);
    }
    Date { year, month, day }
}


/// Later years begin later.
proof fn lemma_years_in_order(a: int, b: int)
    requires
        a <= b,
    ensures
        days_before_year(a) <= days_before_year(b),
    decreases b - a,
{
    if a < b {
        lemma_years_in_order(a, b - 1);
        lemma_year_length(b - 1);
    }
}

/// Later months begin after the earlier ones have ended.
proof fn lemma_months_in_order(year: int, a: int, b: int)
    requires
        1 <= a < b <= 13,
    ensures
        days_before_month(year, a) + month_length(year, a) <= days_before_month(year, b),
    decreases b - a,
{
    reveal_with_fuel(days_before_month, 2);
    if a + 1 < b {
        lemma_months_in_order(year, a, b - 1);
    }
}

/// A date lies within its year.
proof fn lemma_within_year(date: Date)
    requires
        is_date(date),
    ensures
        days_before_year(date.year as int) <= days_before_year(date.year as int)
            + days_before_month(date.year as int, date.month as int) + date.day - 1
            < days_before_year(date.year as int + 1),
{
    let y = date.year as int;
    lemma_months_in_order(y, date.month as int, 13);
    lemma_months(y);
    lemma_year_length(y);
    if date.month > 1 {
        lemma_months_in_order(y, 1, date.month as int);
    }
}

/// No two dates fall on the same day.
pub proof fn law_one_date_per_day(a: Date, b: Date, n: int)
    requires
        falls_on(a, n),
        falls_on(b, n),
    ensures
        a == b,
{
    lemma_within_year(a);
    lemma_within_year(b);
    if a.year < b.year {
        lemma_years_in_order(a.year as int + 1, b.year as int);
    } else if b.year < a.year {
        lemma_years_in_order(b.year as int + 1, a.year as int);
    } else if a.month < b.month {
        lemma_months_in_order(a.year as int, a.month as int, b.month as int);
    } else if b.month < a.month {
        lemma_months_in_order(a.year as int, b.month as int, a.month as int);
    }
}

/// The day of a date. The day of the month may lie beyond the end of the month and
/// is then counted on into the next.
pub fn days_from_civil(date: Date) -> (n: i64)
    requires
        -1_000_000_000 <= date.year <= 1_000_000_000,
        1 <= date.month <= 12,
        1 <= date.day <= 31,
    ensures
        n == day_number(date.year as int, date.month as int, date.day as int),
{
    let march_year: i64 = if date.month <= 2 { date.year - 1 } else { date.year };
    let era: i64 = (if march_year >= 0 { march_year } else { march_year - 399 }) / 400;
    let of_era: i64 = march_year - era * 400;
    let mp: i64 = if date.month > 2 { date.month - 3 } else { date.month + 9 };
    let of_year: i64 = (153 * mp + 2) / 5 + date.day - 1;
    let day_of_era: i64 = of_era * 365 + of_era / 4 - of_era / 100 + of_year;
    proof {
        assert(0 <= of_era < 400);
        let c = of_era as int / 100;
        let q = (of_era as int % 100) / 4;
        let t = of_era as int % 4;
        assert(of_era == 100 * c + 4 * q + t);
        assert(of_era as int / 4 == 25 * c + q);
        lemma_march(era as int, c, q, t);
        lemma_march_months(march_year as int, mp as int);
        assert((153 * mp + 2) / 5 == days_from_march(mp as int)) by {
            lemma_march_offset(mp as int);
        }
        assert(days_before_year(1970) == 719162);
    }
    era * 146097 + day_of_era - 719468
}

proof fn lemma_march_offset(mp: int)
    requires
        0 <= mp <= 11,
    ensures
        (153 * mp + 2) / 5 == days_from_march(mp),
{
}

/// `YYYY-MM-DD`, with as many digits as the year needs but at least four.
pub open spec fn date_text(date: Date) -> Seq<char> {
    padded_text(date.year as int, 4) + "-"@ + padded_text(date.month as int, 2) + "-"@
        + padded_text(date.day as int, 2)
}

pub fn format_date(date: Date) -> (r: String)
    ensures
        r@ == date_text(date),
{
    let mut s = padded(date.year, 4);
    s.append("-");
    s.append(padded(date.month, 2).as_str());
    s.append("-");
    s.append(padded(date.day, 2).as_str());
    s
}

/// The quotient of `n` by `d`, rounded towards zero.
pub open spec fn quotient(n: int, d: int) -> int {
    if n < 0 {
        -((-n) / d)
    } else {
        n / d
    }
}

/// What is left of `n` after division by `d` rounded towards zero.
pub open spec fn rest(n: int, d: int) -> int {
    n - quotient(n, d) * d
}

/// `HH:MM:SS`, the time of day `n` seconds after midnight.
pub open spec fn clock_text(n: int) -> Seq<char> {
    padded_text(quotient(n, 3600), 2) + ":"@ + padded_text(quotient(rest(n, 3600), 60), 2) + ":"@
        + padded_text(rest(rest(n, 3600), 60), 2)
}

fn format_clock(n: i64) -> (r: String)
    requires
        -86400 < n < 86400,
    ensures
        r@ == clock_text(n as int),
{
    let hours: i64 = n / 3600;
    let of_hour: i64 = n % 3600;
    let minutes: i64 = of_hour / 60;
    let seconds: i64 = of_hour % 60;
    let mut s = padded(hours, 2);
    s.append(":");
    s.append(padded(minutes, 2).as_str());
    s.append(":");
    s.append(padded(seconds, 2).as_str());
    s
}

/// `YYYY-MM-DDTHH:MM:SS`, the moment `secs` seconds after the start of 1970.
pub open spec fn moment_text(secs: int) -> Seq<char> {
    date_text(date_of_day(quotient(secs, 86400))) + "T"@ + clock_text(rest(secs, 86400))
}

pub fn format_moment(secs: i64) -> (r: String)
    ensures
        r@ == moment_text(secs as int),
{
    let day: i64 = secs / 86400;
    let of_day: i64 = secs % 86400;
    let date = civil_from_days(day);
    proof {
        law_one_date_per_day(date, date_of_day(day as int), day as int);
    }
    let mut s = format_date(date);
    s.append("T");
    s.append(format_clock(of_day).as_str());
    s
}

/// Dates of four-digit years fall within four million days of 1970.
pub proof fn lemma_day_number_bounds(date: Date)
    requires
        0 <= date.year <= 9999,
        1 <= date.month <= 12,
        1 <= date.day <= 31,
    ensures
        -4_000_000 <= day_number(date.year as int, date.month as int, date.day as int)
            <= 4_000_000,
{
    lemma_months(date.year as int);
}

/// Every day that is not too far from 1970 has a date.
pub proof fn lemma_date_exists(n: int)
    requires
        -200_000_000_000_000 <= n <= 200_000_000_000_000,
    ensures
        falls_on(date_of_day(n), n),
{
    let z = n + 719468;
    let era = z / 146097;
    let of_era = z % 146097;
    let c = if of_era / 36524 == 4 {
        3
    } else {
        of_era / 36524
    };
    let of_century = of_era - c * 36524;
    let q = of_century / 1461;
    let of_quad = of_century - q * 1461;
    let t = if of_quad / 365 == 4 {
        3
    } else {
        of_quad / 365
    };
    let of_year = of_quad - t * 365;
    let march_year = era * 400 + c * 100 + q * 4 + t;
    let mp = (5 * of_year + 2) / 153;
    let day = of_year - (153 * mp + 2) / 5 + 1;
    let month = if mp < 10 {
        mp + 3
    } else {
        mp - 9
    };
    let year = if month <= 2 {
        march_year + 1
    } else {
        march_year
    };
    lemma_march(era, c, q, t);
    lemma_month_of_day(of_year);
    lemma_march_months(march_year, mp);
    lemma_leap_day(era, c, q, t, of_year);
    assert(days_before_year(1970) == 719162);
    assert(falls_on(Date { year: year as i64, month: month as i64, day: day as i64 }, n));
}

/// The days from 0000-01-01 to 9999-12-31 have dates in those years.
pub proof fn lemma_year_range(date: Date, n: int)
    requires
        falls_on(date, n),
        day_number(0, 1, 1) <= n <= day_number(9999, 12, 31),
    ensures
        0 <= date.year <= 9999,
{
    lemma_within_year(date);
    lemma_months(9999);
    lemma_months(0);
    lemma_year_length(9999);
    if date.year < 0 {
        lemma_years_in_order(date.year as int + 1, 0);
    }
    if date.year > 9999 {
        lemma_years_in_order(10000, date.year as int);
    }
}

/// Whether the date exists.
pub fn date_exists(date: Date) -> (r: bool)
    ensures
        r == is_date(date),
{
    let leap = date.year % 4 == 0 && (date.year % 100 != 0 || date.year % 400 == 0);
    let length: i64 = match date.month {
        4 | 6 | 9 | 11 => 30,
        2 => if leap {
            29
        } else {
            28
        },
        _ => 31,
    };
    1 <= date.month && date.month <= 12 && 1 <= date.day && date.day <= length
}

}
