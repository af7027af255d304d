//! What holds of dates and moments.

use vstd::prelude::*;

use super::{
    date_of_day, date_text, day_number, days_before_month, days_before_year, falls_on, is_date,
    is_leap, lemma_date_exists, moment_text, month_length, Date,
};
use crate::text::laws::law_filled_numbers;
use crate::text::padded_text;

verus! {

/// A year is a leap year where it is divisible by 4, but of the full centuries only those that
/// are divisible by 400 are. February has a day more then; the other months have 30 or 31.
pub proof fn law_lengths_of_months(year: int)
    ensures
        is_leap(year) <==> year % 400 == 0 || (year % 4 == 0 && year % 100 != 0),
        month_length(year, 2) == if is_leap(year) {
            29int
        } else {
            28int
        },
        month_length(year, 1) == 31 && month_length(year, 3) == 31 && month_length(year, 5) == 31,
        month_length(year, 7) == 31 && month_length(year, 8) == 31 && month_length(year, 10) == 31,
        month_length(year, 12) == 31,
        month_length(year, 4) == 30 && month_length(year, 6) == 30 && month_length(year, 9) == 30,
        month_length(year, 11) == 30,
{
}

/// The days are counted from the start of 1970, one after the other: the next day of a month,
/// the first day of the next month, the first day of the next year.
pub proof fn law_days_follow_each_other(year: int, month: int, day: int)
    requires
        1 <= month <= 12,
    ensures
        day_number(1970, 1, 1) == 0,
        day_number(year, month, day + 1) == day_number(year, month, day) + 1,
        month < 12 ==> day_number(year, month + 1, 1) == day_number(
            year,
            month,
            month_length(year, month),
        ) + 1,
        day_number(year + 1, 1, 1) == day_number(year, 12, 31) + 1,
{
    reveal_with_fuel(days_before_month, 13);
    assert(days_before_month(year + 1, 1) == 0);
    assert(days_before_month(year, 12) == if is_leap(year) {
        335int
    } else {
        334int
    });
    assert(days_before_year(year + 1) == days_before_year(year) + if is_leap(year) {
        366int
    } else {
        365int
    });
}

/// A date is written as its year in four digits at least, its month and its day in two, with
/// hyphens between them.
pub proof fn law_written_dates(date: Date)
    requires
        is_date(date),
        0 <= date.year,
    ensures
        date_text(date) == padded_text(date.year as int, 4) + "-"@ + padded_text(
            date.month as int,
            2,
        ) + "-"@ + padded_text(date.day as int, 2),
        padded_text(date.month as int, 2).len() == 2,
        padded_text(date.day as int, 2).len() == 2,
        padded_text(date.year as int, 4).len() >= 4,
{
    law_filled_numbers(date.year as int, 4);
    law_filled_numbers(date.month as int, 2);
    law_filled_numbers(date.day as int, 2);
    lemma_two_digits(date.month as nat);
    lemma_two_digits(date.day as nat);
}

proof fn lemma_two_digits(n: nat)
    requires
        n < 100,
    ensures
        crate::text::nat_digits(n).len() <= 2,
{
    reveal_with_fuel(crate::text::nat_digits, 3);
}

/// A moment is written as the date of its day and its time of day: the hours, minutes and
/// seconds, in two digits each, that make up the seconds since midnight.
pub proof fn law_written_moments(secs: int) -> (clock: (int, int, int))
    requires
        0 <= secs <= 1_000_000_000_000_000,
    ensures
        ({
            let (h, m, s) = clock;
            let date = date_of_day(secs / 86400);
            &&& falls_on(date, secs / 86400)
            &&& 0 <= h < 24 && 0 <= m < 60 && 0 <= s < 60
            &&& h * 3600 + m * 60 + s == secs % 86400
            &&& moment_text(secs) == date_text(date) + "T"@ + (padded_text(h, 2) + ":"@
                + padded_text(m, 2) + ":"@ + padded_text(s, 2))
        }),
{
    lemma_date_exists(secs / 86400);
    let of_day = secs % 86400;
    let clock = (of_day / 3600, of_day % 3600 / 60, of_day % 3600 % 60);
    assert(super::quotient(secs, 86400) == secs / 86400);
    assert(super::rest(secs, 86400) == of_day);
    assert(super::quotient(of_day, 3600) == of_day / 3600);
    assert(super::rest(of_day, 3600) == of_day % 3600);
    clock
}

/// A moment in milliseconds is the moment in seconds, its milliseconds in three digits, and
/// the mark of universal time.
pub proof fn law_written_milliseconds(ms: int)
    requires
        0 <= ms,
    ensures
        crate::connector::opencode::iso_text(ms) == moment_text(ms / 1000) + "."@ + padded_text(
            ms % 1000,
            3,
        ) + "Z"@,
{
    assert(super::quotient(ms, 1000) == ms / 1000);
    assert(super::rest(ms, 1000) == ms % 1000);
}

}
