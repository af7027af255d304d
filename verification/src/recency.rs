//! The recency filter that ingesting and embedding share.
//!
//! `--recency <days>` and `--since <YYYY-MM-DD>` exclude each other. Both come
//! down to one cutoff, the first moment that is kept: a date for comparing with
//! stored timestamps, and the same date's midnight in seconds for comparing
//! with the times of files.

use vstd::prelude::*;

use crate::calendar::{
    date_exists, date_of_day, date_text, day_number, days_from_civil, falls_on, format_moment,
    is_date, law_one_date_per_day, moment_text, month_length, quotient, Date,
};
use crate::error::{outcome, OslError};
use crate::text::{
    cat3, chars_of, digit_char, first_chars, nat_digits, padded_text, take,
};

pub mod laws;

verus! {

/// A lower bound on how old something may be, or none.
#[derive(Clone, Debug, PartialEq)]
pub struct RecencyFilter {
    cutoff: Option<(String, i64)>,
}

/// The cutoff of a filter: the date and its midnight.
pub struct Cutoff {
    pub date: Seq<char>,
    pub unix: i64,
}

/// When a file was last changed, as far as that can be told.
#[derive(Clone, Copy, Debug, PartialEq, Eq, Structural)]
pub enum FileTime {
    /// It could not be found out.
    Unknown,
    /// Before 1970.
    BeforeEpoch,
    /// So many seconds after the start of 1970.
    At(u64),
}

pub open spec fn is_digit(c: char) -> bool {
    '0' <= c <= '9'
}

pub open spec fn digit_value(c: char) -> int {
    c as int - 48
}

/// Whether the text has the form `YYYY-MM-DD`.
pub open spec fn is_ymd(s: Seq<char>) -> bool {
    &&& s.len() == 10
    &&& is_digit(s[0]) && is_digit(s[1]) && is_digit(s[2]) && is_digit(s[3])
    &&& s[4] == '-'
    &&& is_digit(s[5]) && is_digit(s[6])
    &&& s[7] == '-'
    &&& is_digit(s[8]) && is_digit(s[9])
}

pub open spec fn ymd_year(s: Seq<char>) -> int {
    1000 * digit_value(s[0]) + 100 * digit_value(s[1]) + 10 * digit_value(s[2]) + digit_value(s[3])
}

pub open spec fn ymd_month(s: Seq<char>) -> int {
    10 * digit_value(s[5]) + digit_value(s[6])
}

pub open spec fn ymd_day(s: Seq<char>) -> int {
    10 * digit_value(s[8]) + digit_value(s[9])
}

/// Whether the text is a date that exists, written as `YYYY-MM-DD`.
pub open spec fn is_day(s: Seq<char>) -> bool {
    &&& is_ymd(s)
    &&& 1 <= ymd_month(s) <= 12
    &&& 1 <= ymd_day(s) <= month_length(ymd_year(s), ymd_month(s))
}

/// The midnight that starts the date `s`, in seconds.
pub open spec fn midnight_of(s: Seq<char>) -> Result<i64, OslError<Seq<char>>> {
    if !is_ymd(s) {
        Err(OslError::Usage("--since expects YYYY-MM-DD, got '"@ + s + "'"@))
    } else if !is_day(s) {
        Err(OslError::Usage("--since date out of range: '"@ + s + "'"@))
    } else {
        Ok((day_number(ymd_year(s), ymd_month(s), ymd_day(s)) * 86400) as i64)
    }
}

fn digit_at(c: char) -> (r: Option<i64>)
    ensures
        is_digit(c) ==> r == Some(digit_value(c) as i64) && 0 <= digit_value(c) <= 9,
        !is_digit(c) ==> r is None,
{
    if '0' <= c && c <= '9' {
        Some(c as u32 as i64 - 48)
    } else {
        None
    }
}

/// The number that two digits write.
fn two_digits(a: char, b: char) -> (r: Option<i64>)
    ensures
        is_digit(a) && is_digit(b) ==> r == Some(
            (10 * digit_value(a) + digit_value(b)) as i64,
        ) && 0 <= 10 * digit_value(a) + digit_value(b) <= 99,
        !(is_digit(a) && is_digit(b)) ==> r is None,
{
    match (digit_at(a), digit_at(b)) {
        (Some(x), Some(y)) => Some(10 * x + y),
        _ => None,
    }
}

/// Reads a `YYYY-MM-DD` text strictly.
fn read_ymd(date: &str) -> (r: Option<Date>)
    ensures
        r is Some <==> is_ymd(date@),
        r is Some ==> r->0.year == ymd_year(date@) && r->0.month == ymd_month(date@) && r->0.day
            == ymd_day(date@) && 0 <= r->0.year <= 9999,
{
    let c = chars_of(date);
    if c.len() != 10 || c[4] != '-' || c[7] != '-' {
        return None;
    }
    match (
        two_digits(c[0], c[1]),
        two_digits(c[2], c[3]),
        two_digits(c[5], c[6]),
        two_digits(c[8], c[9]),
    ) {
        (Some(century), Some(of_century), Some(month), Some(day)) => Some(
            Date { year: 100 * century + of_century, month, day },
        ),
        _ => None,
    }
}

/// The midnight that starts a `YYYY-MM-DD` date, in seconds after the start of 1970.
pub fn ymd_to_unix_seconds(date: &str) -> (r: Result<i64, OslError>)
    ensures
        outcome(r) == midnight_of(date@),
{
    match read_ymd(date) {
        None => Err(OslError::Usage(cat3("--since expects YYYY-MM-DD, got '", date, "'"))),
        Some(d) => {
            if !date_exists(d) {
                return Err(OslError::Usage(cat3("--since date out of range: '", date, "'")));
            }
            let days: i64 = days_from_civil(d);
            proof {
                crate::calendar::lemma_day_number_bounds(d);
            }
            Ok(days * 86400)
        },
    }
}

/// The date of a moment: the first ten characters of its text.
pub open spec fn day_text(secs: int) -> Seq<char> {
    first_chars(moment_text(secs), 10)
}

/// Today's date as `YYYY-MM-DD`, for the current time in seconds.
pub fn today_ymd(now_secs: i64) -> (r: String)
    ensures
        r@ == day_text(now_secs as int),
{
    take(format_moment(now_secs).as_str(), 10)
}

/// Midnight of today, so many days ago.
pub open spec fn midnight_ago(now_secs: i64, days: u64) -> int {
    quotient(now_secs as int, 86400) * 86400 - (days as i64) * 86400
}

/// The cutoff that the two flags ask for.
pub open spec fn cutoff_of(recency: Option<u64>, since: Option<Seq<char>>, now_secs: i64) -> Result<
    Option<Cutoff>,
    OslError<Seq<char>>,
> {
    match (recency, since) {
        (None, None) => Ok(None),
        (Some(_), Some(_)) => Err(
            OslError::Usage("--recency and --since are mutually exclusive"@),
        ),
        (Some(days), None) => if days == 0 {
            Err(OslError::Usage("--recency must be >= 1 day"@))
        } else {
            let unix = midnight_ago(now_secs, days);
            Ok(Some(Cutoff { date: day_text(unix), unix: unix as i64 }))
        },
        (None, Some(date)) => match midnight_of(date) {
            Ok(unix) => Ok(Some(Cutoff { date, unix })),
            Err(e) => Err(e),
        },
    }
}

impl DeepView for RecencyFilter {
    type V = Option<Cutoff>;

    closed spec fn deep_view(&self) -> Option<Cutoff> {
        match self.cutoff {
            Some((date, unix)) => Some(Cutoff { date: date@, unix }),
            None => None,
        }
    }
}

impl RecencyFilter {
    /// No filtering: everything is kept.
    pub fn none() -> (r: Self)
        ensures
            r.deep_view() is None,
    {
        RecencyFilter { cutoff: None }
    }

    /// The filter that the two flags ask for; `now_secs` is the current time.
    pub fn from_flags(recency: Option<u64>, since: Option<String>, now_secs: i64) -> (r: Result<
        Self,
        OslError,
    >)
        requires
            recency matches Some(days) ==> since is None ==> i64::MIN <= (days as i64) * 86400
                <= i64::MAX && i64::MIN <= midnight_ago(now_secs, days) <= i64::MAX,
        ensures
            outcome(r) == cutoff_of(recency, since.deep_view(), now_secs),
    {
        match (recency, since) {
            (None, None) => Ok(RecencyFilter::none()),
            (Some(_), Some(_)) => Err(
                OslError::Usage("--recency and --since are mutually exclusive".to_owned()),
            ),
            (Some(days), None) => {
                if days == 0 {
                    return Err(OslError::Usage("--recency must be >= 1 day".to_owned()));
                }
                let today_midnight: i64 = (now_secs / 86400) * 86400;
                let unix: i64 = today_midnight - (days as i64) * 86400;
                Ok(
                    RecencyFilter {
                        cutoff: Some((take(format_moment(unix).as_str(), 10), unix)),
                    },
                )
            },
            (None, Some(date)) => match ymd_to_unix_seconds(date.as_str()) {
                Ok(unix) => Ok(RecencyFilter { cutoff: Some((date, unix)) }),
                Err(e) => Err(e),
            },
        }
    }

    /// Whether there is a cutoff.
    pub fn is_active(&self) -> (r: bool)
        ensures
            r == (self.deep_view() is Some),
    {
        self.cutoff.is_some()
    }

    /// The date of the cutoff.
    pub fn since_date(&self) -> (r: Option<&str>)
        ensures
            r.deep_view() == match self.deep_view() {
                Some(cutoff) => Some(cutoff.date),
                None => None,
            },
    {
        match &self.cutoff {
            Some((date, _)) => Some(date.as_str()),
            None => None,
        }
    }

    /// The midnight of the cutoff, in seconds.
    pub fn since_unix(&self) -> (r: Option<i64>)
        ensures
            r == match self.deep_view() {
                Some(cutoff) => Some(cutoff.unix),
                None => None,
            },
    {
        match &self.cutoff {
            Some((_, unix)) => Some(*unix),
            None => None,
        }
    }

    /// Whether a file with this time is kept: always without a cutoff, and where the
    /// time could not be found out.
    pub fn keep_file(&self, time: FileTime) -> (r: bool)
        ensures
            r == keeps(self.deep_view(), time),
    {
        match self.since_unix() {
            None => true,
            Some(cutoff) => match time {
                FileTime::Unknown => true,
                FileTime::BeforeEpoch => false,
                FileTime::At(secs) => secs as i64 >= cutoff,
            },
        }
    }
}

/// Whether a cutoff lets a file with this time pass.
pub open spec fn keeps(cutoff: Option<Cutoff>, time: FileTime) -> bool {
    match (cutoff, time) {
        (None, _) => true,
        (_, FileTime::Unknown) => true,
        (_, FileTime::BeforeEpoch) => false,
        (Some(c), FileTime::At(secs)) => secs as i64 >= c.unix,
    }
}

proof fn lemma_digit(d: int)
    requires
        0 <= d <= 9,
    ensures
        is_digit(digit_char(d)),
        digit_value(digit_char(d)) == d,
{
}

/// A number is written as what it is without its last digit, and that digit.
proof fn lemma_last_digit(n: nat)
    ensures
        n < 10 ==> nat_digits(n) == seq![digit_char(n as int)],
        n >= 10 ==> nat_digits(n) == nat_digits(n / 10).push(digit_char(n as int % 10)),
{
    if n < 10 {
        assert(nat_digits(n) =~= seq![digit_char(n as int)]);
    }
}

proof fn lemma_two_digits(n: int)
    requires
        0 <= n <= 99,
    ensures
        ({
            let t = padded_text(n, 2);
            &&& t.len() == 2
            &&& is_digit(t[0]) && is_digit(t[1])
            &&& 10 * digit_value(t[0]) + digit_value(t[1]) == n
        }),
{
    lemma_last_digit(n as nat);
    lemma_last_digit((n / 10) as nat);
    assert(padded_text(n, 2) =~= seq![digit_char(n / 10), digit_char(n % 10)]);
    lemma_digit(n / 10);
    lemma_digit(n % 10);
}

proof fn lemma_four_digits(n: int)
    requires
        0 <= n <= 9999,
    ensures
        ({
            let t = padded_text(n, 4);
            &&& t.len() == 4
            &&& is_digit(t[0]) && is_digit(t[1]) && is_digit(t[2]) && is_digit(t[3])
            &&& 1000 * digit_value(t[0]) + 100 * digit_value(t[1]) + 10 * digit_value(t[2])
                + digit_value(t[3]) == n
        }),
{
    let a = n / 10;
    let b = a / 10;
    let c = b / 10;
    assert(0 <= c <= 9 && n == 10 * a + n % 10 && a == 10 * b + a % 10 && b == 10 * c + b % 10);
    let digits = seq![digit_char(c), digit_char(b % 10), digit_char(a % 10), digit_char(n % 10)];
    lemma_last_digit(n as nat);
    lemma_last_digit(a as nat);
    lemma_last_digit(b as nat);
    lemma_last_digit(c as nat);
    assert(padded_text(n, 4) =~= digits);
    lemma_digit(c);
    lemma_digit(b % 10);
    lemma_digit(a % 10);
    lemma_digit(n % 10);
}

/// The text of a date with a four-digit year reads back as that date.
proof fn lemma_date_reads_back(date: Date)
    requires
        is_date(date),
        0 <= date.year <= 9999,
    ensures
        is_ymd(date_text(date)),
        ymd_year(date_text(date)) == date.year,
        ymd_month(date_text(date)) == date.month,
        ymd_day(date_text(date)) == date.day,
{
    reveal_strlit("-");
    let year = padded_text(date.year as int, 4);
    let month = padded_text(date.month as int, 2);
    let day = padded_text(date.day as int, 2);
    lemma_four_digits(date.year as int);
    lemma_two_digits(date.month as int);
    lemma_two_digits(date.day as int);
    let s = date_text(date);
    assert(s =~= seq![
        year[0],
        year[1],
        year[2],
        year[3],
        '-',
        month[0],
        month[1],
        '-',
        day[0],
        day[1],
    ]);
}

/// A date and its midnight stand for each other: the midnight of a date's text is the
/// date's first second, and the text of that second begins with the date.
pub proof fn law_date_round_trip(date: Date)
    requires
        is_date(date),
        0 <= date.year <= 9999,
    ensures
        ({
            let midnight = day_number(
                date.year as int,
                date.month as int,
                date.day as int,
            ) * 86400;
            &&& midnight_of(date_text(date)) == Ok::<i64, OslError<Seq<char>>>(midnight as i64)
            &&& day_text(midnight) == date_text(date)
        }),
{
    let n = day_number(date.year as int, date.month as int, date.day as int);
    lemma_date_reads_back(date);
    assert(quotient(n * 86400, 86400) == n);
    assert(falls_on(date, n));
    law_one_date_per_day(date, date_of_day(n), n);
    let text = moment_text(n * 86400);
    assert(text.len() >= 10);
    assert(first_chars(text, 10) =~= date_text(date));
}

/// A filter for the last so many days keeps from a midnight on that is at least a day
/// before today's, and its date is the date of that midnight, as long as the year of
/// that date has four digits.
pub proof fn law_recency_cutoff(days: u64, now_secs: i64)
    requires
        0 <= now_secs,
        0 < days <= i64::MAX,
        day_number(0, 1, 1) <= now_secs as int / 86400 - days <= day_number(9999, 12, 31),
    ensures
        ({
            let unix = midnight_ago(now_secs, days);
            &&& cutoff_of(Some(days), None, now_secs) == Ok::<
                Option<Cutoff>,
                OslError<Seq<char>>,
            >(Some(Cutoff { date: day_text(unix), unix: unix as i64 }))
            &&& unix % 86400 == 0
            &&& unix <= now_secs - days * 86400
            &&& now_secs - days * 86400 < unix + 86400
            &&& midnight_of(day_text(unix)) == Ok::<i64, OslError<Seq<char>>>(unix as i64)
        }),
{
    let unix = midnight_ago(now_secs, days);
    let n = now_secs as int / 86400 - days;
    assert(unix == n * 86400);
    assert(unix % 86400 == 0) by (nonlinear_arith)
        requires
            unix == n * 86400,
    ;
    let date = date_of_day(n);
    crate::calendar::lemma_date_exists(n);
    crate::calendar::lemma_year_range(date, n);
    law_date_round_trip(date);
}

/// Without a cutoff every file is kept; with one, the files from its midnight on are kept,
/// that midnight among them, and no others whose time is known.
pub proof fn law_what_is_kept(cutoff: Cutoff, secs: u64)
    requires
        secs <= i64::MAX,
    ensures
        keeps(None, FileTime::At(secs)),
        keeps(None, FileTime::BeforeEpoch),
        keeps(Some(cutoff), FileTime::At(secs)) <==> secs >= cutoff.unix,
        !keeps(Some(cutoff), FileTime::BeforeEpoch),
        keeps(Some(cutoff), FileTime::Unknown),
{
}

/// A date that was read is written as it stood.
proof fn lemma_date_writes_back(s: Seq<char>, date: Date)
    requires
        is_day(s),
        date.year == ymd_year(s),
        date.month == ymd_month(s),
        date.day == ymd_day(s),
    ensures
        is_date(date),
        0 <= date.year <= 9999,
        date_text(date) == s,
{
    lemma_date_reads_back(date);
    let t = date_text(date);
    assert(ymd_year(t) == ymd_year(s) && ymd_month(t) == ymd_month(s) && ymd_day(t) == ymd_day(s));
    assert(digit_value(t[0]) == digit_value(s[0]) && digit_value(t[1]) == digit_value(s[1]));
    assert(digit_value(t[2]) == digit_value(s[2]) && digit_value(t[3]) == digit_value(s[3]));
    assert(digit_value(t[5]) == digit_value(s[5]) && digit_value(t[6]) == digit_value(s[6]));
    assert(digit_value(t[8]) == digit_value(s[8]) && digit_value(t[9]) == digit_value(s[9]));
    assert(t =~= s);
}

/// The moment of a cutoff is the midnight of its date: only dates that exist are taken,
/// and the moment falls on the date.
pub proof fn law_since_is_midnight(s: Seq<char>)
    ensures
        midnight_of(s) is Ok <==> is_day(s),
        midnight_of(s) matches Ok(unix) ==> day_text(unix as int) == s && unix as int % 86400 == 0,
{
    if is_day(s) {
        let date = Date {
            year: ymd_year(s) as i64,
            month: ymd_month(s) as i64,
            day: ymd_day(s) as i64,
        };
        lemma_date_writes_back(s, date);
        law_date_round_trip(date);
        crate::calendar::lemma_day_number_bounds(date);
        let n = day_number(date.year as int, date.month as int, date.day as int);
        assert((n * 86400) % 86400 == 0) by (nonlinear_arith);
    }
}

}
