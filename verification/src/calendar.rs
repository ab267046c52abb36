//! Calendar dates and days of the week.
//!
//! A [`Date`] is a day of the proleptic Gregorian calendar, held as its day
//! number (January 1 of year 1 is day 1). What the calendar says of a day
//! number (its month, its day of the month, its day of the week, its text) is
//! asked of chrono.

use chrono::Datelike;
use vstd::prelude::*;

verus! {

/// A day of the week.
#[derive(Clone, Copy, Debug, PartialEq, Eq, Structural)]
pub enum Weekday {
    Mon,
    Tue,
    Wed,
    Thu,
    Fri,
    Sat,
    Sun,
}

/// The day of the week that comes `n` days after Monday (`0 <= n < 7`).
pub open spec fn weekday_from_number(n: int) -> Weekday {
    if n == 0 { Weekday::Mon }
    else if n == 1 { Weekday::Tue }
    else if n == 2 { Weekday::Wed }
    else if n == 3 { Weekday::Thu }
    else if n == 4 { Weekday::Fri }
    else if n == 5 { Weekday::Sat }
    else { Weekday::Sun }
}

impl Weekday {
    /// Days after Monday: Monday is 0, Sunday is 6.
    pub open spec fn number(self) -> int {
        match self {
            Weekday::Mon => 0,
            Weekday::Tue => 1,
            Weekday::Wed => 2,
            Weekday::Thu => 3,
            Weekday::Fri => 4,
            Weekday::Sat => 5,
            Weekday::Sun => 6,
        }
    }

    /// The three-letter English abbreviation of the day, as it is printed.
    pub open spec fn abbreviation(self) -> Seq<char> {
        match self {
            Weekday::Mon => "Mon"@,
            Weekday::Tue => "Tue"@,
            Weekday::Wed => "Wed"@,
            Weekday::Thu => "Thu"@,
            Weekday::Fri => "Fri"@,
            Weekday::Sat => "Sat"@,
            Weekday::Sun => "Sun"@,
        }
    }

    /// The day after this one.
    pub open spec fn next(self) -> Weekday {
        weekday_from_number((self.number() + 1) % 7)
    }

    /// The printed abbreviation of the day: "Mon", "Tue", ..., "Sun".
    pub fn short_name(&self) -> (r: &'static str)
        ensures
            r@ == self.abbreviation(),
    {
        match self {
            Weekday::Mon => "Mon",
            Weekday::Tue => "Tue",
            Weekday::Wed => "Wed",
            Weekday::Thu => "Thu",
            Weekday::Fri => "Fri",
            Weekday::Sat => "Sat",
            Weekday::Sun => "Sun",
        }
    }

    /// The day of the week `n` days after Monday.
    pub fn from_number(n: u32) -> (r: Weekday)
        requires
            n < 7,
        ensures
            r == weekday_from_number(n as int),
            r.number() == n,
    {
        match n {
            0 => Weekday::Mon,
            1 => Weekday::Tue,
            2 => Weekday::Wed,
            3 => Weekday::Thu,
            4 => Weekday::Fri,
            5 => Weekday::Sat,
            _ => Weekday::Sun,
        }
    }
}

/// The day number of chrono's first date, January 1 of 262144 BCE
/// (`NaiveDate::MIN`).
pub open spec fn first_chrono_day() -> int {
    -95746129
}

/// The day number of chrono's last date, December 31 of 262142 CE
/// (`NaiveDate::MAX`).
pub open spec fn last_chrono_day() -> int {
    95745399
}

/// Whether chrono represents the day with this day number: it lies between
/// chrono's first and last dates.
pub open spec fn chrono_representable(days: int) -> bool {
    first_chrono_day() <= days <= last_chrono_day()
}

/// Whether a year is a leap year of the Gregorian calendar.
pub open spec fn leap_year(y: int) -> bool {
    y % 4 == 0 && (y % 100 != 0 || y % 400 == 0)
}

/// The number of days in month `m` of year `y`.
pub open spec fn days_in_month(y: int, m: int) -> int {
    if m == 2 {
        if leap_year(y) { 29 } else { 28 }
    } else if m == 4 || m == 6 || m == 9 || m == 11 {
        30
    } else {
        31
    }
}

/// The number of days of year `y` before month `m` begins.
pub open spec fn days_before_month(y: int, m: int) -> int {
    (if m == 1 { 0int }
    else if m == 2 { 31 }
    else if m == 3 { 59 }
    else if m == 4 { 90 }
    else if m == 5 { 120 }
    else if m == 6 { 151 }
    else if m == 7 { 181 }
    else if m == 8 { 212 }
    else if m == 9 { 243 }
    else if m == 10 { 273 }
    else if m == 11 { 304 }
    else { 334 }) + (if m > 2 && leap_year(y) { 1int } else { 0int })
}

/// Whether `year-month-day` is a date that chrono makes: a day of the
/// proleptic Gregorian calendar in a year from 262144 BCE (year -262143) to
/// 262142 CE.
pub open spec fn valid_calendar_date(y: int, m: int, d: int) -> bool {
    &&& -262143 <= y <= 262142
    &&& 1 <= m <= 12
    &&& 1 <= d <= days_in_month(y, m)
}

/// The day number of the date `year-month-day` (January 1 of year 1 is day
/// 1): the days of the years before it, of its months before this one, and
/// the day of the month.
pub open spec fn gregorian_day_number(y: int, m: int, d: int) -> int {
    let p = y - 1;
    365 * p + p / 4 - p / 100 + p / 400 + days_before_month(y, m) + d
}

/// The month (1 to 12) of the day with this day number (`Datelike::month`).
pub uninterp spec fn chrono_month(days: int) -> int;

/// The day of the month (1 to 31) of the day with this day number
/// (`Datelike::day`).
pub uninterp spec fn chrono_day_of_month(days: int) -> int;

/// The day of the week of the day with this day number, counted from Monday
/// as 0: day 1, January 1 of year 1, is a Monday, and the days of the week
/// repeat every seven days.
pub open spec fn weekday_number(days: int) -> int {
    (days - 1) % 7
}

/// The text of the day with this day number (`Display` of `NaiveDate`,
/// such as "2026-10-12").
pub uninterp spec fn chrono_date_text(days: int) -> Seq<char>;

/// A number below 100 in two digits, with a leading zero.
pub open spec fn two_digits(n: int) -> Seq<char> {
    seq![crate::text::digit_char((n / 10) as nat), crate::text::digit_char((n % 10) as nat)]
}

/// A numeral padded with zeros in front to at least four digits.
pub open spec fn padded_four(s: Seq<char>) -> Seq<char> {
    if s.len() < 4 {
        Seq::new((4 - s.len()) as nat, |i: int| '0') + s
    } else {
        s
    }
}

/// The year as chrono writes it in a date: four digits for the years 0 to
/// 9999; otherwise a sign, then at least four digits.
pub open spec fn year_text(y: int) -> Seq<char> {
    if 0 <= y <= 9999 {
        two_digits(y / 100) + two_digits(y % 100)
    } else if y < 0 {
        seq!['-'] + padded_four(crate::text::decimal((-y) as nat))
    } else {
        seq!['+'] + padded_four(crate::text::decimal(y as nat))
    }
}

/// The ISO 8601 text of a date: the year, two-digit month and two-digit
/// day, joined by `-`.
pub open spec fn iso_date_text(y: int, m: int, d: int) -> Seq<char> {
    year_text(y) + seq!['-'] + two_digits(m) + seq!['-'] + two_digits(d)
}

/// Whether chrono represents the day with number `days`: it lies between
/// chrono's first and last dates.
fn representable(days: i32) -> (r: bool)
    ensures
        r == chrono_representable(days as int),
{
    -95746129 <= days && days <= 95745399
}

/// Makes the calendar date `year-month-day` with chrono
/// (`NaiveDate::from_ymd_opt`) and returns its day number
/// (`num_days_from_ce`). Chrono makes the date exactly where the day exists
/// in a year of its range; its day number counts the days of the proleptic
/// Gregorian calendar from January 1 of year 1 as day 1, and the date gives
/// back the month and day it was made from.
#[verifier::external_body]
fn day_number_of_ymd(year: i32, month: u32, day: u32) -> (r: Option<i32>)
    ensures
        r is Some <==> valid_calendar_date(year as int, month as int, day as int),
        match r {
            Some(n) => {
                &&& n == gregorian_day_number(year as int, month as int, day as int)
                &&& chrono_representable(n as int)
                &&& chrono_month(n as int) == month as int
                &&& chrono_day_of_month(n as int) == day as int
            },
            None => true,
        },
{
    match chrono::NaiveDate::from_ymd_opt(year, month, day) {
        Some(d) => Some(d.num_days_from_ce()),
        None => None,
    }
}

/// The day number of the next calendar date (`NaiveDate::succ_opt`). Chrono
/// documents that it is the next day, and that there is none only for the
/// last representable date, `NaiveDate::MAX`.
#[verifier::external_body]
fn next_day_number(days: i32) -> (r: Option<i32>)
    requires
        chrono_representable(days as int),
    ensures
        match r {
            Some(n) => n == days + 1 && chrono_representable(n as int),
            None => days == last_chrono_day(),
        },
{
    match chrono::NaiveDate::from_num_days_from_ce_opt(days).unwrap().succ_opt() {
        Some(d) => Some(d.num_days_from_ce()),
        None => None,
    }
}

/// The month of a day (`Datelike::month`), which chrono documents to lie in
/// 1..=12. The result is named `chrono_month`.
#[verifier::external_body]
fn month_of(days: i32) -> (r: u32)
    requires
        chrono_representable(days as int),
    ensures
        r as int == chrono_month(days as int),
        1 <= r <= 12,
        exists|y: int, d: int|
            valid_calendar_date(y, r as int, d) && #[trigger] gregorian_day_number(y, r as int, d)
                == days,
{
    chrono::NaiveDate::from_num_days_from_ce_opt(days).unwrap().month()
}

/// The day of the month of a day (`Datelike::day`), which chrono documents
/// to lie in 1..=31. The result is named `chrono_day_of_month`.
#[verifier::external_body]
fn day_of_month_of(days: i32) -> (r: u32)
    requires
        chrono_representable(days as int),
    ensures
        r as int == chrono_day_of_month(days as int),
        1 <= r <= 31,
        exists|y: int, m: int|
            valid_calendar_date(y, m, r as int) && #[trigger] gregorian_day_number(y, m, r as int)
                == days,
{
    chrono::NaiveDate::from_num_days_from_ce_opt(days).unwrap().day()
}

/// The day of the week of a day, counted from Monday as 0
/// (`Datelike::weekday`, then `num_days_from_monday`): the proleptic
/// Gregorian calendar that chrono follows puts a Monday on day 1, and the
/// week has seven days.
#[verifier::external_body]
fn weekday_number_of(days: i32) -> (r: u32)
    requires
        chrono_representable(days as int),
    ensures
        r as int == weekday_number(days as int),
{
    chrono::NaiveDate::from_num_days_from_ce_opt(days).unwrap().weekday().num_days_from_monday()
}

/// The text of a day (`Display` of `NaiveDate`): the year (four digits for
/// the years 0 to 9999, otherwise signed and padded to four digits), then the
/// month and the day in two digits, joined by `-`.
#[verifier::external_body]
fn date_text_of(days: i32) -> (r: String)
    requires
        chrono_representable(days as int),
    ensures
        r@ == chrono_date_text(days as int),
        forall|y: int, m: int, d: int|
            valid_calendar_date(y, m, d) && #[trigger] gregorian_day_number(y, m, d) == days ==> r@
                == iso_date_text(y, m, d),
{
    chrono::NaiveDate::from_num_days_from_ce_opt(days).unwrap().to_string()
}

/// A day of the proleptic Gregorian calendar that chrono represents, held as
/// its day number: January 1 of year 1 is day 1, and each later day is one
/// more.
#[derive(Clone, Copy, Debug, PartialEq, Eq, Structural)]
pub struct Date {
    days: i32,
}

/// The day of the week of the day with number `days`.
pub open spec fn weekday_of(days: int) -> Weekday {
    weekday_from_number(weekday_number(days))
}

impl View for Date {
    type V = int;

    closed spec fn view(&self) -> int {
        self.days as int
    }
}

impl Date {
    #[verifier::type_invariant]
    spec fn inv(self) -> bool {
        chrono_representable(self.days as int)
    }

    /// The date `year-month-day`, or `None` where the calendar has no such
    /// day or chrono does not represent it.
    pub fn from_ymd(year: i32, month: u32, day: u32) -> (r: Option<Date>)
        ensures
            r is Some <==> valid_calendar_date(year as int, month as int, day as int),
            r matches Some(d) ==> {
                &&& d@ == gregorian_day_number(year as int, month as int, day as int)
                &&& chrono_month(d@) == month
                &&& chrono_day_of_month(d@) == day
            },
    {
        match day_number_of_ymd(year, month, day) {
            Some(n) => Some(Date { days: n }),
            None => None,
        }
    }

    /// The date with day number `days`, where chrono represents one.
    pub fn from_day_number(days: i32) -> (r: Option<Date>)
        ensures
            r is Some <==> chrono_representable(days as int),
            r matches Some(d) ==> d@ == days,
    {
        if representable(days) {
            Some(Date { days })
        } else {
            None
        }
    }

    /// The day number of the date.
    pub fn day_number(&self) -> (r: i32)
        ensures
            r == self@,
            chrono_representable(self@),
    {
        proof { use_type_invariant(self); }
        self.days
    }

    /// The month of the date, 1 to 12.
    pub fn month(&self) -> (r: u32)
        ensures
            r == chrono_month(self@),
            1 <= r <= 12,
            exists|y: int, d: int|
                valid_calendar_date(y, r as int, d) && #[trigger] gregorian_day_number(y, r as int, d)
                    == self@,
    {
        proof { use_type_invariant(self); }
        month_of(self.days)
    }

    /// The day of the month of the date, 1 to 31.
    pub fn day(&self) -> (r: u32)
        ensures
            r == chrono_day_of_month(self@),
            1 <= r <= 31,
            exists|y: int, m: int|
                valid_calendar_date(y, m, r as int) && #[trigger] gregorian_day_number(y, m, r as int)
                    == self@,
    {
        proof { use_type_invariant(self); }
        day_of_month_of(self.days)
    }

    /// The day of the week of the date.
    pub fn weekday(&self) -> (r: Weekday)
        ensures
            r == weekday_of(self@),
    {
        proof { use_type_invariant(self); }
        let n = weekday_number_of(self.days);
        Weekday::from_number(n)
    }

    /// The next day, unless this is the last day that chrono represents.
    pub fn succ(&self) -> (r: Option<Date>)
        ensures
            match r {
                Some(d) => d@ == self@ + 1 && chrono_representable(d@),
                None => self@ == last_chrono_day(),
            },
    {
        proof { use_type_invariant(self); }
        match next_day_number(self.days) {
            Some(n) => Some(Date { days: n }),
            None => None,
        }
    }

    /// The text of the date, such as "2026-10-12".
    pub fn to_text(&self) -> (r: String)
        ensures
            r@ == chrono_date_text(self@),
            forall|y: int, m: int, d: int|
                valid_calendar_date(y, m, d) && #[trigger] gregorian_day_number(y, m, d) == self@
                    ==> r@ == iso_date_text(y, m, d),
    {
        proof { use_type_invariant(self); }
        date_text_of(self.days)
    }
}

/// Each day falls on the day of the week after that of the day before it.
pub proof fn lemma_weekday_advances(d: int)
    ensures
        weekday_of(d + 1) == weekday_of(d).next(),
{
    let n = (d - 1) % 7;
    assert(0 <= n < 7);
    assert(weekday_from_number(n).number() == n);
    assert(d % 7 == (n + 1) % 7) by (nonlinear_arith)
        requires
            n == (d - 1) % 7,
    ;
}

} // verus!
