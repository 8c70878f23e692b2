//! Calendar dates without a time zone.

use chrono::Datelike;
use vstd::prelude::*;

use crate::text;

verus! {

/// The pattern of a date as `YYYY-MM-DD`.
pub const DATE_FORMAT: &'static str = "%Y-%m-%d";

/// A day of the proleptic Gregorian calendar.
#[derive(Debug, Clone, Copy, PartialEq, Eq, Hash, Structural)]
pub struct CalendarDate {
    pub year: i32,
    pub month: u32,
    pub day: u32,
}

/// Whether a year has a 29 February.
pub open spec fn is_leap(year: int) -> bool {
    year % 4 == 0 && (year % 100 != 0 || year % 400 == 0)
}

/// How many days a month has.
pub open spec fn days_in(year: int, month: int) -> int {
    if month == 2 {
        if is_leap(year) { 29 } else { 28 }
    } else if month == 4 || month == 6 || month == 9 || month == 11 {
        30
    } else {
        31
    }
}

/// The first and the last year that `chrono` represents.
pub open spec fn is_year(year: int) -> bool {
    -262143 <= year <= 262142
}

/// Whether a day exists.
pub open spec fn is_date(year: int, month: int, day: int) -> bool {
    is_year(year) && 1 <= month <= 12 && 1 <= day <= days_in(year, month)
}

/// A number below ten thousand as four digits, a larger one in full.
pub open spec fn at_least_four_digits(n: nat) -> Seq<char> {
    if n < 10000 {
        text::two_digits(n / 100) + text::two_digits(n % 100)
    } else {
        text::decimal(n)
    }
}

/// A year, with a sign in front unless it is one of 0 to 9999.
pub open spec fn year_text(year: int) -> Seq<char> {
    if 0 <= year <= 9999 {
        at_least_four_digits(year as nat)
    } else if year < 0 {
        seq!['-'] + at_least_four_digits((-year) as nat)
    } else {
        seq!['+'] + at_least_four_digits(year as nat)
    }
}

/// A date as `YYYY-MM-DD`.
pub open spec fn date_text(year: int, month: int, day: int) -> Seq<char> {
    year_text(year) + seq!['-'] + text::two_digits(month as nat) + seq!['-'] + text::two_digits(
        day as nat,
    )
}

impl CalendarDate {
    /// Whether this day exists.
    pub open spec fn wf(self) -> bool {
        is_date(self.year as int, self.month as int, self.day as int)
    }

    /// This day as `YYYY-MM-DD`.
    pub open spec fn text(self) -> Seq<char> {
        date_text(self.year as int, self.month as int, self.day as int)
    }

    /// Whether this day comes before another.
    pub open spec fn precedes(self, other: CalendarDate) -> bool {
        self.year < other.year || self.year == other.year && (self.month < other.month
            || self.month == other.month && self.day < other.day)
    }

    /// The given day, if it exists.
    pub fn new(year: i32, month: u32, day: u32) -> (r: Option<CalendarDate>)
        ensures
            match r {
                Some(date) => date.wf() && date == (CalendarDate { year, month, day }),
                None => !is_date(year as int, month as int, day as int),
            },
    {
        let leap: bool = year % 4 == 0 && (year % 100 != 0 || year % 400 == 0);
        let days: u32 = if month == 2 {
            if leap { 29 } else { 28 }
        } else if month == 4 || month == 6 || month == 9 || month == 11 {
            30
        } else {
            31
        };
        if -262143 <= year && year <= 262142 && 1 <= month && month <= 12 && 1 <= day && day <= days
        {
            Some(CalendarDate { year, month, day })
        } else {
            None
        }
    }

    /// Whether this day comes before another.
    pub fn is_before(self, other: CalendarDate) -> (r: bool)
        ensures
            r == self.precedes(other),
    {
        self.year < other.year || (self.year == other.year && (self.month < other.month || (
        self.month == other.month && self.day < other.day)))
    }

    /// This day as `YYYY-MM-DD`.
    pub fn to_string(self) -> (r: String)
        requires
            self.wf(),
        ensures
            r@ == self.text(),
    {
        show_date(self.year, self.month, self.day)
    }
}

// ---------------------------------------------------------------------------
// The calendar of `chrono`
// ---------------------------------------------------------------------------

/// What `NaiveDate::parse_from_str` makes of a text under a pattern.
pub uninterp spec fn parsed_date(text: Seq<char>, pattern: Seq<char>) -> Option<(i32, u32, u32)>;

/// `chrono::NaiveDate::parse_from_str`, as year, month and day.
///
/// The result is a function of the text and the pattern, and a date that exists
/// whenever there is one. Under `%Y-%m-%d`, the `YYYY-MM-DD` form of a date
/// reads back as that date, and nothing is read from a text with a character
/// other than a digit, a sign or white space. Which other texts are read is left
/// to the name.
#[verifier::external_body]
pub(crate) fn read_date(text: &str, pattern: &str) -> (r: Option<(i32, u32, u32)>)
    ensures
        r == parsed_date(text@, pattern@),
        r matches Some(d) ==> is_date(d.0 as int, d.1 as int, d.2 as int),
        pattern@ == DATE_FORMAT@ ==> forall|y: i32, m: u32, d: u32|
            is_date(y as int, m as int, d as int) && text@ == #[trigger] date_text(
                y as int,
                m as int,
                d as int,
            ) ==> r == Some((y, m, d)),
        pattern@ == DATE_FORMAT@ && r is Some ==> forall|i: int|
            0 <= i < text@.len() ==> (text::is_digit(#[trigger] text@[i]) || text@[i] == '-'
                || text@[i] == '+' || text::is_space(text@[i])),
{
    chrono::NaiveDate::parse_from_str(text, pattern).ok().map(|date| (date.year(), date.month(), date.day()))
}

/// The `Display` text of a `chrono::NaiveDate`, which is `YYYY-MM-DD` with a sign
/// in front of a year outside 0 to 9999.
#[verifier::external_body]
fn show_date(year: i32, month: u32, day: u32) -> (r: String)
    requires
        is_date(year as int, month as int, day as int),
    ensures
        r@ == date_text(year as int, month as int, day as int),
{
    chrono::NaiveDate::from_ymd_opt(year, month, day).unwrap().to_string()
}

/// `chrono::Utc::now`, reduced to its date: some date that exists. The machine's
/// clock decides which. `chrono` panics on a machine whose clock stands before
/// 1970 or after the last year that it represents.
#[verifier::external_body]
fn clock_date() -> (r: (i32, u32, u32))
    ensures
        is_date(r.0 as int, r.1 as int, r.2 as int),
{
    let date = chrono::Utc::now().date_naive();
    (date.year(), date.month(), date.day())
}

/// The date that the overdue rule compares against: today, in UTC.
///
/// A due date has no time zone attached, so one fixed reference that every
/// request agrees on is the only fair one.
pub fn today() -> (r: CalendarDate)
    ensures
        r.wf(),
{
    let (year, month, day) = clock_date();
    CalendarDate { year, month, day }
}

// ---------------------------------------------------------------------------
// Laws
// ---------------------------------------------------------------------------

/// Days come one after the other as their numbers do when written year first:
/// `20260813` comes before `20260814`. Of two different days one comes before the
/// other, and never both.
pub proof fn law_days_follow_one_another(a: CalendarDate, b: CalendarDate)
    requires
        a.wf(),
        b.wf(),
    ensures
        a.precedes(b) <==> a.year * 10000 + a.month * 100 + a.day < b.year * 10000 + b.month * 100
            + b.day,
        a != b <==> a.precedes(b) || b.precedes(a),
        !(a.precedes(b) && b.precedes(a)),
{
}

/// A year has twelve months of 28 to 31 days, 365 in all, and 366 in a leap year.
/// Leap years are every fourth one, but for three in four centuries.
pub proof fn law_length_of_a_year(year: int)
    requires
        is_year(year),
    ensures
        is_date(year, 12, 31),
        !is_date(year, 13, 1),
        !is_date(year, 0, 1),
        is_date(year, 2, 29) <==> is_leap(year),
        !is_date(year, 2, 30),
        days_in(year, 1) + days_in(year, 2) + days_in(year, 3) + days_in(year, 4) + days_in(year, 5)
            + days_in(year, 6) + days_in(year, 7) + days_in(year, 8) + days_in(year, 9) + days_in(
            year,
            10,
        ) + days_in(year, 11) + days_in(year, 12) == if is_leap(year) { 366int } else { 365int },
        is_leap(year + 400) == is_leap(year),
        year % 100 != 0 ==> (is_leap(year) <==> year % 4 == 0),
        year % 100 == 0 ==> (is_leap(year) <==> (year / 100) % 4 == 0),
{
}

/// Four months have thirty days, and all the others but February thirty-one.
pub proof fn law_length_of_a_month(year: int, month: int)
    requires
        1 <= month <= 12,
    ensures
        month == 4 || month == 6 || month == 9 || month == 11 <==> days_in(year, month) == 30,
        month != 2 ==> 30 <= days_in(year, month) <= 31,
        month == 2 ==> 28 <= days_in(year, month) <= 29,
{
}

} // verus!
