use chrono::Datelike;
use std::fmt::Write;
use vstd::prelude::*;

verus! {

/// Smallest year that a calendar date may carry.
pub const MIN_YEAR: i32 = -262143;

/// Largest year that a calendar date may carry.
pub const MAX_YEAR: i32 = 262142;

/// A local calendar day: year, month and day of the proleptic Gregorian calendar.
#[derive(Clone, Copy, Debug, PartialEq, Eq, Structural)]
pub struct Date {
    pub year: i32,
    pub month: u32,
    pub day: u32,
}

pub open spec fn is_leap_year(y: int) -> bool {
    (y % 4 == 0 && y % 100 != 0) || y % 400 == 0
}

pub open spec fn days_in_month(y: int, m: int) -> int {
    if m == 2 {
        if is_leap_year(y) { 29 } else { 28 }
    } else if m == 4 || m == 6 || m == 9 || m == 11 {
        30
    } else {
        31
    }
}

/// Whether the three numbers name a day of the calendar within the supported years.
pub open spec fn valid_ymd(y: int, m: int, d: int) -> bool {
    &&& MIN_YEAR <= y <= MAX_YEAR
    &&& 1 <= m <= 12
    &&& 1 <= d <= days_in_month(y, m)
}

/// Chronological order of two dates.
pub open spec fn date_lt(a: Date, b: Date) -> bool {
    a.year < b.year || (a.year == b.year && (a.month < b.month || (a.month == b.month && a.day
        < b.day)))
}

pub open spec fn date_le(a: Date, b: Date) -> bool {
    date_lt(a, b) || a == b
}

/// The day after `d`.
pub open spec fn next_day(d: Date) -> Date {
    if (d.day as int) < days_in_month(d.year as int, d.month as int) {
        Date { day: (d.day + 1) as u32, ..d }
    } else if d.month < 12 {
        Date { year: d.year, month: (d.month + 1) as u32, day: 1 }
    } else {
        Date { year: (d.year + 1) as i32, month: 1, day: 1 }
    }
}

/// The day before `d`.
pub open spec fn prev_day(d: Date) -> Date {
    if d.day > 1 {
        Date { day: (d.day - 1) as u32, ..d }
    } else if d.month > 1 {
        Date {
            year: d.year,
            month: (d.month - 1) as u32,
            day: days_in_month(d.year as int, d.month - 1) as u32,
        }
    } else {
        Date { year: (d.year - 1) as i32, month: 12, day: 31 }
    }
}

pub open spec fn digit(n: int) -> char {
    if n == 0 { '0' }
    else if n == 1 { '1' }
    else if n == 2 { '2' }
    else if n == 3 { '3' }
    else if n == 4 { '4' }
    else if n == 5 { '5' }
    else if n == 6 { '6' }
    else if n == 7 { '7' }
    else if n == 8 { '8' }
    else { '9' }
}

/// The `YYYY-MM-DD` text of a date whose year has at most four digits.
#[verifier::opaque]
pub open spec fn iso_text(d: Date) -> Seq<char> {
    seq![
        digit(d.year as int / 1000),
        digit(d.year as int / 100 % 10),
        digit(d.year as int / 10 % 10),
        digit(d.year as int % 10),
        '-',
        digit(d.month as int / 10),
        digit(d.month as int % 10),
        '-',
        digit(d.day as int / 10),
        digit(d.day as int % 10),
    ]
}

/// The canonical text of a date has ten characters and no colon.
pub proof fn lemma_iso_text_shape(d: Date)
    ensures
        iso_text(d).len() == 10,
        forall|j: int| 0 <= j < 10 ==> #[trigger] iso_text(d)[j] != ':',
{
    reveal(iso_text);
}

/// The pattern under which dates are read and written in their canonical form.
pub open spec fn iso_pattern() -> Seq<char> {
    seq!['%', 'Y', '-', '%', 'm', '-', '%', 'd']
}

/// The date that chrono reads from a text under a strftime pattern, if any.
pub uninterp spec fn parsed_date_of(s: Seq<char>, pattern: Seq<char>) -> Option<Date>;

/// The text that chrono's `Display` writes for a date.
pub uninterp spec fn date_text_of(d: Date) -> Seq<char>;

/// The text that chrono writes for a date under a strftime pattern, if the pattern is accepted.
pub uninterp spec fn formatted_date_of(d: Date, pattern: Seq<char>) -> Option<Seq<char>>;

impl Date {
    pub open spec fn wf(self) -> bool {
        valid_ymd(self.year as int, self.month as int, self.day as int)
    }

    /// The date with the given year, month and day, if that day exists.
    pub fn from_ymd(year: i32, month: u32, day: u32) -> (r: Option<Date>)
        ensures
            r is Some <==> valid_ymd(year as int, month as int, day as int),
            r matches Some(d) ==> d.year == year && d.month == month && d.day == day,
    {
        if year < MIN_YEAR || year > MAX_YEAR || month < 1 || month > 12 || day < 1 {
            return None;
        }
        if day > Self::month_length(year, month) {
            return None;
        }
        Some(Date { year, month, day })
    }

    fn month_length(year: i32, month: u32) -> (r: u32)
        ensures
            r as int == days_in_month(year as int, month as int),
    {
        if month == 2 {
            if (year % 4 == 0 && year % 100 != 0) || year % 400 == 0 {
                29
            } else {
                28
            }
        } else if month == 4 || month == 6 || month == 9 || month == 11 {
            30
        } else {
            31
        }
    }

    /// Whether `self` comes strictly before `other`.
    pub fn is_before(&self, other: &Date) -> (r: bool)
        ensures
            r == date_lt(*self, *other),
    {
        self.year < other.year || (self.year == other.year && (self.month < other.month || (
        self.month == other.month && self.day < other.day)))
    }

    /// The following day; `None` after the last supported day.
    pub fn succ(&self) -> (r: Option<Date>)
        requires
            self.wf(),
        ensures
            r is None <==> (self.year == MAX_YEAR && self.month == 12 && self.day == 31),
            r matches Some(n) ==> n == next_day(*self) && n.wf(),
    {
        if self.day < Self::month_length(self.year, self.month) {
            Some(Date { day: self.day + 1, ..*self })
        } else if self.month < 12 {
            Some(Date { year: self.year, month: self.month + 1, day: 1 })
        } else if self.year < MAX_YEAR {
            Some(Date { year: self.year + 1, month: 1, day: 1 })
        } else {
            None
        }
    }

    /// The preceding day; `None` before the first supported day.
    pub fn pred(&self) -> (r: Option<Date>)
        requires
            self.wf(),
        ensures
            r is None <==> (self.year == MIN_YEAR && self.month == 1 && self.day == 1),
            r matches Some(p) ==> p == prev_day(*self) && p.wf(),
    {
        if self.day > 1 {
            Some(Date { day: self.day - 1, ..*self })
        } else if self.month > 1 {
            Some(
                Date {
                    year: self.year,
                    month: self.month - 1,
                    day: Self::month_length(self.year, self.month - 1),
                },
            )
        } else if self.year > MIN_YEAR {
            Some(Date { year: self.year - 1, month: 12, day: 31 })
        } else {
            None
        }
    }
}

/// Relies on chrono's `NaiveDate::parse_from_str`: it reads a date from the text under the
/// pattern, and what it gives is a valid date; the canonical text of a date reads back as it.
#[verifier::external_body]
pub(crate) fn parse_date(s: &str, pattern: &str) -> (r: Option<Date>)
    ensures
        r == parsed_date_of(s@, pattern@),
        r is Some ==> r->Some_0.wf(),
        forall|d: Date|
            pattern@ == iso_pattern() && d.wf() && 0 <= d.year <= 9999 && #[trigger] iso_text(d)
                == s@ ==> r == Some(d),
{
    match chrono::NaiveDate::parse_from_str(s, pattern) {
        Ok(d) => Some(Date { year: d.year(), month: d.month(), day: d.day() }),
        Err(_) => None,
    }
}

/// Relies on chrono's `Local::now` and `DateTime::date_naive`: the local calendar day now.
#[verifier::external_body]
pub(crate) fn local_today() -> (r: Date)
    ensures
        r.wf(),
{
    let d = chrono::Local::now().date_naive();
    Date { year: d.year(), month: d.month(), day: d.day() }
}

/// Relies on chrono's `Display` for `NaiveDate`: `YYYY-MM-DD` for the years 0 to 9999.
#[verifier::external_body]
pub(crate) fn date_to_string(d: &Date) -> (r: String)
    requires
        d.wf(),
    ensures
        r@ == date_text_of(*d),
        0 <= d.year <= 9999 ==> r@ == iso_text(*d),
{
    chrono::NaiveDate::from_ymd_opt(d.year, d.month, d.day).unwrap().to_string()
}

/// Relies on chrono's `NaiveDate::format`: the date written under a strftime pattern, or
/// `None` where the pattern holds an item that chrono cannot write.
#[verifier::external_body]
pub(crate) fn format_date(d: &Date, pattern: &str) -> (r: Option<String>)
    requires
        d.wf(),
    ensures
        r matches Some(s) ==> formatted_date_of(*d, pattern@) == Some(s@),
        r is None ==> formatted_date_of(*d, pattern@) is None,
{
    let nd = chrono::NaiveDate::from_ymd_opt(d.year, d.month, d.day).unwrap();
    let mut s = String::new();
    match write!(s, "{}", nd.format(pattern)) {
        Ok(_) => Some(s),
        Err(_) => None,
    }
}

} // verus!
