//! Calendar dates: how the feeds write them, how cache files are named after
//! them, and which of two dates is the older.

use chrono::Datelike;
use chrono::Local;
use chrono::NaiveDate;
use vstd::prelude::*;
use vstd::string::*;

use crate::text::zero_padded;
use crate::text::zero_padded_string;

verus! {

/// A day of the proleptic Gregorian calendar.
#[derive(Debug, Clone, Copy, PartialEq, Eq, Structural)]
pub struct CalendarDate {
    pub year: i32,
    pub month: u32,
    pub day: u32,
}

/// The format in which the Bing feed writes an item's date: `YYYYMMDD`.
pub const BING_DATE_FORMAT: &'static str = "%Y%m%d";

/// The format of the date inside a NASA item's publication time, as in
/// `05 Sep 2015`.
pub const NASA_DATE_FORMAT: &'static str = "%d %b %Y";

/// The format of the date a cache file is named after: `YYYY-MM-DD`.
pub const DATE_FILE_FMT: &'static str = "%F";

/// What `chrono` reads out of `text` under the format `format`: year, month
/// and day, or nothing where the text does not fit the format or names no
/// day of the calendar.
pub uninterp spec fn parsed_date(text: Seq<char>, format: Seq<char>) -> Option<(int, int, int)>;

/// What `parsed_date` gives, as a date.
pub open spec fn parsed_calendar_date(text: Seq<char>, format: Seq<char>) -> Option<CalendarDate> {
    match parsed_date(text, format) {
        Some((year, month, day)) => Some(
            CalendarDate { year: year as i32, month: month as u32, day: day as u32 },
        ),
        None => None,
    }
}

/// The year as `YYYY-MM-DD` writes it: four digits from 0 to 9999, a sign
/// and at least four digits otherwise.
pub open spec fn year_text(year: int) -> Seq<char> {
    if 0 <= year <= 9999 {
        zero_padded(year as nat, 4)
    } else if year < 0 {
        seq!['-'] + zero_padded((-year) as nat, 4)
    } else {
        seq!['+'] + zero_padded(year as nat, 4)
    }
}

/// A date written as `YYYY-MM-DD`.
pub open spec fn iso_text(date: CalendarDate) -> Seq<char> {
    year_text(date.year as int) + seq!['-'] + zero_padded(date.month as nat, 2) + seq!['-']
        + zero_padded(date.day as nat, 2)
}

/// Whether `first` is a day strictly before `second`.
pub open spec fn date_before(first: CalendarDate, second: CalendarDate) -> bool {
    first.year < second.year || (first.year == second.year && (first.month < second.month || (
    first.month == second.month && first.day < second.day)))
}

impl CalendarDate {
    /// Month and day lie in the ranges of a calendar, and the year in the
    /// range that `chrono` can hold.
    pub open spec fn wf(self) -> bool {
        &&& -262143 <= self.year <= 262142
        &&& 1 <= self.month <= 12
        &&& 1 <= self.day <= 31
    }

    /// Whether this day comes strictly before `other`.
    pub fn is_before(&self, other: &CalendarDate) -> (before: bool)
        ensures
            before == date_before(*self, *other),
    {
        self.year < other.year || (self.year == other.year && (self.month < other.month || (
        self.month == other.month && self.day < other.day)))
    }

    /// Whether this day and `other` are the same day.
    pub fn same_day(&self, other: &CalendarDate) -> (same: bool)
        ensures
            same == (*self == *other),
    {
        self.year == other.year && self.month == other.month && self.day == other.day
    }

    /// The date as `YYYY-MM-DD`, the form cache files are named in.
    pub fn iso_string(&self) -> (text: String)
        ensures
            text@ == iso_text(*self),
    {
        proof {
            reveal_strlit("-");
            reveal_strlit("+");
        }
        let mut text = if 0 <= self.year && self.year <= 9999 {
            zero_padded_string(self.year as u128, 4)
        } else if self.year < 0 {
            let digits = zero_padded_string((-(self.year as i64)) as u128, 4);
            let mut signed = String::from_str("-");
            signed.append(digits.as_str());
            signed
        } else {
            let digits = zero_padded_string(self.year as u128, 4);
            let mut signed = String::from_str("+");
            signed.append(digits.as_str());
            signed
        };
        assert(text@ =~= year_text(self.year as int));
        let month = zero_padded_string(self.month as u128, 2);
        let day = zero_padded_string(self.day as u128, 2);
        text.append("-");
        text.append(month.as_str());
        text.append("-");
        text.append(day.as_str());
        assert(text@ =~= iso_text(*self));
        text
    }
}

/// Calls `chrono::NaiveDate::parse_from_str` and takes the year, month and
/// day out of the date it returns. The result is `parsed_date` of the two
/// texts; a date that comes back has its month in 1 to 12, its day in 1 to 31
/// and its year in the range of `NaiveDate`, as `chrono` documents for
/// `month`, `day` and `NaiveDate::MIN` / `MAX`.
#[verifier::external_body]
fn parse_date_with(text: &str, format: &str) -> (date: Option<CalendarDate>)
    ensures
        match date {
            Some(d) => d.wf() && parsed_date(text@, format@) == Some(
                (d.year as int, d.month as int, d.day as int),
            ),
            None => parsed_date(text@, format@) is None,
        },
{
    match NaiveDate::parse_from_str(text, format) {
        Ok(d) => Some(CalendarDate { year: d.year(), month: d.month(), day: d.day() }),
        Err(_) => None,
    }
}

/// Calls `chrono::Local::now` and takes the year, month and day of the local
/// date. Nothing is known of the day but that its fields are in range.
#[verifier::external_body]
fn local_today() -> (date: CalendarDate)
    ensures
        date.wf(),
{
    let d = Local::now().date_naive();
    CalendarDate { year: d.year(), month: d.month(), day: d.day() }
}

/// Reads a date written in `format`, a `chrono` format string.
pub fn parse_date(text: &str, format: &str) -> (date: Option<CalendarDate>)
    ensures
        date == parsed_calendar_date(text@, format@),
        date is Some ==> date.unwrap().wf(),
{
    parse_date_with(text, format)
}

/// The local date at the moment of the call.
pub fn today() -> (date: CalendarDate)
    ensures
        date.wf(),
{
    local_today()
}

/// A date written as `YYYY-MM-DD` holds no dot.
pub proof fn lemma_iso_text_has_no_dot(date: CalendarDate)
    ensures
        !iso_text(date).contains('.'),
{
    let year = date.year as int;
    crate::text::lemma_zero_padded_has_no_dot(year as nat, 4);
    crate::text::lemma_zero_padded_has_no_dot((-year) as nat, 4);
    crate::text::lemma_zero_padded_has_no_dot(date.month as nat, 2);
    crate::text::lemma_zero_padded_has_no_dot(date.day as nat, 2);
    let written = year_text(year);
    assert forall|i: int| 0 <= i < written.len() implies written[i] != '.' by {
        if 0 <= year <= 9999 {
            assert(zero_padded(year as nat, 4).contains(written[i]));
        } else if year < 0 {
            if i > 0 {
                assert(written[i] == zero_padded((-year) as nat, 4)[i - 1]);
                assert(zero_padded((-year) as nat, 4).contains(written[i]));
            }
        } else {
            if i > 0 {
                assert(written[i] == zero_padded(year as nat, 4)[i - 1]);
                assert(zero_padded(year as nat, 4).contains(written[i]));
            }
        }
    }
    let month = zero_padded(date.month as nat, 2);
    let day = zero_padded(date.day as nat, 2);
    let text = iso_text(date);
    assert forall|i: int| 0 <= i < text.len() implies text[i] != '.' by {
        let a = written.len() as int;
        let b = a + 1 + month.len();
        if i < a {
            assert(text[i] == written[i]);
        } else if i == a {
            assert(text[i] == '-');
        } else if i < b {
            assert(text[i] == month[i - a - 1]);
            assert(month.contains(month[i - a - 1]));
        } else if i == b {
            assert(text[i] == '-');
        } else {
            assert(text[i] == day[i - b - 1]);
            assert(day.contains(day[i - b - 1]));
        }
    }
}

} // verus!
