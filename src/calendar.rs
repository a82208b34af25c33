//! Gregorian calendar arithmetic: leap years, month lengths and weekdays.

use chrono::Datelike;
use vstd::prelude::*;

verus! {

/// The last year that the date library can represent.
pub const MAX_YEAR: u64 = 262142;

/// Whether `year` is a leap year of the proleptic Gregorian calendar.
pub open spec fn is_leap_year(year: int) -> bool {
    (year % 4 == 0 && year % 100 != 0) || year % 400 == 0
}

/// The number of days of `month` (1 to 12) in `year`.
pub open spec fn days_in_month_spec(year: int, month: int) -> int {
    if month == 2 {
        if is_leap_year(year) { 29 } else { 28 }
    } else if month == 4 || month == 6 || month == 9 || month == 11 {
        30
    } else {
        31
    }
}

/// A month of a year that the calendar can show.
pub open spec fn valid_month(year: int, month: int) -> bool {
    1 <= year <= MAX_YEAR && 1 <= month <= 12
}

/// A day of a month that the calendar can show.
pub open spec fn valid_date(year: int, month: int, day: int) -> bool {
    valid_month(year, month) && 1 <= day <= days_in_month_spec(year, month)
}

/// Days from the first of January of year 1 to the first of January of `year`.
pub open spec fn days_before_year(year: int) -> int {
    let y = year - 1;
    365 * y + y / 4 - y / 100 + y / 400
}

/// Days from the first of January of `year` to the first of `month`.
pub open spec fn days_before_month(year: int, month: int) -> int {
    let common: int = if month == 1 { 0 }
        else if month == 2 { 31 }
        else if month == 3 { 59 }
        else if month == 4 { 90 }
        else if month == 5 { 120 }
        else if month == 6 { 151 }
        else if month == 7 { 181 }
        else if month == 8 { 212 }
        else if month == 9 { 243 }
        else if month == 10 { 273 }
        else if month == 11 { 304 }
        else { 334 };
    if month > 2 && is_leap_year(year) { common + 1 } else { common }
}

/// Days from the first of January of year 1 (a Monday) to the given date.
pub open spec fn day_number(year: int, month: int, day: int) -> int {
    days_before_year(year) + days_before_month(year, month) + day - 1
}

/// The weekday of a date, counted from Sunday = 0 to Saturday = 6.
pub open spec fn weekday_index(year: int, month: int, day: int) -> int {
    (day_number(year, month, day) + 1) % 7
}

/// The English name of `month` (1 to 12).
pub open spec fn month_name_spec(month: int) -> Seq<char> {
    if month == 1 { "January"@ }
    else if month == 2 { "February"@ }
    else if month == 3 { "March"@ }
    else if month == 4 { "April"@ }
    else if month == 5 { "May"@ }
    else if month == 6 { "June"@ }
    else if month == 7 { "July"@ }
    else if month == 8 { "August"@ }
    else if month == 9 { "September"@ }
    else if month == 10 { "October"@ }
    else if month == 11 { "November"@ }
    else { "December"@ }
}

/// Relies on datetimeutils::days_in_month, with datetimeutils::month_from_index
/// turning the month number into its `Month`: the Gregorian length of the month.
#[verifier::external_body]
fn library_days_in_month(year: u64, month: u64) -> (r: u64)
    requires
        1 <= month <= 12,
    ensures
        r == days_in_month_spec(year as int, month as int),
{
    datetimeutils::days_in_month(year, datetimeutils::month_from_index(month).unwrap())
}

/// Relies on datetimeutils::month_string, with datetimeutils::month_from_index
/// turning the month number into its `Month`: the English name of the month.
#[verifier::external_body]
fn library_month_string(month: u64) -> (r: &'static str)
    requires
        1 <= month <= 12,
    ensures
        r@ == month_name_spec(month as int),
{
    datetimeutils::month_string(datetimeutils::month_from_index(month).unwrap())
}

/// Relies on chrono::NaiveDate::from_ymd_opt and chrono's Datelike::weekday,
/// read by Weekday::num_days_from_sunday: `None` for a date that does not
/// exist, else the proleptic Gregorian weekday with Sunday = 0.
#[verifier::external_body]
fn library_weekday(year: i32, month: u32, day: u32) -> (r: Option<u32>)
    ensures
        valid_date(year as int, month as int, day as int) ==> r == Some(
            weekday_index(year as int, month as int, day as int) as u32,
        ),
{
    match chrono::NaiveDate::from_ymd_opt(year, month, day) {
        Some(date) => Some(date.weekday().num_days_from_sunday()),
        None => None,
    }
}

/// A day of the week.
#[derive(Clone, Copy, Debug, PartialEq, Eq, Structural)]
pub enum Weekday {
    Sun,
    Mon,
    Tue,
    Wed,
    Thu,
    Fri,
    Sat,
}

impl Weekday {
    /// The position of the day in a week that starts on Sunday.
    pub open spec fn index(self) -> int {
        match self {
            Weekday::Sun => 0,
            Weekday::Mon => 1,
            Weekday::Tue => 2,
            Weekday::Wed => 3,
            Weekday::Thu => 4,
            Weekday::Fri => 5,
            Weekday::Sat => 6,
        }
    }

    /// The English name of the day at position `i` of a week that starts on Sunday.
    pub open spec fn name_of(i: int) -> Seq<char> {
        if i == 0 { "Sunday"@ }
        else if i == 1 { "Monday"@ }
        else if i == 2 { "Tuesday"@ }
        else if i == 3 { "Wednesday"@ }
        else if i == 4 { "Thursday"@ }
        else if i == 5 { "Friday"@ }
        else { "Saturday"@ }
    }

    /// The day at position `i` (0 to 6) of a week that starts on Sunday.
    pub fn from_index(i: u32) -> (r: Weekday)
        requires
            i < 7,
        ensures
            r.index() == i,
    {
        match i {
            0 => Weekday::Sun,
            1 => Weekday::Mon,
            2 => Weekday::Tue,
            3 => Weekday::Wed,
            4 => Weekday::Thu,
            5 => Weekday::Fri,
            _ => Weekday::Sat,
        }
    }

    /// The position of the day in a week that starts on Sunday.
    pub fn num_days_from_sunday(&self) -> (r: u32)
        ensures
            r == self.index(),
    {
        match self {
            Weekday::Sun => 0,
            Weekday::Mon => 1,
            Weekday::Tue => 2,
            Weekday::Wed => 3,
            Weekday::Thu => 4,
            Weekday::Fri => 5,
            Weekday::Sat => 6,
        }
    }

    /// The English name of the day.
    pub fn name(&self) -> (r: &'static str)
        ensures
            r@ == Weekday::name_of(self.index()),
    {
        match self {
            Weekday::Sun => "Sunday",
            Weekday::Mon => "Monday",
            Weekday::Tue => "Tuesday",
            Weekday::Wed => "Wednesday",
            Weekday::Thu => "Thursday",
            Weekday::Fri => "Friday",
            Weekday::Sat => "Saturday",
        }
    }
}

/// The weekday of a date.
pub fn get_week_day(year: u64, month: u32, day: u32) -> (r: Weekday)
    requires
        valid_date(year as int, month as int, day as int),
    ensures
        r.index() == weekday_index(year as int, month as int, day as int),
{
    match library_weekday(year as i32, month, day) {
        Some(i) => Weekday::from_index(i),
        None => Weekday::Sun,
    }
}

/// The number of days of `month` (1 to 12) in `year`.
pub fn generate_month(year: u64, month: u32) -> (r: u64)
    requires
        1 <= month <= 12,
    ensures
        r == days_in_month_spec(year as int, month as int),
{
    library_days_in_month(year, month as u64)
}

/// The English name of `month` (1 to 12).
pub fn month_name(month: u32) -> (r: &'static str)
    requires
        1 <= month <= 12,
    ensures
        r@ == month_name_spec(month as int),
{
    library_month_string(month as u64)
}

/// The names of the header row of the grid, from Sunday to Saturday.
pub fn get_week_days() -> (r: Vec<&'static str>)
    ensures
        r@.len() == 7,
        forall|i: int| 0 <= i < 7 ==> r@[i]@ == Weekday::name_of(i),
{
    let mut names: Vec<&'static str> = Vec::new();
    let mut i: u32 = 0;
    while i < 7
        invariant
            i <= 7,
            names@.len() == i,
            forall|j: int| 0 <= j < i ==> names@[j]@ == Weekday::name_of(j),
        decreases 7 - i,
    {
        names.push(Weekday::from_index(i).name());
        i = i + 1;
    }
    names
}

} // verus!
