//! What the calendar and the clock in Kyiv show.
//!
//! The timetable is read in Kyiv civil time whatever zone a caller lives in.
//! Converting an instant to that zone and reading a written date are left to
//! `chrono` and `chrono-tz`; this module holds the plain values that the rest
//! of the library reads from their answers. An instant is given in whole
//! seconds: a fraction of a second never moves a time of day across the end
//! of a period, which falls on a whole second.

use chrono::{Datelike, Timelike};
use vstd::prelude::*;

verus! {

/// A day of the week.
#[derive(Clone, Copy, Debug, PartialEq, Eq, Structural)]
pub enum Weekday {
    Mon,
    Tue,
    Wed,
    Thu,
    Fri,
    Sat,
    Sun,
}

impl Weekday {
    /// The weekday with the given ISO 8601 number, Monday being 1 and Sunday
    /// 7. Every number that is none of 1 to 6 is read as Sunday.
    pub open spec fn of_number(number: int) -> Weekday {
        if number == 1 {
            Weekday::Mon
        } else if number == 2 {
            Weekday::Tue
        } else if number == 3 {
            Weekday::Wed
        } else if number == 4 {
            Weekday::Thu
        } else if number == 5 {
            Weekday::Fri
        } else if number == 6 {
            Weekday::Sat
        } else {
            Weekday::Sun
        }
    }

    /// The three-letter English name of the weekday.
    pub open spec fn label(self) -> Seq<char> {
        match self {
            Weekday::Mon => "Mon"@,
            Weekday::Tue => "Tue"@,
            Weekday::Wed => "Wed"@,
            Weekday::Thu => "Thu"@,
            Weekday::Fri => "Fri"@,
            Weekday::Sat => "Sat"@,
            Weekday::Sun => "Sun"@,
        }
    }

    /// Returns the weekday with the given ISO 8601 number.
    pub fn from_number(number: u32) -> (r: Weekday)
        ensures
            r == Weekday::of_number(number as int),
    {
        match number {
            1 => Weekday::Mon,
            2 => Weekday::Tue,
            3 => Weekday::Wed,
            4 => Weekday::Thu,
            5 => Weekday::Fri,
            6 => Weekday::Sat,
            _ => Weekday::Sun,
        }
    }

    /// Returns the three-letter English name of the weekday.
    pub fn name(self) -> (r: &'static str)
        ensures
            r@ == self.label(),
    {
        match self {
            Weekday::Mon => "Mon",
            Weekday::Tue => "Tue",
            Weekday::Wed => "Wed",
            Weekday::Thu => "Thu",
            Weekday::Fri => "Fri",
            Weekday::Sat => "Sat",
            Weekday::Sun => "Sun",
        }
    }
}

/// A reading of the calendar and the clock in Kyiv: the weekday, the day of
/// the month and the number of seconds since midnight.
#[derive(Clone, Copy, Debug, PartialEq, Eq, Structural)]
pub struct LocalTime {
    pub weekday: Weekday,
    pub day: u32,
    pub second: u32,
}

/// The written form of a date that callers may give: day, month and year,
/// separated by dots.
pub const DATE_FORMAT: &'static str = "%d.%m.%Y";

/// The second of the day at which a written date is taken: noon.
pub const NOON: u32 = 43_200;

/// The name of the time zone that the timetable is read in. It is the name
/// that the time zone data has for Kyiv.
pub const ZONE: &'static str = "Europe/Kiev";

/// The ISO 8601 weekday number, the day of the month and the second of the
/// day that the time zone named `zone` has at `timestamp` seconds after the
/// start of 1970 in UTC, as `chrono` with the time zone data of `chrono-tz`
/// gives them; `None` where that data knows no zone of this name, and for an
/// instant beyond the dates that `chrono` can hold.
pub uninterp spec fn zone_fields(zone: Seq<char>, timestamp: int) -> Option<(u32, u32, u32)>;

/// The ISO 8601 weekday number and the day of the month of the date that
/// `chrono` reads from `text` under `format`; `None` where it reads none.
pub uninterp spec fn date_fields(text: Seq<char>, format: Seq<char>) -> Option<(u32, u32)>;

/// `chrono::DateTime::from_timestamp`, followed by `with_timezone` to the
/// zone that `chrono_tz::Tz` reads from `zone`: gives the fields of the
/// local time that the library reads. Their ranges are those that `chrono`
/// documents for `number_from_monday`, `day` and `num_seconds_from_midnight`.
#[verifier::external_body]
fn zone_fields_at(zone: &str, timestamp: i64) -> (r: Option<(u32, u32, u32)>)
    ensures
        r == zone_fields(zone@, timestamp as int),
        r matches Some((weekday, day, second)) ==> 1 <= weekday <= 7 && 1 <= day <= 31 && second
            < 86_400,
{
    let zone: chrono_tz::Tz = zone.parse().ok()?;
    let local = chrono::DateTime::from_timestamp(timestamp, 0)?.with_timezone(&zone);
    Some(
        (
            local.weekday().number_from_monday(),
            local.day(),
            local.time().num_seconds_from_midnight(),
        ),
    )
}

/// `chrono::NaiveDate::parse_from_str`: gives the weekday number and the day
/// of the month of the date it reads, or `None` where it reports an error.
/// The ranges are those that `chrono` documents for `number_from_monday` and
/// `day`.
#[verifier::external_body]
fn date_fields_of(text: &str, format: &str) -> (r: Option<(u32, u32)>)
    ensures
        r == date_fields(text@, format@),
        r matches Some((weekday, day)) ==> 1 <= weekday <= 7 && 1 <= day <= 31,
{
    match chrono::NaiveDate::parse_from_str(text, format) {
        Ok(date) => Some((date.weekday().number_from_monday(), date.day())),
        Err(_) => None,
    }
}

impl LocalTime {
    /// Whether the day of the month and the second of the day are ones that
    /// a calendar and a clock can show.
    pub open spec fn valid(self) -> bool {
        1 <= self.day <= 31 && self.second < 86_400
    }

    /// The local time with the given fields, the weekday given by its ISO
    /// 8601 number.
    pub open spec fn of_fields(weekday: u32, day: u32, second: u32) -> LocalTime {
        LocalTime { weekday: Weekday::of_number(weekday as int), day, second }
    }

    /// The local time in Kyiv at `timestamp` seconds after the start of 1970
    /// in UTC.
    pub open spec fn at_spec(timestamp: int) -> Option<LocalTime> {
        match zone_fields(ZONE@, timestamp) {
            Some((weekday, day, second)) => Some(LocalTime::of_fields(weekday, day, second)),
            None => None,
        }
    }

    /// Noon of the date written in `text` as day, month and year.
    pub open spec fn on_spec(text: Seq<char>) -> Option<LocalTime> {
        match date_fields(text, DATE_FORMAT@) {
            Some((weekday, day)) => Some(LocalTime::of_fields(weekday, day, NOON)),
            None => None,
        }
    }

    /// Makes the local time with the given fields, the weekday given by its
    /// ISO 8601 number.
    pub fn from_fields(weekday: u32, day: u32, second: u32) -> (r: LocalTime)
        ensures
            r == LocalTime::of_fields(weekday, day, second),
    {
        LocalTime { weekday: Weekday::from_number(weekday), day, second }
    }

    /// Returns the local time in Kyiv at `timestamp` seconds after the start
    /// of 1970 in UTC, or `None` for an instant too far from it to have a
    /// date.
    pub fn at(timestamp: i64) -> (r: Option<LocalTime>)
        ensures
            r == LocalTime::at_spec(timestamp as int),
            r matches Some(time) ==> time.valid(),
    {
        match zone_fields_at(ZONE, timestamp) {
            Some((weekday, day, second)) => Some(LocalTime::from_fields(weekday, day, second)),
            None => None,
        }
    }

    /// Returns noon of the date written in `text` as day, month and year
    /// with dots between them, or `None` where `text` is no such date.
    pub fn on(text: &str) -> (r: Option<LocalTime>)
        ensures
            r == LocalTime::on_spec(text@),
            r matches Some(time) ==> time.valid(),
    {
        match date_fields_of(text, DATE_FORMAT) {
            Some((weekday, day)) => Some(LocalTime::from_fields(weekday, day, NOON)),
            None => None,
        }
    }
}

} // verus!
