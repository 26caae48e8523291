//! The calendar values of user records, made with `chrono`.
use vstd::prelude::*;

use chrono::{NaiveDate, NaiveDateTime, NaiveTime};

verus! {

#[verifier::external_type_specification]
#[verifier::external_body]
pub struct ExNaiveDate(NaiveDate);

#[verifier::external_type_specification]
#[verifier::external_body]
pub struct ExNaiveTime(NaiveTime);

#[verifier::external_type_specification]
#[verifier::external_body]
pub struct ExNaiveDateTime(NaiveDateTime);

/// The date that `NaiveDate::from_ymd` makes of a year, month and day.
pub uninterp spec fn calendar_date(year: i32, month: u32, day: u32) -> NaiveDate;

/// The time of day that `NaiveTime::from_hms_milli` makes of an hour, minute,
/// second and millisecond.
pub uninterp spec fn clock_time(hour: u32, min: u32, sec: u32, milli: u32) -> NaiveTime;

/// The date and time that `NaiveDateTime::new` makes of a date and a time.
pub uninterp spec fn date_and_time(date: NaiveDate, time: NaiveTime) -> NaiveDateTime;

/// A leap year of the proleptic Gregorian calendar.
pub open spec fn is_leap_year(year: int) -> bool {
    year % 4 == 0 && (year % 100 != 0 || year % 400 == 0)
}

pub open spec fn days_in_month(year: int, month: int) -> int {
    if month == 2 {
        if is_leap_year(year) {
            29
        } else {
            28
        }
    } else if month == 4 || month == 6 || month == 9 || month == 11 {
        30
    } else {
        31
    }
}

/// A day that exists, in the range of years that `chrono` represents.
pub open spec fn valid_date(year: i32, month: u32, day: u32) -> bool {
    &&& -262143 <= year <= 262142
    &&& 1 <= month <= 12
    &&& 1 <= day <= days_in_month(year as int, month as int)
}

/// A time of day that exists; a leap second is only the second after :59.
pub open spec fn valid_time(hour: u32, min: u32, sec: u32, milli: u32) -> bool {
    &&& hour < 24
    &&& min < 60
    &&& sec < 60
    &&& (milli < 1000 || (sec == 59 && milli < 2000))
}

/// `chrono::NaiveDate::from_ymd`: the date of that year, month and day, a
/// function of the three alone. It panics on a day that does not exist,
/// which `valid_date` leaves out.
#[verifier::external_body]
#[allow(deprecated)]
pub(crate) fn date_from_ymd(year: i32, month: u32, day: u32) -> (date: NaiveDate)
    requires
        valid_date(year, month, day),
    ensures
        date == calendar_date(year, month, day),
{
    NaiveDate::from_ymd(year, month, day)
}

/// `chrono::NaiveTime::from_hms_milli`: the time of day of those parts, a
/// function of the four alone. It panics on an invalid time, which
/// `valid_time` leaves out.
#[verifier::external_body]
#[allow(deprecated)]
pub(crate) fn time_from_hms_milli(hour: u32, min: u32, sec: u32, milli: u32) -> (time: NaiveTime)
    requires
        valid_time(hour, min, sec, milli),
    ensures
        time == clock_time(hour, min, sec, milli),
{
    NaiveTime::from_hms_milli(hour, min, sec, milli)
}

/// `chrono::NaiveDateTime::new`: that date at that time of day.
#[verifier::external_body]
pub(crate) fn datetime_new(date: NaiveDate, time: NaiveTime) -> (dt: NaiveDateTime)
    ensures
        dt == date_and_time(date, time),
{
    NaiveDateTime::new(date, time)
}

} // verus!
