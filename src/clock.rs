use vstd::prelude::*;
use crate::moment::Moment;
use crate::text::{decimal, two_digits};

verus! {

/// A time of day, given in seconds since midnight, on a 12-hour clock:
/// the hour from 1 to 12 without padding, a colon, the minute in two digits,
/// and " AM" or " PM", as in "1:05 PM".
pub open spec fn twelve_hour_text(second_of_day: int) -> Seq<char> {
    let hour = second_of_day / 3600;
    let minute = (second_of_day % 3600) / 60;
    let hour12 = if hour % 12 == 0 { 12 } else { hour % 12 };
    decimal(hour12 as nat) + ":"@ + two_digits(minute) + if hour >= 12 {
        " PM"@
    } else {
        " AM"@
    }
}

/// Relies on chrono's `NaiveTime::from_num_seconds_from_midnight_opt`, which
/// gives the time for any second below 86400, and on chrono's `%-I:%M %p`
/// format of it: the 12-hour clock hour unpadded, the minute in two digits,
/// and "AM" or "PM".
#[verifier::external_body]
pub(crate) fn clock_text(second_of_day: u32) -> (r: String)
    requires
        second_of_day < 86400,
    ensures
        r@ == twelve_hour_text(second_of_day as int),
{
    match chrono::NaiveTime::from_num_seconds_from_midnight_opt(second_of_day, 0) {
        Some(t) => t.format("%-I:%M %p").to_string(),
        None => String::new(),
    }
}

/// Relies on chrono's `Local::now`, read on the local wall clock as seconds
/// from 1970-01-01 00:00. Nothing is promised of the value.
#[verifier::external_body]
pub(crate) fn local_now() -> (r: Moment) {
    Moment { seconds: chrono::Local::now().naive_local().and_utc().timestamp() }
}

} // verus!
