use vstd::prelude::*;

verus! {

/// Seconds in one calendar day.
pub const SECONDS_PER_DAY: i64 = 86400;

/// Largest distance, in seconds, of a representable moment from the epoch:
/// 92,000,000 whole days, about 251,000 years.
pub const MOMENT_LIMIT: i64 = 7_948_800_000_000;

/// A moment on the local wall clock, counted in seconds from 1970-01-01 00:00
/// of the local calendar. No time zone is applied: all arithmetic stays in the
/// wall-clock frame.
#[derive(Clone, Copy, Debug, PartialEq, Eq, Structural)]
pub struct Moment {
    pub seconds: i64,
}

impl Moment {
    /// The moment lies in the representable calendar range.
    pub open spec fn wf(self) -> bool {
        -MOMENT_LIMIT <= self.seconds <= MOMENT_LIMIT
    }

    /// Seconds elapsed since local midnight of the moment's day.
    pub open spec fn second_of_day(self) -> int {
        self.seconds as int % (SECONDS_PER_DAY as int)
    }

    /// Local midnight that starts the moment's day, in seconds.
    pub open spec fn midnight(self) -> int {
        self.seconds as int - self.second_of_day()
    }

    pub fn new(seconds: i64) -> (r: Moment)
        ensures
            r.seconds == seconds,
    {
        Moment { seconds }
    }

    /// Seconds since local midnight; always in `0..86400`.
    pub fn time_of_day(&self) -> (r: u32)
        ensures
            r as int == self.second_of_day(),
            r < 86400,
    {
        let s = self.seconds % SECONDS_PER_DAY;
        let r = if s < 0 { s + SECONDS_PER_DAY } else { s };
        (r as u32)
    }
}

} // verus!
