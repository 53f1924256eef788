use vstd::prelude::*;

verus! {

/// The working day that is asked for.
#[derive(Debug, Clone, Copy, PartialEq, Eq, Structural)]
pub struct Args {
    /// How many hours you intend to work (sums with `minutes`).
    /// Defaults to 8 hours, or to 0 when `discount` is set.
    pub hours: Option<i64>,
    /// How many minutes you intend to work (sums with `hours`).
    pub minutes: i64,
    /// When set, `hours` and `minutes` are taken off a day of 8 hours.
    pub discount: bool,
}

/// Minutes in the standard working day of 8 hours.
pub const STANDARD_DAY_MINUTES: i64 = 480;

impl Args {
    /// The hours asked for, after defaults.
    pub open spec fn hours_or_default(self) -> int {
        match self.hours {
            Some(h) => h as int,
            None => if self.discount { 0 } else { 8 },
        }
    }

    /// The target duration in minutes.
    pub open spec fn target_spec(self) -> int {
        let asked = self.hours_or_default() * 60 + self.minutes;
        if self.discount { STANDARD_DAY_MINUTES - asked } else { asked }
    }

    /// The target duration in minutes; `None` when it does not fit an `i64`.
    pub fn target_minutes(&self) -> (r: Option<i64>)
        ensures
            r == (if i64::MIN <= self.target_spec() <= i64::MAX {
                Some(self.target_spec() as i64)
            } else {
                None::<i64>
            }),
    {
        let hours: i64 = match self.hours {
            Some(h) => h,
            None => if self.discount { 0 } else { 8 },
        };
        let asked: i128 = hours as i128 * 60 + self.minutes as i128;
        let target: i128 = if self.discount { STANDARD_DAY_MINUTES as i128 - asked } else { asked };
        if target < i64::MIN as i128 || target > i64::MAX as i128 {
            None
        } else {
            Some(target as i64)
        }
    }
}

} // verus!
