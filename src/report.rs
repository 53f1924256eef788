use vstd::arithmetic::div_mod::{lemma_fundamental_div_mod, lemma_mod_multiples_vanish};
use vstd::prelude::*;
use crate::clock::{clock_text, local_now, twelve_hour_text};
use crate::moment::Moment;
use crate::text::{signed_decimal, signed_text};

verus! {

/// `n` followed by `unit`, with a plural `s` unless `n` is exactly one.
pub open spec fn count_of(n: int, unit: Seq<char>) -> Seq<char> {
    if n == 1 {
        "1 "@ + unit
    } else {
        signed_decimal(n) + " "@ + unit + "s"@
    }
}

/// Text of a duration given as whole hours and remaining minutes: the hour
/// clause is left out when there are no hours, the minute clause when there
/// are no minutes, and "0 minutes" stands when both are zero.
pub open spec fn duration_text(hours: int, minutes: int) -> Seq<char> {
    if hours == 0 {
        count_of(minutes, "minute"@)
    } else if minutes == 0 {
        count_of(hours, "hour"@)
    } else {
        count_of(hours, "hour"@) + " and "@ + count_of(minutes, "minute"@)
    }
}

/// Whole hours in `total` minutes, rounded toward zero.
pub open spec fn hours_in(total: int) -> int {
    if total >= 0 { total / 60 } else { -((-total) / 60) }
}

/// Minutes left over after the whole hours of `total`; same sign as `total`.
pub open spec fn minutes_in(total: int) -> int {
    if total >= 0 { total % 60 } else { -((-total) % 60) }
}

/// Text of a duration of `total` minutes.
pub open spec fn elapsed_text(total: int) -> Seq<char> {
    duration_text(hours_in(total), minutes_in(total))
}

fn count_text(n: i64, unit: &str) -> (r: String)
    ensures
        r@ == count_of(n as int, unit@),
{
    if n == 1 {
        let mut s = String::from_str("1 ");
        s.append(unit);
        s
    } else {
        let mut s = signed_text(n);
        s.append(" ");
        s.append(unit);
        s.append("s");
        s
    }
}

/// Renders whole hours and minutes as text, e.g. "1 hour and 30 minutes".
pub fn show_time(hours: i64, minutes: i64) -> (r: String)
    ensures
        r@ == duration_text(hours as int, minutes as int),
{
    if hours == 0 {
        return count_text(minutes, "minute");
    }
    if minutes == 0 {
        return count_text(hours, "hour");
    }
    let mut s = count_text(hours, "hour");
    s.append(" and ");
    let m = count_text(minutes, "minute");
    s.append(m.as_str());
    s
}

/// Splits a count of minutes into whole hours and remaining minutes, both
/// rounded toward zero.
pub fn to_hrs_minutes(total_minutes: i64) -> (r: (i64, i64))
    ensures
        r.0 == hours_in(total_minutes as int),
        r.1 == minutes_in(total_minutes as int),
        r.0 * 60 + r.1 == total_minutes,
{
    let minutes = total_minutes % 60;
    let hours = total_minutes / 60;
    (hours, minutes)
}

/// Renders a count of minutes as hours and minutes, e.g. 90 as
/// "1 hour and 30 minutes".
pub fn render_elapsed(total_minutes: i64) -> (r: String)
    ensures
        r@ == elapsed_text(total_minutes as int),
{
    let (hours, minutes) = to_hrs_minutes(total_minutes);
    show_time(hours, minutes)
}

} // verus!

verus! {

/// The closing text of a day: done exactly, overworked by the surplus, or the
/// time still to work with the clock time at which it ends when started at
/// `ended_at`. The start is named when `ended_at` is later than `now`.
pub open spec fn characterize_spec(total: int, target: int, ended_at: Moment, now: Moment) -> Seq<
    char,
> {
    if total == target {
        "Exactly done"@
    } else if total > target {
        "You have overworked "@ + elapsed_text(total - target)
    } else {
        let diff = target - total;
        let end = twelve_hour_text((ended_at.seconds + diff * 60) % 86400);
        if ended_at.seconds > now.seconds {
            "You have "@ + elapsed_text(diff) + " remaining (end at "@ + end + " starting from "@
                + twelve_hour_text(ended_at.second_of_day()) + ")"@
        } else {
            "You have "@ + elapsed_text(diff) + " remaining (end at "@ + end + " starting now)"@
        }
    }
}

/// Renders a non-negative count of minutes of any `u64` size.
fn render_magnitude(diff: u64) -> (r: String)
    ensures
        r@ == elapsed_text(diff as int),
{
    let hours = (diff / 60) as i64;
    let minutes = (diff % 60) as i64;
    show_time(hours, minutes)
}

/// The clock time `diff` minutes after `start`.
fn end_clock(start: Moment, diff: u64) -> (r: String)
    ensures
        r@ == twelve_hour_text((start.seconds + diff * 60) % 86400),
{
    let tod = start.time_of_day();
    let rest = diff % 1440;
    let end_second = (tod as u64 + rest * 60) % 86400;
    proof {
        let s = start.seconds as int;
        let d = diff as int;
        lemma_fundamental_div_mod(s, 86400);
        lemma_fundamental_div_mod(d, 1440);
        let q1 = s / 86400;
        let q2 = d / 1440;
        assert(s + d * 60 == 86400 * (q1 + q2) + (tod + rest * 60)) by (nonlinear_arith)
            requires
                s == 86400 * q1 + tod,
                d == 1440 * q2 + rest,
        ;
        lemma_mod_multiples_vanish(q1 + q2, tod + rest * 60, 86400);
    }
    clock_text(end_second as u32)
}

/// The text for `diff` minutes still to work from `ended_at`.
fn remaining_text(diff: u64, ended_at: Moment, now: Moment) -> (r: String)
    requires
        diff > 0,
    ensures
        r@ == characterize_spec(0, diff as int, ended_at, now),
{
    let elapsed = render_magnitude(diff);
    let end = end_clock(ended_at, diff);
    let mut s = String::from_str("You have ");
    s.append(elapsed.as_str());
    s.append(" remaining (end at ");
    s.append(end.as_str());
    if ended_at.seconds > now.seconds {
        s.append(" starting from ");
        let start = clock_text(ended_at.time_of_day());
        s.append(start.as_str());
        s.append(")");
    } else {
        s.append(" starting now)");
    }
    s
}

/// Compares `total_minutes` worked with `target_minutes`, predicting the end
/// of the day from `ended_at`; `now` is the current time.
pub fn characterize(total_minutes: i64, target_minutes: i64, ended_at: Moment, now: Moment) -> (r:
    String)
    ensures
        r@ == characterize_spec(total_minutes as int, target_minutes as int, ended_at, now),
{
    if total_minutes == target_minutes {
        return String::from_str("Exactly done");
    }
    let diff: i128 = target_minutes as i128 - total_minutes as i128;
    if diff < 0 {
        let mut s = String::from_str("You have overworked ");
        let elapsed = render_magnitude((0 - diff) as u64);
        s.append(elapsed.as_str());
        return s;
    }
    remaining_text(diff as u64, ended_at, now)
}

/// Compares `total_minutes` worked with `target_minutes`, predicting the end
/// of the day from `ended_at` and reading the current time from the local
/// clock.
pub fn get_charaterized_time_remaining(total_minutes: i64, target_minutes: i64, ended_at: Moment) -> (r:
    String)
    ensures
        exists|now: Moment|
            r@ == characterize_spec(total_minutes as int, target_minutes as int, ended_at, now),
{
    let now = local_now();
    characterize(total_minutes, target_minutes, ended_at, now)
}

/// The closing text depends on its inputs alone: two texts that
/// `characterize` made from the same totals, start and current time are equal.
pub proof fn lemma_characterize_repeatable(
    total_minutes: int,
    target_minutes: int,
    ended_at: Moment,
    now: Moment,
    first: Seq<char>,
    second: Seq<char>,
)
    requires
        first == characterize_spec(total_minutes, target_minutes, ended_at, now),
        second == characterize_spec(total_minutes, target_minutes, ended_at, now),
    ensures
        first == second,
{
}

} // verus!
