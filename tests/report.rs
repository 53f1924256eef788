use worktime::moment::Moment;
use worktime::report::{characterize, get_charaterized_time_remaining, render_elapsed, show_time, to_hrs_minutes};
use worktime::text::{decimal_text, signed_text};

const DAY: i64 = 19_737 * 86_400;

fn at(hour: i64, minute: i64) -> Moment {
    Moment::new(DAY + hour * 3600 + minute * 60)
}

#[test]
fn render_zero() {
    assert_eq!(render_elapsed(0), "0 minutes");
}

#[test]
fn render_one_hour() {
    assert_eq!(render_elapsed(60), "1 hour");
}

#[test]
fn render_hour_and_minutes() {
    assert_eq!(render_elapsed(90), "1 hour and 30 minutes");
}

#[test]
fn render_plurals() {
    assert_eq!(render_elapsed(1), "1 minute");
    assert_eq!(render_elapsed(61), "1 hour and 1 minute");
    assert_eq!(render_elapsed(120), "2 hours");
    assert_eq!(render_elapsed(605), "10 hours and 5 minutes");
}

#[test]
fn render_negative() {
    assert_eq!(to_hrs_minutes(-90), (-1, -30));
    assert_eq!(render_elapsed(-90), "-1 hours and -30 minutes");
    assert_eq!(show_time(0, -1), "-1 minutes");
}

#[test]
fn split_minutes() {
    assert_eq!(to_hrs_minutes(0), (0, 0));
    assert_eq!(to_hrs_minutes(125), (2, 5));
    assert_eq!(to_hrs_minutes(59), (0, 59));
}

#[test]
fn digits() {
    assert_eq!(decimal_text(0), "0");
    assert_eq!(decimal_text(1234567890), "1234567890");
    assert_eq!(decimal_text(u64::MAX), u64::MAX.to_string());
    assert_eq!(signed_text(i64::MIN), i64::MIN.to_string());
    assert_eq!(signed_text(-7), "-7");
}

#[test]
fn exactly_done() {
    assert_eq!(characterize(480, 480, at(16, 0), at(16, 0)), "Exactly done");
}

#[test]
fn overworked() {
    assert_eq!(characterize(500, 480, at(16, 0), at(16, 0)), "You have overworked 20 minutes");
    assert_eq!(characterize(600, 480, at(16, 0), at(16, 0)), "You have overworked 2 hours");
}

#[test]
fn remaining_starting_now() {
    assert_eq!(
        characterize(400, 480, at(16, 0), at(16, 0)),
        "You have 1 hour and 20 minutes remaining (end at 5:20 PM starting now)"
    );
    assert_eq!(
        characterize(400, 480, at(9, 0), at(16, 0)),
        "You have 1 hour and 20 minutes remaining (end at 10:20 AM starting now)"
    );
}

#[test]
fn remaining_starting_later() {
    assert_eq!(
        characterize(470, 480, at(23, 55), at(12, 0)),
        "You have 10 minutes remaining (end at 12:05 AM starting from 11:55 PM)"
    );
    assert_eq!(
        characterize(0, 5, at(11, 58), at(11, 0)),
        "You have 5 minutes remaining (end at 12:03 PM starting from 11:58 AM)"
    );
}

#[test]
fn remaining_across_days() {
    assert_eq!(
        characterize(0, 3 * 1440 + 30, at(0, 5), at(1, 0)),
        "You have 72 hours and 30 minutes remaining (end at 12:35 AM starting now)"
    );
}

#[test]
fn extreme_totals() {
    assert_eq!(
        characterize(i64::MAX, i64::MIN, at(0, 0), at(0, 0)),
        format!("You have overworked {} hours and 15 minutes", u64::MAX / 60)
    );
}

#[test]
fn repeated_characterize_agrees() {
    let a = characterize(400, 480, at(16, 0), at(15, 0));
    let b = characterize(400, 480, at(16, 0), at(15, 0));
    assert_eq!(a, b);
}

#[test]
fn characterize_with_local_clock() {
    assert_eq!(get_charaterized_time_remaining(480, 480, at(16, 0)), "Exactly done");
    assert_eq!(get_charaterized_time_remaining(500, 480, at(16, 0)), "You have overworked 20 minutes");
    let r = get_charaterized_time_remaining(400, 480, Moment::new(0));
    assert_eq!(r, "You have 1 hour and 20 minutes remaining (end at 1:20 AM starting now)");
}
