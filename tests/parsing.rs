use worktime::moment::Moment;
use worktime::parse::{parse_datetime, ParseError};
use worktime::span::{from_stream, resolve, EntryError};

const DAY: i64 = 19_737 * 86_400;

fn at(hour: i64, minute: i64) -> Moment {
    Moment::new(DAY + hour * 3600 + minute * 60)
}

fn reference() -> Moment {
    Moment::new(DAY + 10 * 3600 + 17 * 60 + 5)
}

#[test]
fn parses_short_and_long_hours() {
    assert_eq!(parse_datetime(&reference(), "8:00"), Ok(at(8, 0)));
    assert_eq!(parse_datetime(&reference(), "13:45"), Ok(at(13, 45)));
    assert_eq!(parse_datetime(&reference(), "08:05"), Ok(at(8, 5)));
    assert_eq!(parse_datetime(&reference(), "0:00"), Ok(at(0, 0)));
}

#[test]
fn parses_around_white_space() {
    assert_eq!(parse_datetime(&reference(), "  9:15 \t"), Ok(at(9, 15)));
    assert_eq!(parse_datetime(&reference(), "\u{3000}9:15\n"), Ok(at(9, 15)));
}

#[test]
fn hours_past_midnight_roll_to_next_day() {
    assert_eq!(parse_datetime(&reference(), "25:30"), Ok(at(25, 30)));
    assert_eq!(parse_datetime(&reference(), "24:00"), Ok(at(24, 0)));
    assert_eq!(parse_datetime(&reference(), "29:59"), Ok(at(29, 59)));
}

#[test]
fn every_valid_entry_round_trips() {
    for hour in 0..30i64 {
        for minute in 0..60i64 {
            let short = format!("{}:{:02}", hour, minute);
            let long = format!("{:02}:{:02}", hour, minute);
            for text in [short, long] {
                let m = parse_datetime(&reference(), &text).unwrap();
                let of_day = m.time_of_day() as i64;
                assert_eq!(of_day / 3600, hour % 24);
                assert_eq!(of_day % 3600 / 60, minute);
                assert_eq!(m.seconds - of_day, DAY + (hour / 24) * 86_400);
            }
        }
    }
}

#[test]
fn malformed_entries_are_refused() {
    for text in ["", "800", "8.00", "ab:cd", "8:5", "8:000", "123:00", ":00", "8:00 pm", "8 :00"] {
        assert_eq!(parse_datetime(&reference(), text), Err(ParseError::MalformedInput), "{}", text);
    }
}

#[test]
fn out_of_range_entries_are_refused() {
    assert_eq!(parse_datetime(&reference(), "8:60"), Err(ParseError::InvalidRange));
    assert_eq!(parse_datetime(&reference(), "12:99"), Err(ParseError::InvalidRange));
    assert_eq!(parse_datetime(&reference(), "30:00"), Err(ParseError::InvalidRange));
    assert_eq!(parse_datetime(&reference(), "99:00"), Err(ParseError::InvalidRange));
}

#[test]
fn entries_beyond_the_calendar_are_refused() {
    let last_day = Moment::new(worktime::moment::MOMENT_LIMIT - 86_400);
    assert_eq!(parse_datetime(&last_day, "23:59").map(|m| m.seconds), Ok(worktime::moment::MOMENT_LIMIT - 60));
    assert_eq!(parse_datetime(&last_day, "24:01"), Err(ParseError::InvalidRange));
}

#[test]
fn resolve_morning_to_afternoon() {
    assert_eq!(resolve(&at(8, 0), &at(1, 0)), at(13, 0));
}

#[test]
fn resolve_afternoon_to_next_day() {
    assert_eq!(resolve(&at(14, 40), &at(1, 30)), at(25, 30));
}

#[test]
fn resolve_keeps_later_entries() {
    assert_eq!(resolve(&at(8, 0), &at(12, 0)), at(12, 0));
    assert_eq!(resolve(&at(8, 0), &at(8, 0)), at(8, 0));
    assert_eq!(resolve(&at(22, 0), &at(26, 0)), at(26, 0));
}

#[test]
fn resolve_never_goes_before_prior() {
    for p in 0..48i64 {
        for n in 0..48i64 {
            let prior = at(p / 2, (p % 2) * 30);
            let next = at(n / 2, (n % 2) * 30);
            assert!(resolve(&prior, &next).seconds >= prior.seconds);
        }
    }
}

#[test]
fn resolve_on_a_later_day_keeps_clock_time() {
    assert_eq!(resolve(&at(34, 0), &at(11, 0)), at(35, 0));
    assert_eq!(resolve(&at(34, 0), &at(3, 0)), at(39, 0));
}

#[test]
fn stream_resolves_each_entry() {
    let lines: Vec<String> = ["8:00", "1:00", "2:00", "5:30"].iter().map(|s| s.to_string()).collect();
    let times = from_stream(&reference(), &lines).unwrap();
    assert_eq!(times, vec![at(8, 0), at(13, 0), at(26, 0), at(29, 30)]);
}

#[test]
fn stream_stops_at_first_bad_entry() {
    let lines: Vec<String> = ["8:00", "12:00", "noon", "8:61"].iter().map(|s| s.to_string()).collect();
    assert_eq!(
        from_stream(&reference(), &lines),
        Err(EntryError { index: 2, kind: ParseError::MalformedInput })
    );
    let lines: Vec<String> = ["8:00", "8:61"].iter().map(|s| s.to_string()).collect();
    assert_eq!(
        from_stream(&reference(), &lines),
        Err(EntryError { index: 1, kind: ParseError::InvalidRange })
    );
}

#[test]
fn empty_stream_is_empty() {
    let lines: Vec<String> = Vec::new();
    assert_eq!(from_stream(&reference(), &lines), Ok(Vec::new()));
}
