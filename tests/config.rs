use worktime::args::Args;
use worktime::modes::Modes;

#[test]
fn piped_input_support() {
    assert!(Modes::TimeTable.supports_piped_input());
    assert!(!Modes::Live.supports_piped_input());
}

#[test]
fn default_mode() {
    assert_eq!(Modes::default(), Modes::TimeTable);
    assert_eq!(Modes::TimeTable.name(), "time-table");
    assert_eq!(Modes::Live.name(), "live");
}

#[test]
fn target_defaults_to_eight_hours() {
    let a = Args { hours: None, minutes: 0, discount: false };
    assert_eq!(a.target_minutes(), Some(480));
    let a = Args { hours: Some(2), minutes: 30, discount: false };
    assert_eq!(a.target_minutes(), Some(150));
}

#[test]
fn discount_takes_off_the_day() {
    let a = Args { hours: None, minutes: 15, discount: true };
    assert_eq!(a.target_minutes(), Some(465));
    let a = Args { hours: Some(1), minutes: 0, discount: true };
    assert_eq!(a.target_minutes(), Some(420));
    let a = Args { hours: Some(9), minutes: 0, discount: true };
    assert_eq!(a.target_minutes(), Some(-60));
}

#[test]
fn target_overflow_is_none() {
    let a = Args { hours: Some(i64::MAX), minutes: 0, discount: false };
    assert_eq!(a.target_minutes(), None);
    let a = Args { hours: Some(i64::MIN / 60), minutes: 0, discount: true };
    assert_eq!(a.target_minutes(), None);
}
