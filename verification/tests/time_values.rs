use dyn_wall::errors::{ConfigFileErrors, Errors};
use dyn_wall::time_track::{Time, FULL_DAY_MINS, HOUR_MINS};

fn at(hours: u32, mins: u32) -> Time {
    Time::new(hours * 60 + mins)
}

fn formatting_error<T: std::fmt::Debug>(result: Result<T, Errors>) -> bool {
    matches!(result, Err(Errors::ConfigFileError(ConfigFileErrors::FormattingError)))
}

#[test]
fn new_splits_hours_and_minutes() {
    let time = Time::new(125);
    assert_eq!(time.total_mins, 125);
    assert_eq!(time.hours, 2);
    assert_eq!(time.mins, 5);
}

#[test]
fn new_at_the_edges_of_the_hour_and_the_day() {
    let cases: Vec<(u32, u32, u32)> = vec![
        (0, 0, 0),
        (59, 0, 59),
        (60, 1, 0),
        (61, 1, 1),
        (1439, 23, 59),
        (1440, 24, 0),
        (100000, 1666, 40),
        (u32::MAX, 71582788, 15),
    ];
    for (total, hours, mins) in cases {
        let time = Time::new(total);
        assert_eq!((time.total_mins, time.hours, time.mins), (total, hours, mins));
    }
}

#[test]
fn new_keeps_no_upper_bound() {
    let time = Time::new(2 * FULL_DAY_MINS + HOUR_MINS + 1);
    assert_eq!((time.hours, time.mins), (49, 1));
}

#[test]
fn rebuilding_from_the_total_gives_the_same_fields() {
    for total in 0..3000u32 {
        let time = Time::new(total);
        let again = Time::new(time.total_mins);
        assert_eq!((again.total_mins, again.hours, again.mins), (total, time.hours, time.mins));
        assert_eq!(again.hours * 60 + again.mins, total);
        assert!(again.mins < 60);
    }
}

#[test]
fn sentinels_are_midnight_and_the_full_day() {
    let midnight = Time::midnight();
    let full_day = Time::full_day();
    assert_eq!((midnight.total_mins, midnight.hours, midnight.mins), (0, 0, 0));
    assert_eq!((full_day.total_mins, full_day.hours, full_day.mins), (1440, 24, 0));
    let zero = Time::default();
    assert_eq!((zero.total_mins, zero.hours, zero.mins), (0, 0, 0));
}

#[test]
fn twelve_hour_names_each_part_of_the_day() {
    assert_eq!(at(0, 0).twelve_hour(), "12:00 a.m.");
    assert_eq!(at(0, 5).twelve_hour(), "12:05 a.m.");
    assert_eq!(at(1, 0).twelve_hour(), "1:00 a.m.");
    assert_eq!(at(9, 9).twelve_hour(), "9:09 a.m.");
    assert_eq!(at(11, 59).twelve_hour(), "11:59 a.m.");
    assert_eq!(at(12, 0).twelve_hour(), "12:00 p.m.");
    assert_eq!(at(12, 30).twelve_hour(), "12:30 p.m.");
    assert_eq!(at(13, 5).twelve_hour(), "1:05 p.m.");
    assert_eq!(at(22, 10).twelve_hour(), "10:10 p.m.");
    assert_eq!(at(23, 59).twelve_hour(), "11:59 p.m.");
}

#[test]
fn twelve_hour_goes_on_past_the_day() {
    assert_eq!(Time::full_day().twelve_hour(), "12:00 p.m.");
    assert_eq!(at(30, 1).twelve_hour(), "18:01 p.m.");
}

#[test]
fn twelve_hour_shows_fields_as_they_were_read() {
    let odd = Time::parse("5:99").unwrap();
    assert_eq!(odd.twelve_hour(), "5:99 a.m.");
    let wide = Time::parse("3:150").unwrap();
    assert_eq!(wide.twelve_hour(), "3:150 a.m.");
}

#[test]
fn clock_label_pads_both_fields() {
    assert_eq!(at(0, 0).clock_label(), "00:00");
    assert_eq!(at(8, 5).clock_label(), "08:05");
    assert_eq!(at(12, 30).clock_label(), "12:30");
    assert_eq!(at(23, 59).clock_label(), "23:59");
    assert_eq!(at(100, 0).clock_label(), "100:00");
}

#[test]
fn parse_reads_padded_and_unpadded_fields() {
    for (text, total, hours, mins) in [
        ("08:00", 480, 8, 0),
        ("8:5", 485, 8, 5),
        ("0:00", 0, 0, 0),
        ("23:59", 1439, 23, 59),
        ("00000000000000000000008:00", 480, 8, 0),
        ("+8:+5", 485, 8, 5),
    ] {
        let time = Time::parse(text).unwrap();
        assert_eq!((time.total_mins, time.hours, time.mins), (total, hours, mins), "{}", text);
    }
}

#[test]
fn parse_leaves_the_range_to_the_validator() {
    let odd = Time::parse("5:99").unwrap();
    assert_eq!((odd.total_mins, odd.hours, odd.mins), (399, 5, 99));
    let late = Time::parse("25:10").unwrap();
    assert_eq!((late.total_mins, late.hours, late.mins), (1510, 25, 10));
    let end = Time::parse("24:00").unwrap();
    assert_eq!(end.total_mins, 1440);
    assert!(formatting_error(Time::parse("24:60")));
    assert!(formatting_error(Time::parse("99:99")));
}

#[test]
fn parse_reads_two_fields_and_no_more() {
    assert_eq!(Time::parse("1:2:3").unwrap().total_mins, 62);
    assert_eq!(Time::parse("1:2:x").unwrap().total_mins, 62);
    assert_eq!(Time::parse("1:2:").unwrap().total_mins, 62);
}

#[test]
fn parse_refuses_what_is_no_time() {
    for text in [
        "", ":", "12", "12:", ":30", "a:b", "1a:00", "10:0b", " 8:00", "8:00 ", "8 :00", "-8:00",
        "8:-1", "+:1", "1:+", "++1:1", "1.5:00", "8_0:00", "٣:00", "4294967296:0",
        "0:4294967296",
    ] {
        assert!(formatting_error(Time::parse(text)), "{:?}", text);
    }
}

#[test]
fn parse_refuses_a_total_that_does_not_fit() {
    let most = Time::parse("71582788:15").unwrap();
    assert_eq!(most.total_mins, u32::MAX);
    assert!(formatting_error(Time::parse("71582788:16")));
    assert!(formatting_error(Time::parse("4294967295:00")));
}

#[test]
fn from_fields_keeps_the_fields() {
    let time = Time::from_fields(7, 61).unwrap();
    assert_eq!((time.total_mins, time.hours, time.mins), (481, 7, 61));
    assert!(formatting_error(Time::from_fields(24, 60)));
    assert!(formatting_error(Time::from_fields(u32::MAX, 0)));
    assert!(Time::from_fields(24, 59).is_ok());
    assert!(Time::from_fields(23, 60).is_ok());
}

#[test]
fn from_str_reads_as_parse_does() {
    let time: Time = "18:45".parse().unwrap();
    assert_eq!(time.total_mins, 1125);
    assert!(formatting_error("noon".parse::<Time>()));
}

#[test]
fn times_compare_by_their_totals() {
    assert!(at(8, 0) < at(8, 1));
    assert!(at(23, 59) > at(0, 0));
    assert!(at(5, 5) <= at(5, 5));
    assert!(at(5, 5) >= at(5, 5));
    assert!(at(5, 5) == at(5, 5));
    assert!(at(5, 5) != at(5, 6));
    let read = Time::parse("5:99").unwrap();
    let built = Time::new(399);
    assert_ne!(read.hours, built.hours);
    assert!(read == built);
    assert!(!(read < built) && !(read > built));
    assert_eq!(read.partial_cmp(&built), Some(std::cmp::Ordering::Equal));
    assert_eq!(at(1, 0).partial_cmp(&at(2, 0)), Some(std::cmp::Ordering::Less));
    assert_eq!(at(3, 0).partial_cmp(&at(2, 0)), Some(std::cmp::Ordering::Greater));
}

#[test]
fn sums_and_differences_are_built_anew() {
    let sum = at(23, 30) + at(1, 45);
    assert_eq!((sum.total_mins, sum.hours, sum.mins), (1515, 25, 15));
    let back = sum - Time::full_day();
    assert_eq!((back.total_mins, back.hours, back.mins), (75, 1, 15));
    let less = at(10, 0) - 61u32;
    assert_eq!((less.total_mins, less.hours, less.mins), (539, 8, 59));
    let odd = Time::parse("5:99").unwrap() + Time::midnight();
    assert_eq!((odd.total_mins, odd.hours, odd.mins), (399, 6, 39));
}

#[test]
fn assigning_sums_and_differences() {
    let mut time = at(6, 0);
    time.add_assign(at(0, 90));
    assert_eq!((time.total_mins, time.hours, time.mins), (450, 7, 30));
    time.sub_assign(at(7, 30));
    assert_eq!((time.total_mins, time.hours, time.mins), (0, 0, 0));
}

#[test]
fn a_clock_label_is_read_back_as_the_same_time() {
    for total in (0..1440u32).chain([1440, 5999, 6000, 100000]) {
        let time = Time::new(total);
        let again = Time::parse(&time.clock_label()).unwrap();
        assert_eq!((again.total_mins, again.hours, again.mins), (total, time.hours, time.mins));
    }
    let odd = Time::parse("5:99").unwrap();
    let again = Time::parse(&odd.clock_label()).unwrap();
    assert_eq!((again.total_mins, again.hours, again.mins), (399, 5, 99));
}
