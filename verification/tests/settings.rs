use dyn_wall::config::{
    check_config_text, config_is_blank, parse_times, pick, Args, Pending, Times, UsageError,
};
use dyn_wall::errors::{ConfigFileErrors, Errors};
use dyn_wall::schedule::settle_times;
use dyn_wall::time_track::Time;

fn strings(texts: &[&str]) -> Vec<String> {
    texts.iter().map(|text| text.to_string()).collect()
}

fn blank() -> Args<f64> {
    Args::default()
}

fn with_directory(dir: &str) -> Args<f64> {
    Args { directory: Some(dir.to_string()), ..blank() }
}

fn refused(cli: Args<f64>, file: Args<f64>, times: Option<Vec<Time>>) -> UsageError {
    Args::mixed(cli, file, times).unwrap_err()
}

#[test]
fn the_default_sets_nothing() {
    let args = blank();
    assert!(args.blank());
    assert!(args.directory.is_none() && args.programs.is_none() && !args.schedule);
    assert!(args.backend.is_none() && args.lat.is_none() && args.long.is_none());
    assert!(args.elevation.is_none() && args.days.is_none() && args.times.is_none());
    assert!(!with_directory("w").blank());
    assert!(!Args::<f64> { schedule: true, ..blank() }.blank());
    assert!(!Args::<f64> { elevation: Some(0.0), ..blank() }.blank());
}

#[test]
fn images_lie_deeper_where_a_location_is_set() {
    assert_eq!(with_directory("/w").min_depth(), 1);
    assert_eq!(Args::<f64> { lat: Some(1.0), ..blank() }.min_depth(), 1);
    assert_eq!(Args::<f64> { long: Some(1.0), elevation: Some(5.0), ..blank() }.min_depth(), 1);
    assert_eq!(Args::<f64> { lat: Some(1.0), long: Some(2.0), ..blank() }.min_depth(), 2);
}

#[test]
fn the_first_value_that_is_there_is_picked() {
    assert_eq!(pick(Some(1), Some(2)), Some(1));
    assert_eq!(pick(None, Some(2)), Some(2));
    assert_eq!(pick(Some(1), None), Some(1));
    assert_eq!(pick::<u8>(None, None), None);
}

#[test]
fn the_command_line_comes_before_the_file() {
    let cli = Args {
        directory: Some(String::from("/cli")),
        backend: Some(String::from("feh")),
        lat: Some(1.5),
        schedule: true,
        ..blank()
    };
    let file = Args {
        directory: Some(String::from("/file")),
        programs: Some(strings(&["echo"])),
        backend: Some(String::from("kde")),
        lat: Some(9.0),
        long: Some(-2.0),
        elevation: Some(30.0),
        days: Some(3),
        schedule: false,
        times: Some(vec![Time::new(1)]),
    };
    let times = Some(vec![Time::new(60), Time::new(120)]);
    let args = Args::merge(cli, file, times);
    assert_eq!(args.directory.as_deref(), Some("/cli"));
    assert_eq!(args.programs, Some(strings(&["echo"])));
    assert_eq!(args.backend.as_deref(), Some("feh"));
    assert_eq!((args.lat, args.long, args.elevation), (Some(1.5), Some(-2.0), Some(30.0)));
    assert_eq!(args.days, Some(3));
    assert!(args.schedule);
    let kept: Vec<u32> = args.times.unwrap().iter().map(|time| time.total_mins).collect();
    assert_eq!(kept, vec![60, 120]);
}

#[test]
fn the_schedule_flag_of_the_file_is_not_read() {
    let file = Args { schedule: true, ..with_directory("/w") };
    let args = Args::merge(blank(), file, None);
    assert!(!args.schedule);
    assert!(args.times.is_none());
}

#[test]
fn a_directory_is_enough() {
    let (args, pending) = Args::mixed(with_directory("/w"), blank(), None).unwrap();
    assert_eq!(pending, Pending::DirectoryCheck);
    assert_eq!(args.directory.as_deref(), Some("/w"));
    let (_, from_file) = Args::mixed(blank(), with_directory("/w"), None).unwrap();
    assert_eq!(from_file, Pending::DirectoryCheck);
}

#[test]
fn a_location_asks_for_the_times_of_the_sun() {
    let cli = Args { lat: Some(52.5), long: Some(13.4), ..with_directory("/w") };
    let (args, pending) = Args::mixed(cli, blank(), None).unwrap();
    assert_eq!(pending, Pending::SunTimings);
    assert_eq!((args.lat, args.long, args.elevation), (Some(52.5), Some(13.4), None));
    let split = Args::mixed(
        Args { lat: Some(52.5), ..blank() },
        Args { long: Some(13.4), ..with_directory("/w") },
        None,
    );
    assert_eq!(split.unwrap().1, Pending::SunTimings);
}

#[test]
fn nothing_set_is_refused() {
    assert_eq!(refused(blank(), blank(), None), UsageError::DirectoryNotSpecified);
}

#[test]
fn a_latitude_needs_a_longitude_and_a_directory() {
    let lat = Args { lat: Some(1.0), ..with_directory("/w") };
    assert_eq!(refused(lat, blank(), None), UsageError::LatWithoutLong);
    let both = Args { lat: Some(1.0), long: Some(2.0), ..blank() };
    assert_eq!(refused(both, blank(), None), UsageError::LocationWithoutDirectory);
    let long = Args { long: Some(2.0), ..with_directory("/w") };
    assert_eq!(refused(long, blank(), None), UsageError::LongWithoutLat);
}

#[test]
fn programs_a_backend_and_the_schedule_need_a_directory() {
    let programs = Args { programs: Some(strings(&["echo"])), ..blank() };
    assert_eq!(refused(programs, blank(), None), UsageError::ProgramsWithoutDirectory);
    let backend = Args { backend: Some(String::from("feh")), ..blank() };
    assert_eq!(refused(backend, blank(), None), UsageError::BackendWithoutDirectory);
    let schedule = Args { schedule: true, ..blank() };
    assert_eq!(refused(schedule, blank(), None), UsageError::ScheduleWithoutDirectory);
    let shown = Args { schedule: true, programs: Some(strings(&["echo"])), ..blank() };
    assert_eq!(refused(shown, blank(), None), UsageError::ScheduleWithoutDirectory);
    let all = Args {
        schedule: true,
        programs: Some(strings(&["echo"])),
        backend: Some(String::from("feh")),
        ..blank()
    };
    assert_eq!(refused(all, blank(), None), UsageError::BackendWithoutDirectory);
}

#[test]
fn times_alone_do_not_name_a_directory() {
    let times = Some(vec![Time::new(0)]);
    assert_eq!(refused(blank(), blank(), times), UsageError::DirectoryNotSpecified);
    let elevation = Args { elevation: Some(12.0), ..blank() };
    assert_eq!(refused(elevation, blank(), None), UsageError::DirectoryNotSpecified);
    let days = Args { days: Some(2), ..blank() };
    assert_eq!(refused(blank(), days, None), UsageError::DirectoryNotSpecified);
}

#[test]
fn each_refusal_has_its_report() {
    let reports = [
        (UsageError::DirectoryNotSpecified, "Directory not specified"),
        (UsageError::LatWithoutLong, "Error: lat needs to be specified with long"),
        (UsageError::LocationWithoutDirectory, "Error: Directory needs to be specified"),
        (UsageError::LongWithoutLat, "Error: long neds to be specified with lat"),
        (
            UsageError::ProgramsWithoutDirectory,
            "Error: The program option is to be used with a specified directory",
        ),
        (
            UsageError::BackendWithoutDirectory,
            "Error: The backend option is to be used with a specified directory",
        ),
        (
            UsageError::ScheduleWithoutDirectory,
            "Error: The schedule option is to be used alongside a specified directory",
        ),
    ];
    for (error, report) in reports {
        assert_eq!(error.message(), report);
    }
}

#[test]
fn a_text_of_comments_sets_nothing() {
    assert!(config_is_blank(""));
    assert!(config_is_blank("# times = []"));
    assert!(config_is_blank("# a\n# b\n"));
    assert!(config_is_blank("#\n\t#x\n  # y"));
    assert!(config_is_blank("directory = \"/w\" # where the images are"));
    assert!(config_is_blank("#\r\n#\r\n"));
}

#[test]
fn a_line_without_a_hash_sets_something() {
    assert!(!config_is_blank("directory = \"/w\""));
    assert!(!config_is_blank("# a\ntimes = []\n# b"));
    assert!(!config_is_blank("# a\n\n# b"));
    assert!(!config_is_blank("\n"));
    assert!(!config_is_blank("# a\n "));
    assert!(!config_is_blank("# a\n\n"));
}

#[test]
fn blank_texts_agree_with_the_lines_of_the_standard_library() {
    for text in ["", "\n", "#", "#\n", "#\n\n", "a", "a\n#", "#\na", "#\r\n#", "\r\n", "#\n#\n#", "x#\n#x\n"] {
        let expected = text.lines().all(|line| line.contains('#'));
        assert_eq!(config_is_blank(text), expected, "{:?}", text);
    }
}

#[test]
fn a_blank_file_is_empty_unless_the_command_line_is_used() {
    let empty = Err(Errors::ConfigFileError(ConfigFileErrors::Empty));
    assert_eq!(check_config_text("# nothing\n", false), empty);
    assert_eq!(check_config_text("", false), empty);
    assert_eq!(check_config_text("# nothing\n", true), Ok(()));
    assert_eq!(check_config_text("times = []", false), Ok(()));
    assert_eq!(check_config_text("times = []", true), Ok(()));
}

#[test]
fn the_times_of_a_file_are_read_in_order() {
    let times = parse_times(&strings(&["00:00", "6:30", "23:59"])).unwrap();
    let totals: Vec<u32> = times.iter().map(|time| time.total_mins).collect();
    assert_eq!(totals, vec![0, 390, 1439]);
    assert!(parse_times(&[].to_vec()).unwrap().is_empty());
}

#[test]
fn one_time_that_is_not_a_time_spoils_the_file() {
    let spoiled = parse_times(&strings(&["00:00", "noon", "23:59"]));
    assert_eq!(spoiled.unwrap_err(), Errors::ConfigFileError(ConfigFileErrors::FormattingError));
    let last = parse_times(&strings(&["00:00", "12:00", "24:60"]));
    assert_eq!(last.unwrap_err(), Errors::ConfigFileError(ConfigFileErrors::FormattingError));
}

#[test]
fn a_file_may_hold_no_times() {
    assert!(Times { times: None }.parse().unwrap().is_none());
    let some = Times { times: Some(strings(&["1:00"])) }.parse().unwrap().unwrap();
    assert_eq!(some[0].total_mins, 60);
    let bad = Times { times: Some(strings(&["1"])) }.parse();
    assert_eq!(bad.unwrap_err(), Errors::ConfigFileError(ConfigFileErrors::FormattingError));
}

#[test]
fn a_rotation_by_days_has_midnight_as_its_boundary() {
    let times = settle_times(Some(3), Some(vec![Time::new(60), Time::new(120)]), 7).unwrap();
    assert_eq!(times.len(), 1);
    assert_eq!((times[0].total_mins, times[0].hours, times[0].mins), (0, 0, 0));
    assert_eq!(settle_times(Some(1), None, 0).unwrap().len(), 1);
}

#[test]
fn times_that_are_set_are_taken_as_they_are() {
    let odd = vec![Time::new(700), Time::new(5), Time::new(5000)];
    let times = settle_times(None, Some(odd), 7).unwrap();
    let totals: Vec<u32> = times.iter().map(|time| time.total_mins).collect();
    assert_eq!(totals, vec![700, 5, 5000]);
}

#[test]
fn without_times_the_images_share_the_day() {
    let times = settle_times(None, None, 4).unwrap();
    let totals: Vec<u32> = times.iter().map(|time| time.total_mins).collect();
    assert_eq!(totals, vec![0, 360, 720, 1080]);
    assert_eq!(settle_times(None, None, 7).unwrap_err(), Errors::CountCompatError(7));
    assert_eq!(settle_times(None, None, 0).unwrap_err(), Errors::CountCompatError(0));
}
