use dyn_wall::errors::{ConfigFileErrors, Errors};

fn config(cause: ConfigFileErrors) -> Errors {
    Errors::ConfigFileError(cause)
}

#[test]
fn each_error_has_its_report() {
    let reports = [
        (Errors::FilePathError, "Error while handling file path"),
        (Errors::ProgramRunError(String::from("feh")), "Error while running feh"),
        (Errors::CountCompatError(0), "No images found in the given directory"),
        (
            Errors::CountCompatError(7),
            "Cannot schedule the rotation of 7 images evenly throughout the day (the number of images should divide evenly into 1440)",
        ),
        (Errors::DirNonExistantError(String::from("/w")), "The directory /w doesn't exist"),
        (Errors::NoFilesFoundError(String::from("/w/day")), "No file(s) found at /w/day"),
        (Errors::BackendNotFoundError(String::from("sway")), "Backend 'sway' not found"),
    ];
    for (error, report) in reports {
        assert_eq!(error.message_with("/home/me/.config"), report);
        assert_eq!(error.message().as_deref(), Some(report));
    }
}

#[test]
fn each_fault_of_the_configuration_has_its_report() {
    let reports = [
        (ConfigFileErrors::Empty, "Error with config file: config file is empty"),
        (
            ConfigFileErrors::FileTimeMismatch,
            "Error with config file: the number of times listed in the config file does not equal the number of files in directory",
        ),
        (
            ConfigFileErrors::FormattingError,
            "Error with config file: config file not formatted correctly",
        ),
        (ConfigFileErrors::OutOfOrder, "Error with config file: the order of the times are incorrect"),
        (
            ConfigFileErrors::OutOfRange,
            "Error with config file: Custom times should be between 0 - 23:59",
        ),
        (ConfigFileErrors::DuplicatesFound, "Error with config file: duplicate times found"),
        (
            ConfigFileErrors::Other(String::from("expected a value at line 3")),
            "Error with config file: expected a value at line 3",
        ),
    ];
    for (cause, report) in reports {
        assert_eq!(cause.message_with("/home/me/.config"), report);
        let error = config(cause);
        assert_eq!(error.message_with(""), report);
        assert_eq!(error.message().as_deref(), Some(report));
    }
}

#[test]
fn the_count_is_written_in_full() {
    for count in [1usize, 9, 10, 11, 99, 100, 1441, 1000000, 4294967295] {
        let report = Errors::CountCompatError(count).message_with("");
        let expected = format!(
            "Cannot schedule the rotation of {} images evenly throughout the day (the number of images should divide evenly into 1440)",
            count
        );
        assert_eq!(report, expected);
    }
}

#[test]
fn a_missing_file_is_reported_with_its_place() {
    let report = config(ConfigFileErrors::NotFound).message_with("/home/me/.config");
    assert_eq!(
        report,
        "Error with config file: config file not found. One has been created at /home/me/.config/dyn-wall-rs/config.toml for you to edit"
    );
}

#[test]
fn a_missing_file_is_reported_with_the_place_of_the_user() {
    let head = "Error with config file: config file not found. One has been created at ";
    let tail = "/dyn-wall-rs/config.toml for you to edit";
    if let Some(report) = config(ConfigFileErrors::NotFound).message() {
        assert!(report.starts_with(head), "{}", report);
        assert!(report.ends_with(tail), "{}", report);
        assert!(report.len() >= head.len() + tail.len());
    }
}
