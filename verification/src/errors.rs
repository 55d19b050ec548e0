//! The error kinds of the scheduler and the text that reports each of them.

use crate::text::{decimal_text, push_decimal};
use vstd::prelude::*;

verus! {

/// What can be wrong with a configured boundary sequence or its source.
#[derive(Debug, PartialEq, Eq)]
pub enum ConfigFileErrors {
    Empty,
    FileTimeMismatch,
    FormattingError,
    NotFound,
    OutOfOrder,
    OutOfRange,
    DuplicatesFound,
    Other(String),
}

/// Every failure that the scheduler reports.
#[derive(Debug, PartialEq, Eq)]
pub enum Errors {
    FilePathError,
    ProgramRunError(String),
    CountCompatError(usize),
    DirNonExistantError(String),
    NoFilesFoundError(String),
    ConfigFileError(ConfigFileErrors),
    BackendNotFoundError(String),
}

/// The mathematical value of a `ConfigFileErrors`.
pub enum ConfigFileErrorsView {
    Empty,
    FileTimeMismatch,
    FormattingError,
    NotFound,
    OutOfOrder,
    OutOfRange,
    DuplicatesFound,
    Other(Seq<char>),
}

/// The mathematical value of an `Errors`.
pub enum ErrorsView {
    FilePathError,
    ProgramRunError(Seq<char>),
    CountCompatError(nat),
    DirNonExistantError(Seq<char>),
    NoFilesFoundError(Seq<char>),
    ConfigFileError(ConfigFileErrorsView),
    BackendNotFoundError(Seq<char>),
}

impl View for ConfigFileErrors {
    type V = ConfigFileErrorsView;

    open spec fn view(&self) -> ConfigFileErrorsView {
        match self {
            ConfigFileErrors::Empty => ConfigFileErrorsView::Empty,
            ConfigFileErrors::FileTimeMismatch => ConfigFileErrorsView::FileTimeMismatch,
            ConfigFileErrors::FormattingError => ConfigFileErrorsView::FormattingError,
            ConfigFileErrors::NotFound => ConfigFileErrorsView::NotFound,
            ConfigFileErrors::OutOfOrder => ConfigFileErrorsView::OutOfOrder,
            ConfigFileErrors::OutOfRange => ConfigFileErrorsView::OutOfRange,
            ConfigFileErrors::DuplicatesFound => ConfigFileErrorsView::DuplicatesFound,
            ConfigFileErrors::Other(text) => ConfigFileErrorsView::Other(text@),
        }
    }
}

impl View for Errors {
    type V = ErrorsView;

    open spec fn view(&self) -> ErrorsView {
        match self {
            Errors::FilePathError => ErrorsView::FilePathError,
            Errors::ProgramRunError(program) => ErrorsView::ProgramRunError(program@),
            Errors::CountCompatError(count) => ErrorsView::CountCompatError(*count as nat),
            Errors::DirNonExistantError(dir) => ErrorsView::DirNonExistantError(dir@),
            Errors::NoFilesFoundError(place) => ErrorsView::NoFilesFoundError(place@),
            Errors::ConfigFileError(cause) => ErrorsView::ConfigFileError(cause@),
            Errors::BackendNotFoundError(backend) => ErrorsView::BackendNotFoundError(backend@),
        }
    }
}


/// What every report of a fault in the configuration starts with.
pub const CONFIG_FAULT: &'static str = "Error with config file";

/// The report of a fault in the configuration. `config_home` is the
/// directory under which the configuration of this program lies; only the
/// report of a missing file names it.
pub open spec fn config_error_text(cause: ConfigFileErrorsView, config_home: Seq<char>) -> Seq<
    char,
> {
    match cause {
        ConfigFileErrorsView::Empty => CONFIG_FAULT@ + ": config file is empty"@,
        ConfigFileErrorsView::FileTimeMismatch => CONFIG_FAULT@
            + ": the number of times listed in the config file does not equal the number of files in directory"@,
        ConfigFileErrorsView::FormattingError => CONFIG_FAULT@
            + ": config file not formatted correctly"@,
        ConfigFileErrorsView::NotFound => CONFIG_FAULT@
            + ": config file not found. One has been created at "@ + config_home + "/"@
            + "dyn-wall-rs"@ + "/"@ + "config.toml for you to edit"@,
        ConfigFileErrorsView::OutOfOrder => CONFIG_FAULT@
            + ": the order of the times are incorrect"@,
        ConfigFileErrorsView::OutOfRange => CONFIG_FAULT@
            + ": Custom times should be between 0 - 23:59"@,
        ConfigFileErrorsView::DuplicatesFound => CONFIG_FAULT@ + ": duplicate times found"@,
        ConfigFileErrorsView::Other(text) => CONFIG_FAULT@ + ": "@ + text,
    }
}

/// The report of an error, as it is shown to the user.
pub open spec fn error_text(error: ErrorsView, config_home: Seq<char>) -> Seq<char> {
    match error {
        ErrorsView::FilePathError => "Error while handling file path"@,
        ErrorsView::ProgramRunError(program) => "Error while running "@ + program,
        ErrorsView::CountCompatError(count) => if count == 0 {
            "No images found in the given directory"@
        } else {
            "Cannot schedule the rotation of "@ + decimal_text(count)
                + " images evenly throughout the day (the number of images should divide evenly into 1440)"@
        },
        ErrorsView::DirNonExistantError(dir) => "The directory "@ + dir + " doesn't exist"@,
        ErrorsView::NoFilesFoundError(place) => "No file(s) found at "@ + place,
        ErrorsView::ConfigFileError(cause) => config_error_text(cause, config_home),
        ErrorsView::BackendNotFoundError(backend) => "Backend '"@ + backend + "' not found"@,
    }
}

/// Whether the report of an error names the configuration directory.
pub open spec fn names_config_home(error: ErrorsView) -> bool {
    error == ErrorsView::ConfigFileError(ConfigFileErrorsView::NotFound)
}

/// Asks `dirs_next::config_dir` for the configuration directory of the
/// user. What comes back depends on the environment of the process, so
/// nothing is claimed of it; there is none where the environment gives
/// none, or where its path is no Unicode text.
#[verifier::external_body]
fn config_home() -> (home: Option<String>) {
    match dirs_next::config_dir() {
        Some(dir) => dir.to_str().map(String::from),
        None => None,
    }
}

impl ConfigFileErrors {
    /// Writes the report of this fault.
    pub fn message_with(&self, config_home: &str) -> (text: String)
        ensures
            text@ == config_error_text(self@, config_home@),
    {
        let mut text = String::from_str(CONFIG_FAULT);
        match self {
            ConfigFileErrors::Empty => {
                text.append(": config file is empty");
            },
            ConfigFileErrors::FileTimeMismatch => {
                text.append(
                    ": the number of times listed in the config file does not equal the number of files in directory",
                );
            },
            ConfigFileErrors::FormattingError => {
                text.append(": config file not formatted correctly");
            },
            ConfigFileErrors::NotFound => {
                text.append(": config file not found. One has been created at ");
                text.append(config_home);
                text.append("/");
                text.append("dyn-wall-rs");
                text.append("/");
                text.append("config.toml for you to edit");
            },
            ConfigFileErrors::OutOfOrder => {
                text.append(": the order of the times are incorrect");
            },
            ConfigFileErrors::OutOfRange => {
                text.append(": Custom times should be between 0 - 23:59");
            },
            ConfigFileErrors::DuplicatesFound => {
                text.append(": duplicate times found");
            },
            ConfigFileErrors::Other(other_err) => {
                text.append(": ");
                text.append(other_err.as_str());
            },
        }
        text
    }
}

impl Errors {
    /// Writes the report of this error, with `config_home` as the directory
    /// under which the configuration lies.
    pub fn message_with(&self, config_home: &str) -> (text: String)
        ensures
            text@ == error_text(self@, config_home@),
    {
        match self {
            Errors::FilePathError => String::from_str("Error while handling file path"),
            Errors::ProgramRunError(program) => {
                let mut text = String::from_str("Error while running ");
                text.append(program.as_str());
                text
            },
            Errors::CountCompatError(count) => {
                if *count == 0 {
                    String::from_str("No images found in the given directory")
                } else {
                    let mut text = String::from_str("Cannot schedule the rotation of ");
                    push_decimal(&mut text, *count as u64);
                    text.append(
                        " images evenly throughout the day (the number of images should divide evenly into 1440)",
                    );
                    text
                }
            },
            Errors::DirNonExistantError(dir) => {
                let mut text = String::from_str("The directory ");
                text.append(dir.as_str());
                text.append(" doesn't exist");
                text
            },
            Errors::NoFilesFoundError(place) => {
                let mut text = String::from_str("No file(s) found at ");
                text.append(place.as_str());
                text
            },
            Errors::ConfigFileError(cause) => cause.message_with(config_home),
            Errors::BackendNotFoundError(backend) => {
                let mut text = String::from_str("Backend '");
                text.append(backend.as_str());
                text.append("' not found");
                text
            },
        }
    }

    /// Writes the report of this error. The report of a missing
    /// configuration file names the configuration directory of the user;
    /// there is no report where that directory is not known.
    pub fn message(&self) -> (text: Option<String>)
        ensures
            !names_config_home(self@) ==> text is Some && text->0@ == error_text(
                self@,
                Seq::empty(),
            ),
            names_config_home(self@) ==> (text matches Some(report) ==> exists|home: Seq<char>|
                report@ == error_text(self@, home)),
    {
        match self {
            Errors::ConfigFileError(ConfigFileErrors::NotFound) => match config_home() {
                Some(home) => {
                    let report = self.message_with(home.as_str());
                    assert(report@ == error_text(self@, home@));
                    Some(report)
                },
                None => None,
            },
            _ => Some(self.message_with("")),
        }
    }
}

} // verus!
