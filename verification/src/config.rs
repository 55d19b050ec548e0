//! The settings of a run: what the command line and the configuration file
//! give, how the two are merged, and which combinations are refused.

use crate::errors::{ConfigFileErrors, Errors};
use crate::text::{chars_of, field_end, lemma_field_end};
use crate::time_track::Time;
use vstd::prelude::*;

verus! {

/// The settings of a run. `C` is the type of a coordinate; the library
/// carries coordinates and never reads them.
#[derive(Debug)]
pub struct Args<C> {
    pub directory: Option<String>,
    pub programs: Option<Vec<String>>,
    pub schedule: bool,
    pub backend: Option<String>,
    pub lat: Option<C>,
    pub long: Option<C>,
    pub elevation: Option<C>,
    pub days: Option<u32>,
    pub times: Option<Vec<Time>>,
}

/// The times of a configuration file, as they are written there.
#[derive(Debug)]
pub struct Times {
    pub times: Option<Vec<String>>,
}

/// A combination of settings that is refused.
#[derive(Copy, Clone, Debug, PartialEq, Eq, Structural)]
pub enum UsageError {
    DirectoryNotSpecified,
    LatWithoutLong,
    LocationWithoutDirectory,
    LongWithoutLat,
    ProgramsWithoutDirectory,
    BackendWithoutDirectory,
    ScheduleWithoutDirectory,
}

/// What is left to do, once the settings are accepted, before they can be
/// used.
#[derive(Copy, Clone, Debug, PartialEq, Eq, Structural)]
pub enum Pending {
    /// The times are to be computed from sunrise and sunset at the location.
    SunTimings,
    /// The directory is to be looked up.
    DirectoryCheck,
}

/// The first of two optional values that is there.
pub open spec fn first_some<T>(first: Option<T>, second: Option<T>) -> Option<T> {
    if first is Some {
        first
    } else {
        second
    }
}

/// Takes the first of two optional values that is there.
pub fn pick<T>(first: Option<T>, second: Option<T>) -> (picked: Option<T>)
    ensures
        picked == first_some(first, second),
{
    if first.is_some() {
        first
    } else {
        second
    }
}

impl<C> Args<C> {
    /// Whether nothing is set.
    pub open spec fn is_blank(self) -> bool {
        &&& self.directory is None
        &&& self.programs is None
        &&& !self.schedule
        &&& self.backend is None
        &&& self.lat is None
        &&& self.long is None
        &&& self.elevation is None
        &&& self.days is None
        &&& self.times is None
    }

    /// The settings of a run: for each of them what the command line
    /// gives, else what the configuration file gives. Whether the schedule
    /// is to be shown is for the command line alone to say, and the times
    /// for the configuration file.
    pub open spec fn merged(cli_args: Args<C>, config_args: Args<C>, times: Option<Vec<Time>>)
        -> Args<C> {
        Args {
            directory: first_some(cli_args.directory, config_args.directory),
            programs: first_some(cli_args.programs, config_args.programs),
            schedule: cli_args.schedule,
            backend: first_some(cli_args.backend, config_args.backend),
            lat: first_some(cli_args.lat, config_args.lat),
            long: first_some(cli_args.long, config_args.long),
            elevation: first_some(cli_args.elevation, config_args.elevation),
            days: first_some(cli_args.days, config_args.days),
            times,
        }
    }

    /// Whether the settings can be used, and what is then left to do. A
    /// latitude and a longitude go together and need a directory; so do
    /// programs, unless the schedule is to be shown, a backend, and the
    /// showing of the schedule. Nothing can be done without a directory.
    pub open spec fn usage(self) -> Result<Pending, UsageError> {
        if self.is_blank() {
            Err(UsageError::DirectoryNotSpecified)
        } else if self.lat is Some {
            if self.long is None {
                Err(UsageError::LatWithoutLong)
            } else if self.directory is None {
                Err(UsageError::LocationWithoutDirectory)
            } else {
                Ok(Pending::SunTimings)
            }
        } else if self.long is Some {
            Err(UsageError::LongWithoutLat)
        } else if self.programs is Some && self.directory is None && !self.schedule {
            Err(UsageError::ProgramsWithoutDirectory)
        } else if self.backend is Some && self.directory is None {
            Err(UsageError::BackendWithoutDirectory)
        } else if self.schedule && self.directory is None {
            Err(UsageError::ScheduleWithoutDirectory)
        } else if self.directory is None {
            Err(UsageError::DirectoryNotSpecified)
        } else {
            Ok(Pending::DirectoryCheck)
        }
    }

    /// How deep below the directory its images lie: one level, or two
    /// where a location is set and the images are parted into day and night.
    pub open spec fn depth(self) -> usize {
        if self.lat is Some && self.long is Some {
            2
        } else {
            1
        }
    }

    /// Says how deep below the directory its images lie.
    pub fn min_depth(&self) -> (depth: usize)
        ensures
            depth == self.depth(),
    {
        if self.lat.is_some() && self.long.is_some() {
            2
        } else {
            1
        }
    }

    /// Tests whether nothing is set.
    pub fn blank(&self) -> (blank: bool)
        ensures
            blank == self.is_blank(),
    {
        self.directory.is_none() && self.programs.is_none() && !self.schedule
            && self.backend.is_none() && self.lat.is_none() && self.long.is_none()
            && self.elevation.is_none() && self.days.is_none() && self.times.is_none()
    }

    /// Merges the settings of the command line with those of the
    /// configuration file.
    pub fn merge(cli_args: Args<C>, config_args: Args<C>, times: Option<Vec<Time>>) -> (args:
        Args<C>)
        ensures
            args == Args::merged(cli_args, config_args, times),
    {
        Args {
            directory: pick(cli_args.directory, config_args.directory),
            programs: pick(cli_args.programs, config_args.programs),
            schedule: cli_args.schedule,
            backend: pick(cli_args.backend, config_args.backend),
            lat: pick(cli_args.lat, config_args.lat),
            long: pick(cli_args.long, config_args.long),
            elevation: pick(cli_args.elevation, config_args.elevation),
            days: pick(cli_args.days, config_args.days),
            times,
        }
    }

    /// Says whether the settings can be used, and what is then left to do.
    pub fn check_usage(&self) -> (usage: Result<Pending, UsageError>)
        ensures
            usage == self.usage(),
    {
        if self.blank() {
            Err(UsageError::DirectoryNotSpecified)
        } else if self.lat.is_some() {
            if self.long.is_none() {
                Err(UsageError::LatWithoutLong)
            } else if self.directory.is_none() {
                Err(UsageError::LocationWithoutDirectory)
            } else {
                Ok(Pending::SunTimings)
            }
        } else if self.long.is_some() {
            Err(UsageError::LongWithoutLat)
        } else if self.programs.is_some() && self.directory.is_none() && !self.schedule {
            Err(UsageError::ProgramsWithoutDirectory)
        } else if self.backend.is_some() && self.directory.is_none() {
            Err(UsageError::BackendWithoutDirectory)
        } else if self.schedule && self.directory.is_none() {
            Err(UsageError::ScheduleWithoutDirectory)
        } else if self.directory.is_none() {
            Err(UsageError::DirectoryNotSpecified)
        } else {
            Ok(Pending::DirectoryCheck)
        }
    }

    /// Merges the settings of the command line with those of the
    /// configuration file and its times, and says whether the result can be
    /// used and what is then left to do.
    pub fn mixed(cli_args: Args<C>, config_args: Args<C>, config_times: Option<Vec<Time>>) -> (mix:
        Result<(Args<C>, Pending), UsageError>)
        ensures
            match mix {
                Ok((args, pending)) => args == Args::merged(cli_args, config_args, config_times)
                    && args.usage() == Ok::<Pending, UsageError>(pending),
                Err(error) => Args::merged(cli_args, config_args, config_times).usage() == Err::<
                    Pending,
                    UsageError,
                >(error),
            },
    {
        let args = Args::merge(cli_args, config_args, config_times);
        match args.check_usage() {
            Ok(pending) => Ok((args, pending)),
            Err(error) => Err(error),
        }
    }
}

impl<C> Default for Args<C> {
    /// The settings that set nothing.
    fn default() -> (args: Args<C>)
        ensures
            args.is_blank(),
    {
        Args {
            directory: None,
            programs: None,
            schedule: false,
            backend: None,
            lat: None,
            long: None,
            elevation: None,
            days: None,
            times: None,
        }
    }
}

impl UsageError {
    /// The report of a refused combination of settings.
    pub open spec fn text(self) -> Seq<char> {
        match self {
            UsageError::DirectoryNotSpecified => "Directory not specified"@,
            UsageError::LatWithoutLong => "Error: lat needs to be specified with long"@,
            UsageError::LocationWithoutDirectory => "Error: Directory needs to be specified"@,
            UsageError::LongWithoutLat => "Error: long neds to be specified with lat"@,
            UsageError::ProgramsWithoutDirectory =>
                "Error: The program option is to be used with a specified directory"@,
            UsageError::BackendWithoutDirectory =>
                "Error: The backend option is to be used with a specified directory"@,
            UsageError::ScheduleWithoutDirectory =>
                "Error: The schedule option is to be used alongside a specified directory"@,
        }
    }

    /// Writes the report of a refused combination of settings.
    pub fn message(&self) -> (text: String)
        ensures
            text@ == self.text(),
    {
        match self {
            UsageError::DirectoryNotSpecified => String::from_str("Directory not specified"),
            UsageError::LatWithoutLong => String::from_str(
                "Error: lat needs to be specified with long",
            ),
            UsageError::LocationWithoutDirectory => String::from_str(
                "Error: Directory needs to be specified",
            ),
            UsageError::LongWithoutLat => String::from_str(
                "Error: long neds to be specified with lat",
            ),
            UsageError::ProgramsWithoutDirectory => String::from_str(
                "Error: The program option is to be used with a specified directory",
            ),
            UsageError::BackendWithoutDirectory => String::from_str(
                "Error: The backend option is to be used with a specified directory",
            ),
            UsageError::ScheduleWithoutDirectory => String::from_str(
                "Error: The schedule option is to be used alongside a specified directory",
            ),
        }
    }
}

/// Whether a line of `s` starts at position `p`.
pub open spec fn line_starts_at(s: Seq<char>, p: int) -> bool {
    0 <= p < s.len() && (p == 0 || s[p - 1] == '\n')
}

/// Whether the line of `s` that starts at position `p` holds a `#`.
pub open spec fn line_is_comment(s: Seq<char>, p: int) -> bool {
    exists|q: int| p <= q < field_end(s, p, '\n') && #[trigger] s[q] == '#'
}

/// Whether every line of a configuration text holds a `#`: the text sets
/// nothing. A text without lines is of this kind.
pub open spec fn only_comments(s: Seq<char>) -> bool {
    forall|p: int| #[trigger] line_starts_at(s, p) ==> line_is_comment(s, p)
}

/// Tests whether every line of a configuration text holds a `#`.
pub fn config_is_blank(contents: &str) -> (blank: bool)
    ensures
        blank == only_comments(contents@),
{
    let chars = chars_of(contents);
    let ghost s = contents@;
    let n = chars.len();
    let mut line_start: usize = 0;
    let mut has_hash = false;
    let mut i: usize = 0;
    while i < n
        invariant
            chars@ == s,
            s == contents@,
            n == chars.len(),
            0 <= line_start <= i <= n,
            line_start == 0 || s[line_start - 1] == '\n',
            forall|q: int| line_start <= q < i ==> #[trigger] s[q] != '\n',
            has_hash == (exists|q: int| line_start <= q < i && #[trigger] s[q] == '#'),
            forall|p: int| #[trigger] line_starts_at(s, p) && p < line_start ==> line_is_comment(s, p),
        decreases n - i,
    {
        let c = chars[i];
        if c == '\n' {
            proof {
                lemma_field_end(s, line_start as int, '\n');
                assert(field_end(s, line_start as int, '\n') == i);
            }
            if !has_hash {
                assert(line_starts_at(s, line_start as int));
                assert(!line_is_comment(s, line_start as int));
                return false;
            }
            assert(line_is_comment(s, line_start as int));
            assert forall|p: int| #[trigger] line_starts_at(s, p) && p < i + 1 implies line_is_comment(
                s,
                p,
            ) by {
                if p > line_start {
                    assert(s[p - 1] != '\n');
                }
            }
            line_start = i + 1;
            has_hash = false;
        } else if c == '#' {
            has_hash = true;
        }
        i += 1;
    }
    proof {
        lemma_field_end(s, line_start as int, '\n');
        assert(field_end(s, line_start as int, '\n') == n);
        if line_start < n {
            assert(line_starts_at(s, line_start as int));
        }
        if has_hash || line_start >= n {
            assert forall|p: int| #[trigger] line_starts_at(s, p) implies line_is_comment(s, p) by {
                if p > line_start {
                    assert(s[p - 1] != '\n');
                }
            }
        }
    }
    has_hash || line_start >= n
}

/// Refuses a configuration text that sets nothing, unless the command line
/// sets something.
pub fn check_config_text(contents: &str, cli_args_used: bool) -> (checked: Result<(), Errors>)
    ensures
        checked is Err <==> !cli_args_used && only_comments(contents@),
        checked matches Err(error) ==> error == Errors::ConfigFileError(ConfigFileErrors::Empty),
{
    if !cli_args_used && config_is_blank(contents) {
        Err(Errors::ConfigFileError(ConfigFileErrors::Empty))
    } else {
        Ok(())
    }
}

/// Whether each of the texts spells a time.
pub open spec fn all_parse(texts: Seq<Seq<char>>) -> bool {
    forall|i: int| 0 <= i < texts.len() ==> Time::parsed(#[trigger] texts[i]) is Some
}

/// Reads the times of a configuration file.
pub fn parse_times(texts: &Vec<String>) -> (parsed: Result<Vec<Time>, Errors>)
    ensures
        parsed is Ok <==> all_parse(texts.deep_view()),
        match parsed {
            Ok(times) => times.len() == texts.len() && forall|i: int|
                0 <= i < texts.len() ==> Time::parsed(texts.deep_view()[i]) == Some(
                    #[trigger] times[i],
                ),
            Err(error) => error == Errors::ConfigFileError(ConfigFileErrors::FormattingError),
        },
{
    let mut times: Vec<Time> = Vec::new();
    let mut i: usize = 0;
    while i < texts.len()
        invariant
            0 <= i <= texts.len(),
            times.len() == i,
            forall|j: int|
                0 <= j < i ==> Time::parsed(texts.deep_view()[j]) == Some(#[trigger] times[j]),
        decreases texts.len() - i,
    {
        assert(texts.deep_view()[i as int] == texts[i as int]@);
        match Time::parse(texts[i].as_str()) {
            Ok(time) => {
                times.push(time);
            },
            Err(error) => {
                return Err(error);
            },
        }
        i += 1;
    }
    assert forall|j: int| 0 <= j < texts.len() implies Time::parsed(
        #[trigger] texts.deep_view()[j],
    ) is Some by {
        assert(Time::parsed(texts.deep_view()[j]) == Some(times[j]));
    }
    Ok(times)
}

impl Times {
    /// Reads the times, where there are any.
    pub fn parse(&self) -> (parsed: Result<Option<Vec<Time>>, Errors>)
        ensures
            match self.times {
                None => parsed == Ok::<Option<Vec<Time>>, Errors>(None),
                Some(texts) => match parsed {
                    Ok(times) => times is Some && all_parse(texts.deep_view()) && times->0.len()
                        == texts.len() && forall|i: int|
                        0 <= i < texts.len() ==> Time::parsed(texts.deep_view()[i]) == Some(
                            #[trigger] times->0[i],
                        ),
                    Err(error) => !all_parse(texts.deep_view()) && error == Errors::ConfigFileError(
                        ConfigFileErrors::FormattingError,
                    ),
                },
            },
    {
        match &self.times {
            None => Ok(None),
            Some(texts) => match parse_times(texts) {
                Ok(times) => Ok(Some(times)),
                Err(error) => Err(error),
            },
        }
    }
}

} // verus!
