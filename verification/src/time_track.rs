//! A minute-of-day value with its arithmetic, ordering, parsing and formatting.

use crate::errors::{ConfigFileErrors, Errors};
use crate::text::{
    chars_of, decimal_text, field_end, find_field_end, is_digit, lemma_digits_are_parsed,
    lemma_field_ends_at, lemma_two_digit_text_is_read_back, parse_u32, parsed_u32, push_decimal,
    push_two_digits, two_digit_text,
};
use std::cmp::Ordering;
use std::ops::{Add, Sub};
use std::str::FromStr;
use vstd::prelude::*;
use vstd::std_specs::cmp::{PartialEqSpecImpl, PartialOrdSpecImpl};
use vstd::std_specs::ops::{AddSpecImpl, SubSpecImpl};

verus! {

/// Minutes in an hour.
pub const HOUR_MINS: u32 = 60;

/// Minutes in a day: the upper sentinel of a day's boundaries.
pub const FULL_DAY_MINS: u32 = 1440;

/// A number of minutes, kept together with its split into hours and minutes.
#[derive(Copy, Clone, Debug)]
pub struct Time {
    pub total_mins: u32,
    pub hours: u32,
    pub mins: u32,
}

impl View for Time {
    type V = int;

    /// A time stands for its total of minutes.
    open spec fn view(&self) -> int {
        self.total_mins as int
    }
}

impl Time {
    /// The time of `total_mins` minutes, split into whole hours and the rest.
    pub open spec fn of_minutes(total_mins: u32) -> Time {
        Time { total_mins, hours: total_mins / 60, mins: total_mins % 60 }
    }

    /// Whether the hour and minute fields are those that the total gives.
    pub open spec fn normalized(self) -> bool {
        self == Time::of_minutes(self.total_mins)
    }

    /// Builds the time of `total_mins` minutes. No bound is set on the
    /// total: a sum may pass the end of the day before it is taken back.
    pub fn new(total_mins: u32) -> (time: Time)
        ensures
            time == Time::of_minutes(total_mins),
    {
        Time { total_mins, hours: total_mins / HOUR_MINS, mins: total_mins % HOUR_MINS }
    }

    /// The time of an hour field and a minute field that were read from a
    /// text. The fields are kept as they were read. There is none where both
    /// are past their range, nor where the total of minutes does not fit.
    pub open spec fn of_fields(hours: u32, mins: u32) -> Option<Time> {
        if (mins >= 60 && hours >= 24) || hours * 60 + mins > u32::MAX {
            None
        } else {
            Some(Time { total_mins: (hours * 60 + mins) as u32, hours, mins })
        }
    }

    /// The time that `text` spells: an hour field, a colon and a minute
    /// field, each read as `u32`. What follows a second colon is not read.
    pub open spec fn parsed(text: Seq<char>) -> Option<Time> {
        let colon = field_end(text, 0, ':');
        let end = field_end(text, colon + 1, ':');
        if colon >= text.len() {
            None
        } else {
            match (parsed_u32(text.subrange(0, colon)), parsed_u32(text.subrange(colon + 1, end))) {
                (Some(hours), Some(mins)) => Time::of_fields(hours, mins),
                _ => None,
            }
        }
    }

    /// The time on a twelve-hour clock: the hour without padding, the
    /// minutes on two digits, then the half of the day.
    pub open spec fn twelve_hour_text(self) -> Seq<char> {
        if self.hours == 0 {
            "12"@ + ":"@ + two_digit_text(self.mins as nat) + " a.m."@
        } else if self.hours <= 11 {
            decimal_text(self.hours as nat) + ":"@ + two_digit_text(self.mins as nat) + " a.m."@
        } else if self.hours == 12 {
            "12"@ + ":"@ + two_digit_text(self.mins as nat) + " p.m."@
        } else {
            decimal_text((self.hours - 12) as nat) + ":"@ + two_digit_text(self.mins as nat)
                + " p.m."@
        }
    }

    /// The time on a twenty-four-hour clock, hour and minutes on two digits.
    pub open spec fn clock_text(self) -> Seq<char> {
        two_digit_text(self.hours as nat) + ":"@ + two_digit_text(self.mins as nat)
    }

    /// Builds a time from an hour field and a minute field.
    pub fn from_fields(hours: u32, mins: u32) -> (time: Result<Time, Errors>)
        ensures
            match time {
                Ok(t) => Time::of_fields(hours, mins) == Some(t),
                Err(e) => Time::of_fields(hours, mins) is None && e == Errors::ConfigFileError(
                    ConfigFileErrors::FormattingError,
                ),
            },
    {
        if mins >= 60 && hours >= 24 {
            return Err(Errors::ConfigFileError(ConfigFileErrors::FormattingError));
        }
        let total = hours as u64 * 60 + mins as u64;
        if total > u32::MAX as u64 {
            return Err(Errors::ConfigFileError(ConfigFileErrors::FormattingError));
        }
        Ok(Time { total_mins: total as u32, hours, mins })
    }

    /// Reads a time written as hours, a colon and minutes.
    pub fn parse(time_str: &str) -> (time: Result<Time, Errors>)
        ensures
            match time {
                Ok(t) => Time::parsed(time_str@) == Some(t),
                Err(e) => Time::parsed(time_str@) is None && e == Errors::ConfigFileError(
                    ConfigFileErrors::FormattingError,
                ),
            },
    {
        let chars = chars_of(time_str);
        let colon = find_field_end(&chars, 0, ':');
        if colon >= chars.len() {
            return Err(Errors::ConfigFileError(ConfigFileErrors::FormattingError));
        }
        let end = find_field_end(&chars, colon + 1, ':');
        let hours = parse_u32(&chars, 0, colon);
        let mins = parse_u32(&chars, colon + 1, end);
        match (hours, mins) {
            (Some(hours), Some(mins)) => Time::from_fields(hours, mins),
            _ => Err(Errors::ConfigFileError(ConfigFileErrors::FormattingError)),
        }
    }

    /// Writes the time as a twelve-hour clock shows it.
    pub fn twelve_hour(&self) -> (text: String)
        ensures
            text@ == self.twelve_hour_text(),
    {
        proof {
            reveal_strlit("12");
            reveal_with_fuel(decimal_text, 2);
            assert(decimal_text(12) =~= "12"@);
        }
        let mut text = String::new();
        if self.hours == 0 {
            text.append("12");
        } else if self.hours <= 12 {
            push_decimal(&mut text, self.hours as u64);
        } else {
            push_decimal(&mut text, (self.hours - 12) as u64);
        }
        text.append(":");
        push_two_digits(&mut text, self.mins as u64);
        if self.hours < 12 {
            text.append(" a.m.");
        } else {
            text.append(" p.m.");
        }
        assert(text@ =~= self.twelve_hour_text());
        text
    }

    /// Writes the time as a twenty-four-hour clock shows it.
    pub fn clock_label(&self) -> (text: String)
        ensures
            text@ == self.clock_text(),
    {
        let mut text = String::new();
        push_two_digits(&mut text, self.hours as u64);
        text.append(":");
        push_two_digits(&mut text, self.mins as u64);
        assert(text@ =~= self.clock_text());
        text
    }

    /// The time that lies `other` after this one.
    pub fn add_assign(&mut self, other: Time)
        requires
            old(self).total_mins + other.total_mins <= u32::MAX,
        ensures
            *final(self) == Time::of_minutes((old(self).total_mins + other.total_mins) as u32),
    {
        *self = Time::new(self.total_mins + other.total_mins);
    }

    /// The time that lies `other` before this one.
    pub fn sub_assign(&mut self, other: Time)
        requires
            other.total_mins <= old(self).total_mins,
        ensures
            *final(self) == Time::of_minutes((old(self).total_mins - other.total_mins) as u32),
    {
        *self = Time::new(self.total_mins - other.total_mins);
    }

    /// The start of the day.
    pub fn midnight() -> (time: Time)
        ensures
            time == Time::of_minutes(0),
    {
        Time::new(0)
    }

    /// The end of the day, one minute past the last boundary that is allowed.
    pub fn full_day() -> (time: Time)
        ensures
            time == Time::of_minutes(1440),
    {
        Time::new(FULL_DAY_MINS)
    }
}

impl FromStr for Time {
    type Err = Errors;

    /// Reads a time written as hours, a colon and minutes, as `Time::parse`
    /// does.
    fn from_str(time_str: &str) -> (time: Result<Time, Errors>)
        ensures
            match time {
                Ok(t) => Time::parsed(time_str@) == Some(t),
                Err(e) => Time::parsed(time_str@) is None && e == Errors::ConfigFileError(
                    ConfigFileErrors::FormattingError,
                ),
            },
    {
        Time::parse(time_str)
    }
}

impl Default for Time {
    /// Midnight.
    fn default() -> (time: Time)
        ensures
            time == Time::of_minutes(0),
    {
        Time { total_mins: 0, hours: 0, mins: 0 }
    }
}

impl PartialEq for Time {
    fn eq(&self, other: &Time) -> (same: bool) {
        self.total_mins == other.total_mins
    }
}

impl PartialEqSpecImpl for Time {
    open spec fn obeys_eq_spec() -> bool {
        true
    }

    /// Two times are equal where their totals of minutes are.
    open spec fn eq_spec(&self, other: &Time) -> bool {
        self.total_mins == other.total_mins
    }
}

impl PartialOrd for Time {
    fn partial_cmp(&self, other: &Time) -> (order: Option<Ordering>) {
        if self.total_mins < other.total_mins {
            Some(Ordering::Less)
        } else if self.total_mins == other.total_mins {
            Some(Ordering::Equal)
        } else {
            Some(Ordering::Greater)
        }
    }
}

impl PartialOrdSpecImpl for Time {
    open spec fn obeys_partial_cmp_spec() -> bool {
        true
    }

    /// Times are ordered as their totals of minutes are.
    open spec fn partial_cmp_spec(&self, other: &Time) -> Option<Ordering> {
        if self.total_mins < other.total_mins {
            Some(Ordering::Less)
        } else if self.total_mins == other.total_mins {
            Some(Ordering::Equal)
        } else {
            Some(Ordering::Greater)
        }
    }
}

impl Add for Time {
    type Output = Time;

    fn add(self, other: Time) -> (sum: Time) {
        Time::new(self.total_mins + other.total_mins)
    }
}

impl AddSpecImpl for Time {
    open spec fn obeys_add_spec() -> bool {
        true
    }

    open spec fn add_req(self, other: Time) -> bool {
        self.total_mins + other.total_mins <= u32::MAX
    }

    open spec fn add_spec(self, other: Time) -> Time {
        Time::of_minutes((self.total_mins + other.total_mins) as u32)
    }
}

impl Sub<Time> for Time {
    type Output = Time;

    fn sub(self, other: Time) -> (difference: Time) {
        Time::new(self.total_mins - other.total_mins)
    }
}

impl SubSpecImpl<Time> for Time {
    open spec fn obeys_sub_spec() -> bool {
        true
    }

    open spec fn sub_req(self, other: Time) -> bool {
        other.total_mins <= self.total_mins
    }

    open spec fn sub_spec(self, other: Time) -> Time {
        Time::of_minutes((self.total_mins - other.total_mins) as u32)
    }
}

impl Sub<u32> for Time {
    type Output = Time;

    fn sub(self, other: u32) -> (difference: Time) {
        Time::new(self.total_mins - other)
    }
}

impl SubSpecImpl<u32> for Time {
    open spec fn obeys_sub_spec() -> bool {
        true
    }

    open spec fn sub_req(self, other: u32) -> bool {
        other <= self.total_mins
    }

    open spec fn sub_spec(self, other: u32) -> Time {
        Time::of_minutes((self.total_mins - other) as u32)
    }
}

/// Building a time again from the total of a built time gives the same
/// hour and minute fields.
pub proof fn lemma_new_round_trip(total_mins: u32)
    ensures
        Time::of_minutes(Time::of_minutes(total_mins).total_mins) == Time::of_minutes(total_mins),
        Time::of_minutes(total_mins).normalized(),
        Time::of_minutes(total_mins).mins < 60,
        Time::of_minutes(total_mins).hours * 60 + Time::of_minutes(total_mins).mins == total_mins,
{
}

/// A time that is written as a twenty-four-hour clock shows it is read
/// back as the same time, fields and all.
pub proof fn lemma_clock_text_is_read_back(time: Time)
    requires
        time.hours * 60 + time.mins == time.total_mins,
        time.mins < 60 || time.hours < 24,
    ensures
        Time::parsed(time.clock_text()) == Some(time),
{
    reveal_strlit(":");
    let hours = two_digit_text(time.hours as nat);
    let mins = two_digit_text(time.mins as nat);
    let text = time.clock_text();
    lemma_two_digit_text_is_read_back(time.hours as nat);
    lemma_two_digit_text_is_read_back(time.mins as nat);
    assert(text =~= hours + seq![':'] + mins);
    let colon = hours.len() as int;
    assert(text[colon] == ':');
    assert forall|i: int| 0 <= i < colon implies #[trigger] text[i] != ':' by {
        assert(is_digit(hours[i]));
    }
    assert forall|i: int| colon + 1 <= i < text.len() implies #[trigger] text[i] != ':' by {
        assert(is_digit(mins[i - colon - 1]));
    }
    lemma_field_ends_at(text, 0, ':', colon);
    lemma_field_ends_at(text, colon + 1, ':', text.len() as int);
    assert(text.subrange(0, colon) =~= hours);
    assert(text.subrange(colon + 1, text.len() as int) =~= mins);
    lemma_digits_are_parsed(hours);
    lemma_digits_are_parsed(mins);
}

} // verus!
