//! Builders of boundary sequences: an even split of the day, and a split
//! that follows sunrise and sunset.

use crate::errors::{Errors, ErrorsView};
use crate::time_track::{Time, FULL_DAY_MINS};
use crate::validate::{
    lemma_accepts_well_formed, lemma_wrap_order, minutes, verdict, well_formed, wraps_at,
};
use vstd::prelude::*;

verus! {

/// The minutes between two boundaries where `count` images share the day
/// evenly: the day divided by `count`, rounded down.
pub open spec fn even_step(count: nat) -> int
    recommends
        count > 0,
{
    1440int / (count as int)
}

/// The boundaries of an even split: one per image, the first at midnight,
/// each a step after the one before.
#[verifier::opaque]
pub open spec fn even_boundaries(count: nat) -> Seq<int> {
    Seq::new(count, |i: int| i * even_step(count))
}

/// Whether `count` images can share the day evenly to the minute.
pub open spec fn divides_day(count: nat) -> bool {
    count != 0 && 1440int % (count as int) == 0
}

/// Whether each of the times is split into hours and minutes as its total
/// gives them.
pub open spec fn all_normalized(times: Seq<Time>) -> bool {
    forall|i: int| 0 <= i < times.len() ==> (#[trigger] times[i]).normalized()
}

/// The step of an even split of the day among the `dir_count` images of
/// `dir`, and the time at which the split starts. There is no step for a
/// directory without images.
pub fn auto_time_setup(dir: &str, dir_count: usize) -> (setup: (Result<Time, Errors>, Time))
    ensures
        setup.1 == Time::of_minutes(0),
        match setup.0 {
            Ok(step) => dir_count > 0 && step == Time::of_minutes(
                even_step(dir_count as nat) as u32,
            ),
            Err(error) => dir_count == 0 && error@ == ErrorsView::NoFilesFoundError(dir@),
        },
{
    let step_time = if dir_count == 0 {
        Err(Errors::NoFilesFoundError(String::from_str(dir)))
    } else {
        Ok(Time::new((FULL_DAY_MINS as usize / dir_count) as u32))
    };
    (step_time, Time::default())
}

/// Builds the boundaries of an even split among `dir_count` images.
pub fn even_split(dir_count: usize) -> (times: Vec<Time>)
    requires
        dir_count > 0,
    ensures
        minutes(times@) == even_boundaries(dir_count as nat),
        all_normalized(times@),
{
    let step = (FULL_DAY_MINS as usize / dir_count) as u32;
    let step_time = Time::new(step);
    let mut loop_time = Time::default();
    let mut times: Vec<Time> = Vec::new();
    let mut i: usize = 0;
    while i < dir_count
        invariant
            0 <= i <= dir_count,
            dir_count > 0,
            step == even_step(dir_count as nat),
            step_time == Time::of_minutes(step),
            times.len() == i,
            loop_time == Time::of_minutes((i * step) as u32),
            i * step <= 1440,
            forall|j: int|
                0 <= j < i ==> (#[trigger] times[j])@ == j * step && times[j].normalized(),
        decreases dir_count - i,
    {
        times.push(loop_time);
        proof {
            lemma_step_stays_in_day(dir_count as nat, i + 1);
            assert((i + 1) * step == i * step + step) by (nonlinear_arith);
        }
        loop_time = loop_time + step_time;
        i += 1;
    }
    assert(minutes(times@) =~= even_boundaries(dir_count as nat)) by {
        reveal(even_boundaries);
    }
    times
}

/// Builds the boundaries for a directory of `dir_count` images for which
/// no times are configured. This is possible only where the images share
/// the day evenly to the minute.
pub fn even_schedule(dir_count: usize) -> (schedule: Result<Vec<Time>, Errors>)
    ensures
        schedule is Ok <==> divides_day(dir_count as nat),
        match schedule {
            Ok(times) => minutes(times@) == even_boundaries(dir_count as nat) && all_normalized(
                times@,
            ),
            Err(error) => error == Errors::CountCompatError(dir_count),
        },
{
    if dir_count == 0 || FULL_DAY_MINS as usize % dir_count != 0 {
        Err(Errors::CountCompatError(dir_count))
    } else {
        Ok(even_split(dir_count))
    }
}

/// No more than `count` even steps fit into the day.
pub proof fn lemma_step_stays_in_day(count: nat, i: int)
    requires
        count > 0,
        0 <= i <= count,
    ensures
        0 <= i * even_step(count) <= 1440,
        count * even_step(count) + 1440int % (count as int) == 1440,
{
    let step = even_step(count);
    vstd::arithmetic::div_mod::lemma_fundamental_div_mod(1440, count as int);
    assert(0 <= 1440int % (count as int));
    assert(count * step == (count as int) * (1440int / (count as int)));
    assert(step >= 0) by {
        vstd::arithmetic::div_mod::lemma_div_pos_is_pos(1440, count as int);
    }
    assert(i * step <= count * step) by (nonlinear_arith)
        requires
            0 <= i <= count,
            step >= 0,
    ;
    assert(0 <= i * step) by (nonlinear_arith)
        requires
            0 <= i,
            step >= 0,
    ;
}

/// The boundary of image `i` in an even split among `count` images lies
/// `i` steps after midnight, a step or more before the end of the day.
proof fn lemma_even_boundary(count: nat, i: int)
    requires
        0 < count,
        0 <= i < count,
    ensures
        even_step(count) >= 0,
        count <= 1440 ==> even_step(count) >= 1,
        count > 1440 ==> even_step(count) == 0,
        even_boundaries(count).len() == count,
        even_step(count) == 0 ==> even_boundaries(count)[i] == 0,
        0 <= even_boundaries(count)[i],
        even_boundaries(count)[i] + even_step(count) <= 1440,
        i == 0 ==> even_boundaries(count)[i] == 0,
        i + 1 < count ==> even_boundaries(count)[i] + even_step(count) == even_boundaries(
            count,
        )[i + 1],
        i + 1 == count ==> even_boundaries(count)[i] + even_step(count) + 1440int % (
        count as int) == 1440,
{
    reveal(even_boundaries);
    let step = even_step(count);
    lemma_step_stays_in_day(count, i);
    lemma_step_stays_in_day(count, i + 1);
    lemma_step_stays_in_day(count, 1);
    assert(1 * step == step) by (nonlinear_arith);
    if count > 1440 {
        vstd::arithmetic::div_mod::lemma_basic_div(1440, count as int);
    }
    if count <= 1440 {
        vstd::arithmetic::div_mod::lemma_div_is_ordered(count as int, 1440, count as int);
        vstd::arithmetic::div_mod::lemma_div_basics(count as int);
    }
    assert((i + 1) * step == i * step + step) by (nonlinear_arith);
    if i == 0 {
        assert(0 * step == 0) by (nonlinear_arith);
    }
    if step == 0 {
        assert(i * 0 == 0) by (nonlinear_arith);
    }
}

/// The boundary of image `i` in an even split lies `i` steps after
/// midnight.
pub proof fn lemma_even_boundary_is_a_multiple(count: nat, i: int)
    requires
        0 <= i < count,
    ensures
        even_boundaries(count).len() == count,
        even_boundaries(count)[i] == i * even_step(count),
{
    reveal(even_boundaries);
}

/// An even split among any number of images has one boundary per image,
/// starts at midnight, stays within the day, never falls, and covers the
/// day but for the remainder of the division: one step past the last
/// boundary lies that remainder before the end of the day.
pub proof fn lemma_even_split_covers_day(count: nat)
    requires
        0 < count,
    ensures
        even_boundaries(count).len() == count,
        even_boundaries(count)[0] == 0,
        forall|i: int| 0 <= i < count ==> 0 <= #[trigger] even_boundaries(count)[i] < 1440,
        forall|i: int|
            1 <= i < count ==> even_boundaries(count)[i - 1] <= #[trigger] even_boundaries(
                count,
            )[i],
        even_boundaries(count)[count - 1] + even_step(count) + 1440int % (count as int) == 1440,
{
    let b = even_boundaries(count);
    lemma_even_boundary(count, 0);
    lemma_even_boundary(count, count - 1);
    assert forall|i: int| 0 <= i < count implies 0 <= #[trigger] b[i] < 1440 by {
        lemma_even_boundary(count, i);
    }
    assert forall|i: int| 1 <= i < count implies b[i - 1] <= #[trigger] b[i] by {
        lemma_even_boundary(count, i - 1);
    }
}

/// An even split among no more than 1440 images rises strictly, each
/// boundary a step of one minute or more after the one before, and is well
/// formed.
pub proof fn lemma_even_split_rises(count: nat)
    requires
        0 < count <= 1440,
    ensures
        even_step(count) >= 1,
        even_boundaries(count).len() == count,
        forall|i: int, j: int|
            0 <= i < j < count ==> #[trigger] even_boundaries(count)[i]
                < #[trigger] even_boundaries(count)[j],
        well_formed(even_boundaries(count)),
{
    let b = even_boundaries(count);
    lemma_even_boundary(count, 0);
    assert forall|i: int| 1 <= i < b.len() && i != count implies b[i - 1] < #[trigger] b[i] by {
        lemma_even_boundary(count, i - 1);
    }
    assert(wraps_at(b, count as int));
    assert forall|i: int| 0 <= i < b.len() implies 0 <= #[trigger] b[i] < 1440 by {
        lemma_even_boundary(count, i);
    }
    lemma_wrap_order(b, count as int);
}

/// The validator accepts the even split of a directory whose images share
/// the day evenly.
pub proof fn lemma_even_split_is_valid(times: Seq<Time>, count: nat)
    requires
        divides_day(count),
        minutes(times) == even_boundaries(count),
    ensures
        verdict(times, count, false) == Ok::<Time, Errors>(times[0]),
{
    assert(count <= 1440) by {
        if count > 1440 {
            vstd::arithmetic::div_mod::lemma_small_mod(1440, count);
        }
    }
    assert(well_formed(minutes(times)) && times.len() == count) by {
        lemma_even_split_rises(count);
        assert(times.len() == minutes(times).len());
    }
    lemma_accepts_well_formed(times, count, false);
}

/// The minutes between two boundaries of the day part: the time from
/// sunrise to sunset divided by the number of day images, rounded down.
pub open spec fn day_step(sunrise: int, sunset: int, day_count: int) -> int {
    (sunset - sunrise) / day_count
}

/// The minutes between two boundaries of the night part: the rest of the
/// day divided by the number of night images, rounded down.
pub open spec fn night_step(sunrise: int, sunset: int, night_count: int) -> int {
    (1440 - (sunset - sunrise)) / night_count
}

/// Whether a split by the sun exists: sunrise is not after sunset, both lie
/// within the day, and neither part has more images than minutes.
pub open spec fn sun_split_defined(sunrise: int, sunset: int, day_count: int, night_count: int)
    -> bool {
    &&& 0 <= sunrise <= sunset <= 1440
    &&& 0 < day_count <= sunset - sunrise
    &&& 0 < night_count <= 1440 - (sunset - sunrise)
}

/// A number of minutes below two days, taken back into the day.
pub open spec fn within_day(mins: int) -> int {
    if mins >= 1440 {
        mins - 1440
    } else {
        mins
    }
}

/// The boundaries of the day part: the times from sunrise on in day steps
/// that lie a day step or more before sunset.
pub open spec fn day_boundaries(sunrise: int, sunset: int, day_count: int) -> Seq<int> {
    let step = day_step(sunrise, sunset, day_count);
    Seq::new(((sunset - sunrise) / step) as nat, |i: int| sunrise + i * step)
}

/// The boundaries of the night part: from sunset on in night steps, as many
/// as lie before the next sunrise, each taken back into the day.
pub open spec fn night_boundaries(sunrise: int, sunset: int, night_count: int) -> Seq<int> {
    let step = night_step(sunrise, sunset, night_count);
    let night = 1440 - (sunset - sunrise);
    Seq::new(((night + step - 1) / step) as nat, |j: int| within_day(sunset + j * step))
}

/// The distance between two numbers.
pub open spec fn distance(a: int, b: int) -> int {
    if a >= b {
        a - b
    } else {
        b - a
    }
}

/// The boundaries of a split by the sun: the day part, then the night part,
/// without the last boundary where it lies less than a night step from
/// sunrise.
pub open spec fn sun_boundaries(sunrise: int, sunset: int, day_count: int, night_count: int)
    -> Seq<int> {
    let all = day_boundaries(sunrise, sunset, day_count) + night_boundaries(
        sunrise,
        sunset,
        night_count,
    );
    if distance(sunrise, all.last()) < night_step(sunrise, sunset, night_count) {
        all.drop_last()
    } else {
        all
    }
}

/// A number that lies between two neighbouring multiples of a step has the
/// lower multiplier as its quotient by the step.
proof fn lemma_quotient_between(x: int, step: int, q: int)
    requires
        step > 0,
        q * step <= x < (q + 1) * step,
    ensures
        x / step == q,
{
    assert((q + 1) * step == q * step + step) by (nonlinear_arith);
    vstd::arithmetic::div_mod::lemma_fundamental_div_mod_converse(x, step, q, x - q * step);
}

/// Builds the boundaries of a split by the sun for a directory `dir` whose
/// `day` part holds `dir_count_day` images and whose `night` part holds
/// `dir_count_night`.
pub fn sun_timings(
    dir: &str,
    sunrise: Time,
    sunset: Time,
    dir_count_day: u32,
    dir_count_night: u32,
) -> (timings: Result<Vec<Time>, Errors>)
    requires
        dir_count_day > 0 && dir_count_night > 0 ==> sun_split_defined(
            sunrise@,
            sunset@,
            dir_count_day as int,
            dir_count_night as int,
        ),
    ensures
        timings is Ok <==> dir_count_day > 0 && dir_count_night > 0,
        match timings {
            Ok(times) => minutes(times@) == sun_boundaries(
                sunrise@,
                sunset@,
                dir_count_day as int,
                dir_count_night as int,
            ) && all_normalized(times@),
            Err(error) => error@ == ErrorsView::NoFilesFoundError(
                dir@ + (if dir_count_day == 0 {
                    "/day"@
                } else {
                    "/night"@
                }),
            ),
        },
{
    if dir_count_day == 0 {
        let mut dir_day = String::from_str(dir);
        dir_day.append("/day");
        return Err(Errors::NoFilesFoundError(dir_day));
    } else if dir_count_night == 0 {
        let mut dir_night = String::from_str(dir);
        dir_night.append("/night");
        return Err(Errors::NoFilesFoundError(dir_night));
    }
    let ghost rise = sunrise@;
    let ghost set = sunset@;
    let ghost step_day = day_step(rise, set, dir_count_day as int);
    let ghost step_night = night_step(rise, set, dir_count_night as int);
    let ghost night = 1440 - (set - rise);
    let full_day = Time::full_day();
    let sunrise = Time::new(sunrise.total_mins);
    let sunset = Time::new(sunset.total_mins);
    let step_time_day = Time::new((sunset.total_mins - sunrise.total_mins) / dir_count_day);
    let step_time_night = Time::new(
        (FULL_DAY_MINS - (sunset.total_mins - sunrise.total_mins)) / dir_count_night,
    );
    proof {
        lemma_step_of_part(set - rise, dir_count_day as int);
        lemma_step_of_part(night, dir_count_night as int);
    }
    assert(1 <= step_day <= set - rise);
    assert(1 <= step_night <= night);
    let mut times: Vec<Time> = Vec::new();
    let mut loop_time_day = sunrise;
    assert(times.len() * step_day == 0) by (nonlinear_arith)
        requires
            times.len() == 0,
    ;
    while loop_time_day <= sunset
        invariant
            0 <= rise <= set <= 1440,
            1 <= step_day <= set - rise,
            sunrise == Time::of_minutes(rise as u32),
            sunset == Time::of_minutes(set as u32),
            full_day == Time::of_minutes(1440),
            step_time_day == Time::of_minutes(step_day as u32),
            loop_time_day == Time::of_minutes((rise + times.len() * step_day) as u32),
            rise + times.len() * step_day <= set + step_day,
            times.len() > 0 ==> rise + (times.len() - 1) * step_day <= set,
            all_normalized(times@),
            forall|i: int|
                0 <= i < times.len() ==> (#[trigger] times[i])@ == within_day(rise + i * step_day),
        decreases set + step_day - (rise + times.len() * step_day),
    {
        let ghost count = times.len() as int;
        if loop_time_day >= full_day {
            times.push(loop_time_day - full_day);
        } else {
            times.push(loop_time_day);
        }
        assert((count + 1) * step_day == count * step_day + step_day) by (nonlinear_arith);
        loop_time_day = loop_time_day + step_time_day;
    }
    let ghost pushed = times.len() as int;
    assert(pushed > 0);
    times.pop();
    let ghost days = times.len() as int;
    proof {
        assert((days + 1) * step_day == days * step_day + step_day) by (nonlinear_arith);
        lemma_quotient_between(set - rise, step_day, days);
        assert forall|i: int| 0 <= i < days implies (#[trigger] times[i])@ == rise + i
            * step_day by {
            assert(i * step_day + step_day <= days * step_day) by (nonlinear_arith)
                requires
                    0 <= i < days,
                    step_day >= 1,
            ;
            assert(0 <= i * step_day) by (nonlinear_arith)
                requires
                    0 <= i,
                    step_day >= 1,
            ;
        }
        assert(minutes(times@) =~= day_boundaries(rise, set, dir_count_day as int));
    }
    let mut loop_time_night = sunset;
    let next_sunrise = sunrise + full_day;
    assert((times.len() - days) * step_night == 0) by (nonlinear_arith)
        requires
            times.len() - days == 0,
    ;
    while loop_time_night < next_sunrise
        invariant
            0 <= rise <= set <= 1440,
            night == 1440 - (set - rise),
            1 <= step_night <= night,
            0 <= days <= times.len(),
            next_sunrise == Time::of_minutes((rise + 1440) as u32),
            full_day == Time::of_minutes(1440),
            step_time_night == Time::of_minutes(step_night as u32),
            loop_time_night == Time::of_minutes((set + (times.len() - days) * step_night) as u32),
            (times.len() - days) * step_night < night + step_night,
            times.len() > days ==> (times.len() - days - 1) * step_night < night,
            all_normalized(times@),
            minutes(times@).take(days) == day_boundaries(rise, set, dir_count_day as int),
            forall|i: int|
                days <= i < times.len() ==> (#[trigger] times[i])@ == within_day(
                    set + (i - days) * step_night,
                ),
        decreases night + step_night - (times.len() - days) * step_night,
    {
        let ghost count = times.len() - days;
        let ghost before = minutes(times@);
        assert(0 <= count * step_night) by (nonlinear_arith)
            requires
                0 <= count,
                step_night >= 1,
        ;
        if loop_time_night >= full_day {
            times.push(loop_time_night - full_day);
        } else {
            times.push(loop_time_night);
        }
        assert((count + 1) * step_night == count * step_night + step_night) by (nonlinear_arith);
        assert(minutes(times@).take(days) =~= before.take(days));
        loop_time_night = loop_time_night + step_time_night;
    }
    let ghost nights = times.len() - days;
    proof {
        assert(nights > 0);
        assert((nights - 1 + 1) * step_night == (nights - 1) * step_night + step_night)
            by (nonlinear_arith);
        assert((nights + 1) * step_night == nights * step_night + step_night) by (nonlinear_arith);
        lemma_quotient_between(night + step_night - 1, step_night, nights);
        let all = day_boundaries(rise, set, dir_count_day as int) + night_boundaries(
            rise,
            set,
            dir_count_night as int,
        );
        assert(minutes(times@) =~= all) by {
            assert(minutes(times@).len() == all.len());
            assert forall|i: int| 0 <= i < all.len() implies minutes(times@)[i] == all[i] by {
                if i < days {
                    assert(minutes(times@).take(days)[i] == minutes(times@)[i]);
                }
            }
        }
    }
    let last = times[times.len() - 1];
    let away = if sunrise.total_mins >= last.total_mins {
        sunrise.total_mins - last.total_mins
    } else {
        last.total_mins - sunrise.total_mins
    };
    if away < step_time_night.total_mins {
        let ghost all = minutes(times@);
        times.pop();
        assert(minutes(times@) =~= all.drop_last());
    }
    Ok(times)
}


/// Every boundary of a split by the sun lies within the day, and the first
/// of them is sunrise.
pub proof fn lemma_sun_split_in_day(sunrise: int, sunset: int, day_count: int, night_count: int)
    requires
        sun_split_defined(sunrise, sunset, day_count, night_count),
    ensures
        sun_boundaries(sunrise, sunset, day_count, night_count).len() >= 1,
        sun_boundaries(sunrise, sunset, day_count, night_count)[0] == sunrise,
        forall|i: int|
            0 <= i < sun_boundaries(sunrise, sunset, day_count, night_count).len() ==> 0
                <= #[trigger] sun_boundaries(sunrise, sunset, day_count, night_count)[i] < 1440,
{
    let day = day_boundaries(sunrise, sunset, day_count);
    let night = night_boundaries(sunrise, sunset, night_count);
    lemma_day_part_in_day(sunrise, sunset, day_count, 0);
    lemma_night_part_in_day(sunrise, sunset, night_count, 0);
    assert forall|i: int| 0 <= i < (day + night).len() implies 0 <= #[trigger] (day + night)[i]
        < 1440 by {
        if i < day.len() {
            lemma_day_part_in_day(sunrise, sunset, day_count, i);
        } else {
            lemma_night_part_in_day(sunrise, sunset, night_count, i - day.len());
        }
    }
}

/// The day part of a split by the sun is not empty, starts at sunrise, and
/// stays before sunset.
proof fn lemma_day_part_in_day(sunrise: int, sunset: int, day_count: int, i: int)
    requires
        0 <= sunrise <= sunset <= 1440,
        0 < day_count <= sunset - sunrise,
        0 <= i < day_boundaries(sunrise, sunset, day_count).len() || i == 0,
    ensures
        day_boundaries(sunrise, sunset, day_count).len() >= 1,
        i < day_boundaries(sunrise, sunset, day_count).len(),
        day_boundaries(sunrise, sunset, day_count)[0] == sunrise,
        sunrise <= day_boundaries(sunrise, sunset, day_count)[i] < sunset,
{
    let length = sunset - sunrise;
    let step = day_step(sunrise, sunset, day_count);
    lemma_step_of_part(length, day_count);
    let count = length / step;
    vstd::arithmetic::div_mod::lemma_fundamental_div_mod(length, step);
    vstd::arithmetic::div_mod::lemma_div_is_ordered(step, length, step);
    vstd::arithmetic::div_mod::lemma_div_basics(step);
    assert(0 * step == 0) by (nonlinear_arith);
    assert(0 <= i * step && i * step + step <= step * count) by (nonlinear_arith)
        requires
            0 <= i < count,
            step >= 1,
    ;
}

/// The night part of a split by the sun is not empty, and each of its
/// boundaries lies within the day.
proof fn lemma_night_part_in_day(sunrise: int, sunset: int, night_count: int, j: int)
    requires
        0 <= sunrise <= sunset <= 1440,
        0 < night_count <= 1440 - (sunset - sunrise),
        0 <= j < night_boundaries(sunrise, sunset, night_count).len() || j == 0,
    ensures
        night_boundaries(sunrise, sunset, night_count).len() >= 1,
        j < night_boundaries(sunrise, sunset, night_count).len(),
        0 <= night_boundaries(sunrise, sunset, night_count)[j] < 1440,
{
    let length = 1440 - (sunset - sunrise);
    let step = night_step(sunrise, sunset, night_count);
    lemma_step_of_part(length, night_count);
    let count = (length + step - 1) / step;
    vstd::arithmetic::div_mod::lemma_fundamental_div_mod(length + step - 1, step);
    vstd::arithmetic::div_mod::lemma_div_is_ordered(step, length + step - 1, step);
    vstd::arithmetic::div_mod::lemma_div_basics(step);
    assert(count >= 1);
    assert(0 <= j * step && j * step + step <= step * count) by (nonlinear_arith)
        requires
            0 <= j < count,
            step >= 1,
    ;
}

/// The step of a part of the day that has no more images than minutes is
/// a minute or more, and no longer than the part.
proof fn lemma_step_of_part(length: int, count: int)
    requires
        0 < count <= length,
    ensures
        1 <= length / count <= length,
{
    vstd::arithmetic::div_mod::lemma_div_is_ordered(count, length, count);
    vstd::arithmetic::div_mod::lemma_div_basics(count);
    vstd::arithmetic::div_mod::lemma_div_is_ordered_by_denominator(length, 1, count);
    vstd::arithmetic::div_mod::lemma_div_basics(length);
}

/// Tests whether a split by the sun exists for these times and counts.
pub fn sun_split_possible(sunrise: Time, sunset: Time, dir_count_day: u32, dir_count_night: u32)
    -> (possible: bool)
    ensures
        possible == sun_split_defined(
            sunrise@,
            sunset@,
            dir_count_day as int,
            dir_count_night as int,
        ),
{
    sunrise.total_mins <= sunset.total_mins && sunset.total_mins <= FULL_DAY_MINS && 0
        < dir_count_day && dir_count_day <= sunset.total_mins - sunrise.total_mins && 0
        < dir_count_night && dir_count_night <= FULL_DAY_MINS - (sunset.total_mins
        - sunrise.total_mins)
}

/// Builds the boundaries of a split by the sun where such a split exists,
/// and reports an empty part of the directory. There is neither a split
/// nor a report where both parts hold images and sunrise lies after
/// sunset, or a part has more images than minutes.
pub fn try_sun_timings(
    dir: &str,
    sunrise: Time,
    sunset: Time,
    dir_count_day: u32,
    dir_count_night: u32,
) -> (timings: Option<Result<Vec<Time>, Errors>>)
    ensures
        timings is None <==> dir_count_day > 0 && dir_count_night > 0 && !sun_split_defined(
            sunrise@,
            sunset@,
            dir_count_day as int,
            dir_count_night as int,
        ),
        timings matches Some(found) ==> (found is Ok <==> dir_count_day > 0 && dir_count_night
            > 0) && (match found {
            Ok(times) => minutes(times@) == sun_boundaries(
                sunrise@,
                sunset@,
                dir_count_day as int,
                dir_count_night as int,
            ) && all_normalized(times@),
            Err(error) => error@ == ErrorsView::NoFilesFoundError(
                dir@ + (if dir_count_day == 0 {
                    "/day"@
                } else {
                    "/night"@
                }),
            ),
        }),
{
    if dir_count_day > 0 && dir_count_night > 0 && !sun_split_possible(
        sunrise,
        sunset,
        dir_count_day,
        dir_count_night,
    ) {
        None
    } else {
        Some(sun_timings(dir, sunrise, sunset, dir_count_day, dir_count_night))
    }
}

/// Settles the boundaries of a run for a directory of `dir_count` images.
/// A rotation by days has midnight as its one boundary. Otherwise the
/// times that are set are taken as they are, and where none are set the
/// images share the day evenly, if they can.
pub fn settle_times(days: Option<u32>, times: Option<Vec<Time>>, dir_count: usize) -> (settled:
    Result<Vec<Time>, Errors>)
    ensures
        days is Some ==> settled is Ok && settled->Ok_0@ == seq![Time::of_minutes(0)],
        days is None && times is Some ==> settled == Ok::<Vec<Time>, Errors>(times->0),
        days is None && times is None ==> (settled is Ok <==> divides_day(dir_count as nat)) && (
        match settled {
            Ok(even) => minutes(even@) == even_boundaries(dir_count as nat) && all_normalized(
                even@,
            ),
            Err(error) => error == Errors::CountCompatError(dir_count),
        }),
{
    if days.is_some() {
        let mut only: Vec<Time> = Vec::new();
        only.push(Time::default());
        assert(only@ =~= seq![Time::of_minutes(0)]);
        Ok(only)
    } else {
        match times {
            Some(set) => Ok(set),
            None => even_schedule(dir_count),
        }
    }
}

} // verus!
