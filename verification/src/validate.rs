//! The checks that a boundary sequence must pass before it is used.
//!
//! A sequence is read in order. It may cross midnight once: the times rise,
//! fall below the first one at the wrap point, and rise again without
//! reaching the first one.

use crate::errors::{ConfigFileErrors, Errors};
use crate::time_track::{Time, FULL_DAY_MINS};
use vstd::prelude::*;

verus! {

/// The totals of minutes of a sequence of times.
pub open spec fn minutes(times: Seq<Time>) -> Seq<int> {
    times.map_values(|time: Time| time@)
}

/// Whether a time before position `i` lies below the first one: the
/// sequence has crossed midnight by then.
pub open spec fn wrapped_before(s: Seq<int>, i: int) -> bool {
    exists|j: int| 0 <= j < i && #[trigger] s[j] < s[0]
}

/// Whether the time at position `i` also stands before that position.
pub open spec fn seen_before(s: Seq<int>, i: int) -> bool {
    exists|j: int| 0 <= j < i && #[trigger] s[j] == s[i]
}

/// Whether the time at position `i` breaks the order. Above the first time
/// it must not fall below its predecessor, and must not come after the wrap
/// point at all; below the first time it may open the part after midnight,
/// and within that part it must rise.
pub open spec fn order_fault(s: Seq<int>, i: int) -> bool {
    0 < i < s.len() && if s[i] > s[0] {
        if wrapped_before(s, i) {
            s[i] < 1440
        } else {
            s[i] < s[i - 1]
        }
    } else {
        s[i] < s[0] && wrapped_before(s, i) && s[i] <= s[i - 1]
    }
}

/// What is wrong with the time at position `i`, given those before it. Of
/// several faults the order comes first, then the range, then the duplicate.
pub open spec fn fault_at(s: Seq<int>, i: int) -> Option<ConfigFileErrors> {
    if order_fault(s, i) {
        Some(ConfigFileErrors::OutOfOrder)
    } else if s[i] >= 1440 {
        Some(ConfigFileErrors::OutOfRange)
    } else if seen_before(s, i) {
        Some(ConfigFileErrors::DuplicatesFound)
    } else {
        None
    }
}

/// The first position at or after `from` with a fault, or the length of the
/// sequence where there is none.
pub open spec fn first_fault_from(s: Seq<int>, from: int) -> int
    decreases s.len() - from,
{
    if from < 0 || from >= s.len() {
        s.len() as int
    } else if fault_at(s, from) is Some {
        from
    } else {
        first_fault_from(s, from + 1)
    }
}

/// The first position with a fault, or the length of the sequence.
pub open spec fn first_fault(s: Seq<int>) -> int {
    first_fault_from(s, 0)
}

/// The verdict on a boundary sequence for a directory of `dir_count`
/// images: `Empty` for no times; else the first fault; else
/// `FileTimeMismatch` where the counts differ and the images are not
/// rotated by days; else the first time.
pub open spec fn verdict(times: Seq<Time>, dir_count: nat, rotating: bool) -> Result<
    Time,
    Errors,
> {
    let s = minutes(times);
    if times.len() == 0 {
        Err(Errors::ConfigFileError(ConfigFileErrors::Empty))
    } else if first_fault(s) < s.len() {
        Err(Errors::ConfigFileError(fault_at(s, first_fault(s))->0))
    } else if times.len() != dir_count && !rotating {
        Err(Errors::ConfigFileError(ConfigFileErrors::FileTimeMismatch))
    } else {
        Ok(times[0])
    }
}

/// Whether every time rises above its predecessor, except at position `k`,
/// where the sequence wraps, and ends below its first time if it wraps at
/// all. With `k` the length of the sequence it does not wrap.
pub open spec fn wraps_at(s: Seq<int>, k: int) -> bool {
    &&& 1 <= k <= s.len()
    &&& forall|i: int| 1 <= i < s.len() && i != k ==> s[i - 1] < #[trigger] s[i]
    &&& k < s.len() ==> s[s.len() - 1] < s[0]
}

/// Whether a sequence of minute totals can serve as the boundaries of a
/// day: it is not empty, every time lies within the day, and the times rise
/// but for one wrap past midnight at most.
pub open spec fn well_formed(s: Seq<int>) -> bool {
    &&& s.len() > 0
    &&& forall|i: int| 0 <= i < s.len() ==> 0 <= #[trigger] s[i] < 1440
    &&& exists|k: int| wraps_at(s, k)
}

/// No position before the first fault has a fault, and the first fault has
/// one.
pub proof fn lemma_first_fault(s: Seq<int>, from: int)
    requires
        0 <= from <= s.len(),
    ensures
        from <= first_fault_from(s, from) <= s.len(),
        first_fault_from(s, from) < s.len() ==> fault_at(s, first_fault_from(s, from)) is Some,
        forall|i: int| from <= i < first_fault_from(s, from) ==> fault_at(s, i) is None,
    decreases s.len() - from,
{
    if from < s.len() && fault_at(s, from) is None {
        lemma_first_fault(s, from + 1);
    }
}

/// Tests whether the time at position `i` also stands before that position.
fn occurs_before(times: &[Time], i: usize) -> (seen: bool)
    requires
        i < times.len(),
    ensures
        seen == seen_before(minutes(times@), i as int),
{
    let ghost s = minutes(times@);
    let mut j: usize = 0;
    while j < i
        invariant
            j <= i < times.len(),
            s == minutes(times@),
            forall|k: int| 0 <= k < j ==> s[k] != s[i as int],
        decreases i - j,
    {
        if times[j] == times[i] {
            assert(s[j as int] == s[i as int]);
            return true;
        }
        j += 1;
    }
    false
}

/// Checks a boundary sequence against a directory of `dir_count` images.
/// With `days` set the images are rotated by days and the counts need not
/// match.
pub fn error_checking(times: &[Time], dir_count: usize, days: Option<u32>) -> (checked: Result<
    Time,
    Errors,
>)
    ensures
        checked == verdict(times@, dir_count as nat, days is Some),
{
    let ghost s = minutes(times@);
    if times.len() == 0 {
        return Err(Errors::ConfigFileError(ConfigFileErrors::Empty));
    }
    let start_range = times[0];
    let full_day = Time::full_day();
    let mut start_range_other = times[0];
    let mut curr_range = start_range;
    let mut curr_range_other = start_range;
    let mut other_inited = false;
    let mut i: usize = 0;
    while i < times.len()
        invariant
            0 <= i <= times.len(),
            times.len() > 0,
            s == minutes(times@),
            start_range == times@[0],
            full_day.total_mins == 1440,
            first_fault_from(s, i as int) == first_fault(s),
            other_inited == wrapped_before(s, i as int),
            !other_inited ==> curr_range@ == (if i == 0 {
                s[0]
            } else {
                s[i - 1]
            }),
            other_inited ==> i > 0 && curr_range@ == 1440 && curr_range_other@ == s[i - 1]
                && start_range_other@ <= curr_range_other@ && s[i - 1] < s[0],
        decreases times.len() - i,
    {
        let time = times[i];
        assert(s[i as int] == time@);
        let ghost wrapped = wrapped_before(s, i as int);
        let mut out_of_order = false;
        if time > start_range && time > curr_range {
            curr_range = time;
        } else if time > start_range && time < curr_range {
            out_of_order = true;
        } else if time < start_range {
            if !other_inited {
                curr_range = full_day;
                start_range_other = time;
                curr_range_other = time;
                other_inited = true;
            } else if time > start_range_other && time > curr_range_other {
                curr_range_other = time;
            } else {
                out_of_order = true;
            }
        }
        assert(out_of_order == order_fault(s, i as int));
        if out_of_order {
            return Err(Errors::ConfigFileError(ConfigFileErrors::OutOfOrder));
        }
        if time.total_mins >= FULL_DAY_MINS {
            return Err(Errors::ConfigFileError(ConfigFileErrors::OutOfRange));
        }
        if occurs_before(times, i) {
            return Err(Errors::ConfigFileError(ConfigFileErrors::DuplicatesFound));
        }
        proof {
            assert(fault_at(s, i as int) is None);
            if time@ < s[0] {
                assert(s[i as int] < s[0]);
            }
            assert(wrapped_before(s, i + 1) == (wrapped || time@ < s[0]));
            if i > 0 && time@ == s[0] {
                assert(s[0] == s[i as int]);
            }
            if i > 0 && time@ == s[i - 1] {
                assert(s[i - 1] == s[i as int]);
            }
        }
        i += 1;
    }
    proof {
        lemma_first_fault(s, 0);
    }
    if times.len() != dir_count && days.is_none() {
        return Err(Errors::ConfigFileError(ConfigFileErrors::FileTimeMismatch));
    }
    Ok(start_range)
}


/// The first position at or after `from` whose time lies below the first
/// time of the sequence, or the length of the sequence.
pub open spec fn wrap_point_from(s: Seq<int>, from: int) -> int
    decreases s.len() - from,
{
    if from < 0 || from >= s.len() {
        s.len() as int
    } else if s[from] < s[0] {
        from
    } else {
        wrap_point_from(s, from + 1)
    }
}

/// The position at which a sequence crosses midnight: the first whose time
/// lies below the first time, or the length of the sequence.
pub open spec fn wrap_point(s: Seq<int>) -> int {
    wrap_point_from(s, 0)
}

/// The wrap point is the first position below the first time.
pub proof fn lemma_wrap_point(s: Seq<int>, from: int)
    requires
        0 <= from <= s.len(),
    ensures
        from <= wrap_point_from(s, from) <= s.len(),
        wrap_point_from(s, from) < s.len() ==> s[wrap_point_from(s, from)] < s[0],
        forall|i: int| from <= i < wrap_point_from(s, from) ==> #[trigger] s[i] >= s[0],
    decreases s.len() - from,
{
    if from < s.len() && s[from] >= s[0] {
        lemma_wrap_point(s, from + 1);
    }
}

/// Times that each rise above their predecessor rise over any distance.
proof fn lemma_rising(s: Seq<int>, low: int, high: int, i: int, j: int)
    requires
        0 <= low <= i <= j < high <= s.len(),
        forall|m: int| low < m < high ==> s[m - 1] < #[trigger] s[m],
    ensures
        s[i] <= s[j],
        i < j ==> s[i] < s[j],
    decreases j - i,
{
    if i < j {
        lemma_rising(s, low, high, i, j - 1);
    }
}

/// In a sequence that wraps at `k`, the times before `k` rise, those from
/// `k` on rise, and those from `k` on lie below the first time.
pub proof fn lemma_wrap_order(s: Seq<int>, k: int)
    requires
        wraps_at(s, k),
    ensures
        forall|i: int, j: int| 0 <= i < j < k ==> #[trigger] s[i] < #[trigger] s[j],
        forall|i: int, j: int| k <= i < j < s.len() ==> #[trigger] s[i] < #[trigger] s[j],
        forall|j: int| k <= j < s.len() ==> #[trigger] s[j] < s[0],
{
    assert forall|i: int, j: int| 0 <= i < j < k implies #[trigger] s[i] < #[trigger] s[j] by {
        lemma_rising(s, 0, k, i, j);
    }
    assert forall|i: int, j: int| k <= i < j < s.len() implies #[trigger] s[i] < #[trigger] s[j] by {
        lemma_rising(s, k, s.len() as int, i, j);
    }
    assert forall|j: int| k <= j < s.len() implies #[trigger] s[j] < s[0] by {
        lemma_rising(s, k, s.len() as int, j, s.len() - 1);
    }
}

/// A well-formed sequence has no fault at any position.
proof fn lemma_well_formed_has_no_fault(s: Seq<int>, i: int)
    requires
        well_formed(s),
        0 <= i < s.len(),
    ensures
        fault_at(s, i) is None,
{
    let k = choose|k: int| wraps_at(s, k);
    lemma_wrap_order(s, k);
    if wrapped_before(s, i) {
        let j = choose|j: int| 0 <= j < i && #[trigger] s[j] < s[0];
        if 0 < j < k {
            assert(s[0] < s[j]);
        }
        assert(k <= j);
    }
    if seen_before(s, i) {
        let j = choose|j: int| 0 <= j < i && #[trigger] s[j] == s[i];
        if i < k {
            assert(s[j] < s[i]);
        } else if k <= j {
            assert(s[j] < s[i]);
        } else {
            assert(s[i] < s[0]);
            if 0 < j {
                assert(s[0] < s[j]);
            }
        }
    }
    if 0 < i && s[i] > s[0] {
        assert(i < k);
    }
}

/// A sequence without faults wraps at its wrap point and nowhere else.
proof fn lemma_no_fault_wraps(s: Seq<int>)
    requires
        s.len() > 0,
        first_fault(s) == s.len(),
    ensures
        wraps_at(s, wrap_point(s)),
        forall|i: int| 0 <= i < s.len() ==> #[trigger] s[i] < 1440,
{
    let w = wrap_point(s);
    lemma_first_fault(s, 0);
    lemma_wrap_point(s, 0);
    assert forall|i: int| 0 <= i < s.len() implies #[trigger] s[i] < 1440 by {
        assert(fault_at(s, i) is None);
    }
    assert forall|i: int| 1 <= i < s.len() && i != w implies s[i - 1] < #[trigger] s[i] by {
        assert(fault_at(s, i) is None);
        assert(!seen_before(s, i));
        assert(s[0] != s[i]);
        assert(s[i - 1] != s[i]);
        if i < w {
            if wrapped_before(s, i) {
                let j = choose|j: int| 0 <= j < i && #[trigger] s[j] < s[0];
                assert(s[j] >= s[0]);
            }
        } else {
            assert(s[w] < s[0]);
            assert(wrapped_before(s, i));
        }
    }
    if w < s.len() - 1 {
        let last = s.len() - 1;
        assert(fault_at(s, last) is None);
        assert(!seen_before(s, last));
        assert(s[0] != s[last]);
        assert(s[w] < s[0]);
        assert(wrapped_before(s, last));
    }
}

/// The validator accepts a sequence exactly where it is well formed and
/// its length is the number of images, or the images are rotated by days;
/// it then returns the first time.
pub proof fn lemma_accepts_well_formed(times: Seq<Time>, dir_count: nat, rotating: bool)
    ensures
        verdict(times, dir_count, rotating) is Ok <==> well_formed(minutes(times)) && (times.len()
            == dir_count || rotating),
        verdict(times, dir_count, rotating) is Ok ==> verdict(times, dir_count, rotating)
            == Ok::<Time, Errors>(times[0]),
{
    let s = minutes(times);
    if times.len() > 0 {
        lemma_first_fault(s, 0);
        if well_formed(s) {
            if first_fault(s) < s.len() {
                lemma_well_formed_has_no_fault(s, first_fault(s));
            }
        }
        if first_fault(s) == s.len() {
            lemma_no_fault_wraps(s);
        }
    }
}

/// The validator rejects every sequence in which a time falls below its
/// predecessor at two places or more.
pub proof fn lemma_two_descents_rejected(
    times: Seq<Time>,
    dir_count: nat,
    rotating: bool,
    i: int,
    j: int,
)
    requires
        1 <= i < j < times.len(),
        times[i - 1]@ > times[i]@,
        times[j - 1]@ > times[j]@,
    ensures
        verdict(times, dir_count, rotating) is Err,
{
    let s = minutes(times);
    lemma_accepts_well_formed(times, dir_count, rotating);
    if well_formed(s) {
        let k = choose|k: int| wraps_at(s, k);
        if i != k {
            assert(s[i - 1] < s[i]);
        } else {
            assert(s[j - 1] < s[j]);
        }
    }
}

/// The validator accepts a sequence of times within the day that rise but
/// for one fall, after which they stay below the first time, where its
/// length is the number of images: one crossing of midnight is allowed.
pub proof fn lemma_one_wrap_accepted(times: Seq<Time>, dir_count: nat, rotating: bool, k: int)
    requires
        1 <= k < times.len(),
        times.len() == dir_count || rotating,
        forall|i: int| 0 <= i < times.len() ==> (#[trigger] times[i])@ < 1440,
        forall|i: int| 1 <= i < times.len() && i != k ==> times[i - 1]@ < (#[trigger] times[i])@,
        times[k - 1]@ > times[k]@,
        times[times.len() - 1]@ < times[0]@,
    ensures
        verdict(times, dir_count, rotating) == Ok::<Time, Errors>(times[0]),
{
    let s = minutes(times);
    assert forall|i: int| 1 <= i < s.len() && i != k implies s[i - 1] < #[trigger] s[i] by {
        assert(times[i - 1]@ < times[i]@);
    }
    assert forall|i: int| 0 <= i < s.len() implies 0 <= #[trigger] s[i] < 1440 by {
        assert(times[i]@ < 1440);
    }
    assert(wraps_at(s, k));
    lemma_accepts_well_formed(times, dir_count, rotating);
}

} // verus!
