//! The choice of the image that is active at a given time of day.
//!
//! Image `i` belongs to the window that starts at boundary `i` and ends at
//! the next boundary. The window of the last boundary ends at the first
//! one, past midnight. A time that no window holds shows the last image.

use crate::time_track::Time;
use crate::validate::{lemma_wrap_order, minutes, well_formed, wraps_at};
use vstd::prelude::*;

verus! {

/// The end of window `i`: the next boundary; for the last window the first
/// boundary; for the window of a single boundary the end of the day.
pub open spec fn window_end(s: Seq<int>, i: int) -> int {
    if i + 1 < s.len() {
        s[i + 1]
    } else if s.len() == 1 {
        1440
    } else {
        s[0]
    }
}

/// The start of window `i`: its boundary, or midnight where the boundary
/// lies after the end of the window, so that the window is the part of it
/// after midnight.
pub open spec fn window_start(s: Seq<int>, i: int) -> int {
    if s[i] > window_end(s, i) {
        0
    } else {
        s[i]
    }
}

/// Whether window `i` holds the time `now`.
pub open spec fn in_window(s: Seq<int>, i: int, now: int) -> bool {
    0 <= i < s.len() && window_start(s, i) <= now < window_end(s, i)
}

/// The first window at or after `from` that holds `now`, or the number of
/// windows where none does.
pub open spec fn first_window_from(s: Seq<int>, now: int, from: int) -> int
    decreases s.len() - from,
{
    if from < 0 || from >= s.len() {
        s.len() as int
    } else if in_window(s, from, now) {
        from
    } else {
        first_window_from(s, now, from + 1)
    }
}

/// The image that is shown at `now`: that of the first window that holds
/// `now`, or the last image where no window does.
pub open spec fn shown_at(s: Seq<int>, now: int) -> int
    recommends
        s.len() > 0,
{
    if first_window_from(s, now, 0) < s.len() {
        first_window_from(s, now, 0)
    } else {
        s.len() - 1
    }
}

/// The first window that holds `now` holds it, and none before it does.
pub proof fn lemma_first_window(s: Seq<int>, now: int, from: int)
    requires
        0 <= from <= s.len(),
    ensures
        from <= first_window_from(s, now, from) <= s.len(),
        first_window_from(s, now, from) < s.len() ==> in_window(
            s,
            first_window_from(s, now, from),
            now,
        ),
        forall|i: int| from <= i < first_window_from(s, now, from) ==> !in_window(s, i, now),
    decreases s.len() - from,
{
    if from < s.len() && !in_window(s, from, now) {
        lemma_first_window(s, now, from + 1);
    }
}

/// Finds the image that is shown at `curr_time`.
pub fn select_window(times: &[Time], curr_time: Time) -> (index: usize)
    requires
        times.len() > 0,
    ensures
        index == shown_at(minutes(times@), curr_time@),
        index < times.len(),
{
    let ghost s = minutes(times@);
    let ghost now = curr_time@;
    let count = times.len();
    let first_time = times[0];
    let midnight = Time::midnight();
    let mut loop_time = times[0];
    let mut next_time = if count > 1 {
        times[1]
    } else {
        Time::full_day()
    };
    let mut chosen: Option<usize> = None;
    let mut i: usize = 0;
    while i < count
        invariant
            0 <= i <= count,
            count == times.len(),
            count > 0,
            s == minutes(times@),
            now == curr_time@,
            first_time == times@[0],
            midnight@ == 0,
            i < count ==> loop_time@ == s[i as int] && next_time@ == window_end(s, i as int),
            match chosen {
                Some(found) => found < i && found == first_window_from(s, now, 0),
                None => first_window_from(s, now, i as int) == first_window_from(s, now, 0),
            },
        decreases count - i,
    {
        if loop_time > next_time {
            loop_time = midnight;
        }
        assert(loop_time@ == window_start(s, i as int));
        if curr_time >= loop_time && curr_time < next_time {
            if chosen.is_none() {
                chosen = Some(i);
            }
        }
        loop_time = next_time;
        next_time = if count - i > 2 {
            times[i + 2]
        } else {
            first_time
        };
        i += 1;
    }
    match chosen {
        Some(found) => found,
        None => count - 1,
    }
}

/// The windows of a well-formed boundary sequence do not overlap: a time
/// lies in one of them at most.
pub proof fn lemma_windows_disjoint(s: Seq<int>, now: int, i: int, j: int)
    requires
        well_formed(s),
        in_window(s, i, now),
        in_window(s, j, now),
    ensures
        i == j,
{
    let k = choose|k: int| wraps_at(s, k);
    lemma_wrap_order(s, k);
    lemma_window_bounds(s, k, i);
    lemma_window_bounds(s, k, j);
    if i < j {
        lemma_windows_in_order(s, k, i, j);
    } else if j < i {
        lemma_windows_in_order(s, k, j, i);
    }
}

/// Window `i` of a sequence that wraps at `k` runs from its boundary to
/// the next one, but for the window before the wrap point, which runs from
/// midnight.
proof fn lemma_window_bounds(s: Seq<int>, k: int, i: int)
    requires
        s.len() > 0,
        wraps_at(s, k),
        0 <= i < s.len(),
    ensures
        i + 1 == k && k < s.len() ==> window_start(s, i) == 0 && window_end(s, i) == s[k],
        i + 1 != k && i + 1 < s.len() ==> window_start(s, i) == s[i] && window_end(s, i) == s[i
            + 1],
        i + 1 == s.len() && s.len() > 1 && k < s.len() ==> window_start(s, i) == s[i]
            && window_end(s, i) == s[0],
        i + 1 == s.len() && s.len() > 1 && k == s.len() ==> window_start(s, i) == 0
            && window_end(s, i) == s[0],
        s.len() == 1 ==> window_end(s, i) == 1440,
{
    lemma_wrap_order(s, k);
    if i + 1 == k && k < s.len() {
        assert(s[k] < s[0]);
        if i > 0 {
            assert(s[0] < s[i]);
        }
    }
    if i + 1 == s.len() && s.len() > 1 {
        if k < s.len() {
            assert(s[i] < s[0]);
        } else {
            assert(s[0] < s[i]);
        }
    }
}

/// Of two windows of a sequence that wraps at `k`, no time lies in both.
proof fn lemma_windows_in_order(s: Seq<int>, k: int, i: int, j: int)
    requires
        s.len() > 0,
        wraps_at(s, k),
        0 <= i < j < s.len(),
    ensures
        forall|now: int| !(in_window(s, i, now) && in_window(s, j, now)),
{
    lemma_wrap_order(s, k);
    lemma_window_bounds(s, k, i);
    lemma_window_bounds(s, k, j);
    // The window of `i` ends at boundary `i + 1`, which does not lie after
    // boundary `j` where both stand on one side of the wrap point.
    if i + 1 < j && (j < k || k <= i + 1) {
        assert(s[i + 1] < s[j]);
    }
    // Before the wrap point no boundary lies below the first one.
    if 0 < i < k {
        assert(s[0] < s[i]);
    }
    // From the wrap point on every boundary lies below the first one.
    if k <= j {
        assert(s[j] < s[0]);
    }
    if k <= j && j + 1 < s.len() {
        assert(s[j + 1] < s[0]);
    }
    if k < s.len() {
        assert(s[k] < s[0]);
    }
}

/// In a well-formed sequence that does not cross midnight, the image that
/// is shown at `now` is the one whose boundary is the last at or before
/// `now`; before the first boundary it is the last image, shown since the
/// evening before.
pub proof fn lemma_shown_since_latest_boundary(s: Seq<int>, now: int)
    requires
        well_formed(s),
        wraps_at(s, s.len() as int),
        0 <= now < 1440,
    ensures
        0 <= shown_at(s, now) < s.len(),
        now < s[0] ==> shown_at(s, now) == s.len() - 1,
        now >= s[0] ==> s[shown_at(s, now)] <= now && (shown_at(s, now) + 1 < s.len() ==> now
            < s[shown_at(s, now) + 1]),
{
    let n = s.len() as int;
    let found = first_window_from(s, now, 0);
    lemma_first_window(s, now, 0);
    lemma_wrap_order(s, n);
    if found < n {
        lemma_window_bounds(s, n, found);
        if now < s[0] && found + 1 < n {
            assert(s[0] <= s[found]) by {
                if 0 < found {
                    assert(s[0] < s[found]);
                }
            }
        }
    } else {
        assert(!in_window(s, n - 1, now));
        lemma_window_bounds(s, n, n - 1);
        if now >= s[0] && n > 1 {
            lemma_latest_boundary_is_last(s, now, n - 1);
        }
    }
}

/// Where no window of a rising sequence holds a time at or after the first
/// boundary, the time lies at or after every boundary.
proof fn lemma_latest_boundary_is_last(s: Seq<int>, now: int, i: int)
    requires
        s.len() > 1,
        wraps_at(s, s.len() as int),
        forall|j: int| 0 <= j < s.len() ==> !in_window(s, j, now),
        s[0] <= now,
        0 <= i < s.len(),
    ensures
        s[i] <= now,
    decreases i,
{
    if i > 0 {
        lemma_latest_boundary_is_last(s, now, i - 1);
        lemma_window_bounds(s, s.len() as int, i - 1);
        assert(!in_window(s, i - 1, now));
    }
}

} // verus!
