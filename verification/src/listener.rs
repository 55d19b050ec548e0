//! The long-running process: when it wakes, and what it does in each of
//! its states.

use crate::time_track::Time;
use crate::validate::minutes;
use vstd::prelude::*;

verus! {

/// The states of the process.
#[derive(Copy, Clone, Debug, PartialEq, Eq, Structural)]
pub enum State {
    /// Not started yet.
    Idle,
    /// The image for the present time is being chosen.
    Resolving,
    /// The chosen image is being handed to the backend and the programs.
    Dispatching,
    /// Nothing is to be done until the next boundary or midnight.
    Sleeping,
    /// A failure has ended the process.
    Failed,
}

/// What the surroundings report to the process.
#[derive(Copy, Clone, Debug, PartialEq, Eq, Structural)]
pub enum Event {
    /// The process was started.
    Start,
    /// An image was chosen, or could not be.
    Resolved { ok: bool },
    /// The image was handed on, or could not be.
    Dispatched { ok: bool },
    /// A boundary or midnight was reached.
    Woke,
}

/// What the surroundings are to do next.
#[derive(Copy, Clone, Debug, PartialEq, Eq, Structural)]
pub enum Action {
    /// Choose the image for the present time.
    Resolve,
    /// Hand the chosen image to the backend and the programs.
    Dispatch,
    /// Wait for the next boundary or midnight.
    Sleep,
    /// End the process with this exit status.
    Exit { status: u8 },
    /// Nothing: the event does not concern the present state.
    Ignore,
}

/// The state that follows `state` on `event`, and what is then to be done.
/// A start leads to a choice of image, a choice to its dispatch, a dispatch
/// to sleep, and waking to the next choice. A choice or a dispatch that
/// fails ends the process with a failure status. An event that the present
/// state does not wait for changes nothing.
pub open spec fn next(state: State, event: Event) -> (State, Action) {
    match (state, event) {
        (State::Idle, Event::Start) => (State::Resolving, Action::Resolve),
        (State::Resolving, Event::Resolved { ok: true }) => (State::Dispatching, Action::Dispatch),
        (State::Resolving, Event::Resolved { ok: false }) => (
            State::Failed,
            Action::Exit { status: 1 },
        ),
        (State::Dispatching, Event::Dispatched { ok: true }) => (State::Sleeping, Action::Sleep),
        (State::Dispatching, Event::Dispatched { ok: false }) => (
            State::Failed,
            Action::Exit { status: 1 },
        ),
        (State::Sleeping, Event::Woke) => (State::Resolving, Action::Resolve),
        _ => (state, Action::Ignore),
    }
}

/// Takes one step of the process.
pub fn step(state: State, event: Event) -> (taken: (State, Action))
    ensures
        taken == next(state, event),
{
    match (state, event) {
        (State::Idle, Event::Start) => (State::Resolving, Action::Resolve),
        (State::Resolving, Event::Resolved { ok: true }) => (State::Dispatching, Action::Dispatch),
        (State::Resolving, Event::Resolved { ok: false }) => (
            State::Failed,
            Action::Exit { status: 1 },
        ),
        (State::Dispatching, Event::Dispatched { ok: true }) => (State::Sleeping, Action::Sleep),
        (State::Dispatching, Event::Dispatched { ok: false }) => (
            State::Failed,
            Action::Exit { status: 1 },
        ),
        (State::Sleeping, Event::Woke) => (State::Resolving, Action::Resolve),
        _ => (state, Action::Ignore),
    }
}

/// The process ends only by a failure, which it reports with a status
/// other than zero; once it has failed, it stays so and asks for nothing
/// more.
pub proof fn lemma_exit_means_failure(state: State, event: Event)
    ensures
        next(state, event).1 matches Action::Exit { status } ==> status != 0 && next(
            state,
            event,
        ).0 == State::Failed,
        next(state, event).0 == State::Failed && state != State::Failed ==> next(state, event).1
            == (Action::Exit { status: 1 }),
        state == State::Failed ==> next(state, event) == (State::Failed, Action::Ignore),
{
}

/// A run without failures goes round for ever: from the start, and from
/// each waking, the process resolves, dispatches and sleeps again.
pub proof fn lemma_round_without_failure(state: State)
    requires
        state == State::Idle || state == State::Sleeping,
    ensures
        ({
            let first = if state == State::Idle {
                Event::Start
            } else {
                Event::Woke
            };
            let resolving = next(state, first);
            let dispatching = next(resolving.0, Event::Resolved { ok: true });
            let sleeping = next(dispatching.0, Event::Dispatched { ok: true });
            &&& resolving == (State::Resolving, Action::Resolve)
            &&& dispatching == (State::Dispatching, Action::Dispatch)
            &&& sleeping == (State::Sleeping, Action::Sleep)
        }),
{
}

/// The minutes from `now` to the next time the clock shows `tick`: the
/// whole day where it shows `tick` now.
pub open spec fn delay(tick: int, now: int) -> int {
    if tick > now {
        tick - now
    } else {
        tick + 1440 - now
    }
}

/// The moments at which the process wakes: midnight and every boundary.
pub open spec fn ticks(times: Seq<Time>) -> Seq<int> {
    seq![0int] + minutes(times)
}

/// The labels of the moments at which the process wakes, as a clock shows
/// them: midnight first, then each boundary on two digits for the hour and
/// two for the minutes.
pub open spec fn tick_texts(times: Seq<Time>) -> Seq<Seq<char>> {
    seq!["0:00"@] + times.map_values(|time: Time| time.clock_text())
}

/// Writes the labels of the moments at which the process wakes.
pub fn tick_labels(times: &[Time]) -> (labels: Vec<String>)
    ensures
        labels.deep_view() == tick_texts(times@),
{
    let mut labels: Vec<String> = Vec::new();
    labels.push(String::from_str("0:00"));
    let mut i: usize = 0;
    while i < times.len()
        invariant
            0 <= i <= times.len(),
            labels.len() == i + 1,
            labels[0]@ == "0:00"@,
            forall|j: int| 0 <= j < i ==> (#[trigger] labels[j + 1])@ == times@[j].clock_text(),
        decreases times.len() - i,
    {
        labels.push(times[i].clock_label());
        i += 1;
    }
    assert(labels.deep_view() =~= tick_texts(times@)) by {
        assert forall|j: int| 0 <= j < labels.len() implies labels.deep_view()[j] == tick_texts(
            times@,
        )[j] by {
            if j > 0 {
                assert(labels[(j - 1) + 1]@ == times@[j - 1].clock_text());
            }
        }
    }
    labels
}

/// Finds how many minutes the process sleeps at `curr_time`: until the
/// first of midnight and the boundaries that comes.
pub fn minutes_until_tick(times: &[Time], curr_time: Time) -> (wait: u32)
    requires
        curr_time@ < 1440,
        forall|i: int| 0 <= i < times.len() ==> (#[trigger] times[i])@ < 1440,
    ensures
        1 <= wait <= 1440,
        exists|i: int| 0 <= i < ticks(times@).len() && delay(#[trigger] ticks(times@)[i], curr_time@) == wait,
        forall|i: int| 0 <= i < ticks(times@).len() ==> wait <= delay(#[trigger] ticks(times@)[i], curr_time@),
{
    let ghost all = ticks(times@);
    let ghost now = curr_time@;
    let mut wait: u32 = 1440 - curr_time.total_mins;
    assert(all[0] == 0);
    assert(delay(all[0], now) == wait);
    let mut i: usize = 0;
    while i < times.len()
        invariant
            0 <= i <= times.len(),
            all == ticks(times@),
            now == curr_time@,
            now < 1440,
            forall|j: int| 0 <= j < times.len() ==> (#[trigger] times[j])@ < 1440,
            1 <= wait <= 1440,
            exists|j: int| 0 <= j < i + 1 && delay(#[trigger] all[j], now) == wait,
            forall|j: int| 0 <= j < i + 1 ==> wait <= delay(#[trigger] all[j], now),
        decreases times.len() - i,
    {
        let tick = times[i];
        assert(tick@ < 1440);
        assert(all[i + 1] == tick@);
        let until = if tick.total_mins > curr_time.total_mins {
            tick.total_mins - curr_time.total_mins
        } else {
            tick.total_mins + 1440 - curr_time.total_mins
        };
        assert(until == delay(all[i + 1], now));
        if until < wait {
            wait = until;
        }
        i += 1;
    }
    wait
}

} // verus!
