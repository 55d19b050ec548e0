use dyn_wall::listener::{minutes_until_tick, step, tick_labels, Action, Event, State};
use dyn_wall::time_track::Time;

fn times(texts: &[&str]) -> Vec<Time> {
    texts.iter().map(|text| Time::parse(text).unwrap()).collect()
}

fn wait(boundaries: &[&str], now: &str) -> u32 {
    minutes_until_tick(&times(boundaries), Time::parse(now).unwrap())
}

#[test]
fn a_run_resolves_dispatches_and_sleeps() {
    assert_eq!(step(State::Idle, Event::Start), (State::Resolving, Action::Resolve));
    assert_eq!(
        step(State::Resolving, Event::Resolved { ok: true }),
        (State::Dispatching, Action::Dispatch)
    );
    assert_eq!(
        step(State::Dispatching, Event::Dispatched { ok: true }),
        (State::Sleeping, Action::Sleep)
    );
    assert_eq!(step(State::Sleeping, Event::Woke), (State::Resolving, Action::Resolve));
}

#[test]
fn a_failure_ends_the_run_with_a_failure_status() {
    assert_eq!(
        step(State::Resolving, Event::Resolved { ok: false }),
        (State::Failed, Action::Exit { status: 1 })
    );
    assert_eq!(
        step(State::Dispatching, Event::Dispatched { ok: false }),
        (State::Failed, Action::Exit { status: 1 })
    );
}

#[test]
fn an_event_that_is_not_waited_for_changes_nothing() {
    let states = [State::Idle, State::Resolving, State::Dispatching, State::Sleeping, State::Failed];
    let events = [
        Event::Start,
        Event::Resolved { ok: true },
        Event::Resolved { ok: false },
        Event::Dispatched { ok: true },
        Event::Dispatched { ok: false },
        Event::Woke,
    ];
    let mut moves = 0;
    for state in states {
        for event in events {
            let (next, action) = step(state, event);
            if action == Action::Ignore {
                assert_eq!(next, state);
            } else {
                moves += 1;
            }
            assert_ne!(action, Action::Exit { status: 0 });
            if state == State::Failed {
                assert_eq!((next, action), (State::Failed, Action::Ignore));
            }
        }
    }
    assert_eq!(moves, 6);
}

#[test]
fn the_process_wakes_at_midnight_and_at_each_boundary() {
    let labels = tick_labels(&times(&["8:05", "12:00", "23:59"]));
    assert_eq!(labels, vec!["0:00", "08:05", "12:00", "23:59"]);
    assert_eq!(tick_labels(&[]), vec!["0:00"]);
    assert_eq!(tick_labels(&[Time::default()]), vec!["0:00", "00:00"]);
}

#[test]
fn the_wait_ends_at_the_next_boundary() {
    let day = ["08:00", "12:00", "18:00"];
    assert_eq!(wait(&day, "07:00"), 60);
    assert_eq!(wait(&day, "07:59"), 1);
    assert_eq!(wait(&day, "10:30"), 90);
    assert_eq!(wait(&day, "12:01"), 359);
}

#[test]
fn a_boundary_that_is_reached_is_waited_for_until_tomorrow() {
    let day = ["08:00", "12:00", "18:00"];
    assert_eq!(wait(&day, "08:00"), 240);
    assert_eq!(wait(&["08:00"], "08:00"), 960);
    assert_eq!(wait(&["00:00"], "00:00"), 1440);
}

#[test]
fn the_wait_ends_at_midnight_after_the_last_boundary() {
    let day = ["08:00", "12:00", "18:00"];
    assert_eq!(wait(&day, "18:00"), 360);
    assert_eq!(wait(&day, "23:59"), 1);
    assert_eq!(wait(&[], "00:00"), 1440);
    assert_eq!(wait(&[], "13:00"), 660);
}

#[test]
fn the_wait_does_not_depend_on_the_order_of_the_boundaries() {
    assert_eq!(wait(&["22:00", "02:00", "06:00"], "05:00"), 60);
    assert_eq!(wait(&["22:00", "02:00", "06:00"], "21:00"), 60);
    assert_eq!(wait(&["22:00", "02:00", "06:00"], "23:00"), 60);
    assert_eq!(wait(&["22:00", "02:00", "06:00"], "00:00"), 120);
}
