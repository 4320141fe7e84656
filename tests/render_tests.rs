use dashboard::display::App;
use dashboard::render::{Action, Input, Phase, RenderLoop, QUIT_KEY};

fn rows(values: &[u64]) -> App {
    App { data: values.iter().map(|v| ("service", *v)).collect() }
}

fn values(l: &RenderLoop) -> Vec<u64> {
    l.app.data.iter().map(|(_, v)| *v).collect()
}

/// Runs the loop over `events` as the program does: draw, wait, step.
/// Returns the number of frames drawn and the instants of the advances.
fn drive(l: &mut RenderLoop, events: &[(Input, u64)]) -> (usize, Vec<u64>) {
    let mut draws = 0;
    let mut advances = Vec::new();
    for (input, now) in events {
        if !l.is_running() {
            break;
        }
        draws += 1;
        let before = l.clock.last_tick;
        let action = l.step(*input, *now);
        if l.clock.last_tick != before {
            advances.push(*now);
        }
        if action == Action::Quit {
            break;
        }
    }
    (draws, advances)
}

#[test]
fn quit_key_is_lowercase_q() {
    assert_eq!(QUIT_KEY, 'q');
}

#[test]
fn quit_key_terminates_without_tick() {
    let mut l = RenderLoop::new(rows(&[1, 2, 3]), 250, 0);
    assert_eq!(l.step(Input::Key('q'), 300), Action::Quit);
    assert_eq!(l.phase, Phase::Terminated);
    assert_eq!(values(&l), vec![1, 2, 3]);
    assert!(!l.is_running());
}

#[test]
fn uppercase_q_does_not_quit() {
    let mut l = RenderLoop::new(rows(&[1, 2, 3]), 250, 0);
    assert_eq!(l.step(Input::Key('Q'), 10), Action::Continue);
    assert!(l.is_running());
}

#[test]
fn terminated_loop_stays_terminated() {
    let mut l = RenderLoop::new(rows(&[1, 2, 3]), 250, 0);
    l.step(Input::Key('q'), 10);
    assert_eq!(l.step(Input::Idle, 1000), Action::Quit);
    assert_eq!(values(&l), vec![1, 2, 3]);
    assert_eq!(l.phase, Phase::Terminated);
}

#[test]
fn quit_in_stream_stops_on_that_iteration() {
    let events = [
        (Input::Idle, 250),
        (Input::Other, 300),
        (Input::Key('x'), 400),
        (Input::Key('q'), 450),
        (Input::Idle, 700),
        (Input::Idle, 950),
    ];
    let mut l = RenderLoop::new(rows(&[1, 2, 3]), 250, 0);
    let (draws, advances) = drive(&mut l, &events);
    assert_eq!(draws, 4);
    assert_eq!(advances, vec![250]);
    assert_eq!(l.phase, Phase::Terminated);
    assert_eq!(values(&l), vec![3, 1, 2]);
}

#[test]
fn quit_before_first_tick() {
    let events = [(Input::Key('q'), 10), (Input::Idle, 250)];
    let mut l = RenderLoop::new(rows(&[1, 2, 3]), 250, 0);
    let (draws, advances) = drive(&mut l, &events);
    assert_eq!(draws, 1);
    assert!(advances.is_empty());
    assert_eq!(values(&l), vec![1, 2, 3]);
}

#[test]
fn quit_after_tick_is_due_still_skips_the_tick() {
    let mut l = RenderLoop::new(rows(&[1, 2, 3]), 250, 0);
    assert_eq!(l.step(Input::Key('q'), 600), Action::Quit);
    assert_eq!(values(&l), vec![1, 2, 3]);
    assert_eq!(l.clock.last_tick, 0);
}

#[test]
fn other_keys_do_not_suppress_ticks() {
    // Keys every 100 ms with a 250 ms tick: advances at 300, 600, 900, 1200.
    let mut events = Vec::new();
    let keys = ['a', 'b', 'Q', 'z', ' '];
    for i in 1..=12u64 {
        events.push((Input::Key(keys[(i as usize) % keys.len()]), i * 100));
    }
    let mut l = RenderLoop::new(rows(&[1, 2, 3, 4]), 250, 0);
    let (draws, advances) = drive(&mut l, &events);
    assert_eq!(draws, 12);
    assert_eq!(advances, vec![300, 600, 900, 1200]);
    assert_eq!(values(&l), vec![1, 2, 3, 4]);
    assert!(l.is_running());
}

#[test]
fn delayed_check_advances_once_and_resets_to_now() {
    let mut l = RenderLoop::new(rows(&[1, 2, 3]), 250, 0);
    assert_eq!(l.step(Input::Idle, 1000), Action::Continue);
    assert_eq!(values(&l), vec![3, 1, 2]);
    assert_eq!(l.clock.last_tick, 1000);
    assert_eq!(l.timeout(1000), 250);
    assert_eq!(l.step(Input::Idle, 1100), Action::Continue);
    assert_eq!(values(&l), vec![3, 1, 2]);
}

#[test]
fn advances_are_never_closer_than_the_interval() {
    let times = [0u64, 90, 260, 270, 400, 520, 777, 1500, 1501, 1760, 1999, 2010];
    let events: Vec<(Input, u64)> = times.iter().map(|t| (Input::Idle, *t)).collect();
    let mut l = RenderLoop::new(rows(&[1, 2, 3]), 250, 0);
    let (_, advances) = drive(&mut l, &events);
    assert_eq!(advances, vec![260, 520, 777, 1500, 1760, 2010]);
    for w in advances.windows(2) {
        assert!(w[1] - w[0] >= 250);
    }
}

#[test]
fn timeout_follows_the_clock() {
    let l = RenderLoop::new(rows(&[1]), 250, 100);
    assert_eq!(l.timeout(100), 250);
    assert_eq!(l.timeout(300), 50);
    assert_eq!(l.timeout(400), 0);
}
