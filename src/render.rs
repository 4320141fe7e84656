//! The render loop's decisions. Each iteration draws the current rows, waits
//! for input up to the tick clock's timeout, and then hands what it saw to
//! `RenderLoop::step`, which ends the loop on the quit key and otherwise
//! advances the rows whenever a tick is due.

use crate::clock::TickClock;
use crate::display::{rotated, App};
use vstd::prelude::*;

verus! {

/// The key that ends the loop (case-sensitive).
pub const QUIT_KEY: char = 'q';

#[derive(Debug, Clone, Copy, PartialEq, Eq, Structural)]
pub enum Phase {
    Running,
    Terminated,
}

/// What the wait for input produced.
#[derive(Debug, Clone, Copy, PartialEq, Eq, Structural)]
pub enum Input {
    /// A key press carrying a character.
    Key(char),
    /// Any other event: another key, the mouse, a resize.
    Other,
    /// Nothing arrived before the timeout.
    Idle,
}

/// What the loop does after a step.
#[derive(Debug, Clone, Copy, PartialEq, Eq, Structural)]
pub enum Action {
    /// Draw again and wait for the next input.
    Continue,
    /// Stop without drawing again.
    Quit,
}

/// The loop as a mathematical value.
pub struct LoopView {
    pub rows: Seq<(&'static str, u64)>,
    pub clock: TickClock,
    pub phase: Phase,
}

pub open spec fn is_quit(input: Input) -> bool {
    input == Input::Key(QUIT_KEY)
}

/// One step of the loop on what the wait produced at `now`.
pub open spec fn step_view(v: LoopView, input: Input, now: u64) -> (LoopView, Action) {
    if v.phase == Phase::Terminated {
        (v, Action::Quit)
    } else if is_quit(input) {
        (LoopView { rows: v.rows, clock: v.clock, phase: Phase::Terminated }, Action::Quit)
    } else if v.clock.due(now) {
        (
            LoopView { rows: rotated(v.rows), clock: v.clock.checked_at(now), phase: Phase::Running },
            Action::Continue,
        )
    } else {
        (v, Action::Continue)
    }
}

/// The loop after a step for each of `events`, each an input and the instant it was seen.
pub open spec fn run_view(v: LoopView, events: Seq<(Input, u64)>) -> LoopView
    decreases events.len(),
{
    if events.len() == 0 {
        v
    } else {
        run_view(step_view(v, events[0].0, events[0].1).0, events.drop_first())
    }
}

/// How many frames the loop draws over `events`: one per iteration while it runs.
pub open spec fn draws(v: LoopView, events: Seq<(Input, u64)>) -> nat
    decreases events.len(),
{
    if events.len() == 0 || v.phase == Phase::Terminated {
        0
    } else {
        1 + draws(step_view(v, events[0].0, events[0].1).0, events.drop_first())
    }
}

pub struct RenderLoop {
    pub app: App,
    pub clock: TickClock,
    pub phase: Phase,
}

impl View for RenderLoop {
    type V = LoopView;

    open spec fn view(&self) -> LoopView {
        LoopView { rows: self.app.data@, clock: self.clock, phase: self.phase }
    }
}

impl RenderLoop {
    /// A running loop over `app`, whose last tick is `now`.
    pub fn new(app: App, interval: u64, now: u64) -> (r: RenderLoop)
        ensures
            r@ == (LoopView {
                rows: app.data@,
                clock: TickClock { interval, last_tick: now },
                phase: Phase::Running,
            }),
    {
        RenderLoop { app, clock: TickClock::new(interval, now), phase: Phase::Running }
    }

    pub fn is_running(&self) -> (r: bool)
        ensures
            r == (self.phase == Phase::Running),
    {
        match self.phase {
            Phase::Running => true,
            Phase::Terminated => false,
        }
    }

    /// How long to wait for input at `now`.
    pub fn timeout(&self, now: u64) -> (r: u64)
        ensures
            r == self.clock.wait(now),
    {
        self.clock.timeout(now)
    }

    /// Takes what the wait produced, seen at `now`: the quit key ends the loop;
    /// anything else, or nothing, leaves it running and advances the rows once
    /// if a tick is due.
    pub fn step(&mut self, input: Input, now: u64) -> (r: Action)
        ensures
            (final(self)@, r) == step_view(old(self)@, input, now),
    {
        if !self.is_running() {
            return Action::Quit;
        }
        let quit = match input {
            Input::Key(c) => c == QUIT_KEY,
            _ => false,
        };
        if quit {
            self.phase = Phase::Terminated;
            return Action::Quit;
        }
        if self.clock.is_due(now) {
            self.app.on_tick();
            self.clock.reset(now);
        }
        Action::Continue
    }
}

/// The quit key ends a running loop on the step that sees it, leaving the rows
/// as they were; a terminated loop stays terminated and asks for no more frames.
pub proof fn lemma_quit_terminates(v: LoopView, input: Input, now: u64)
    ensures
        v.phase == Phase::Running && is_quit(input) ==> step_view(v, input, now) == (
        LoopView { rows: v.rows, clock: v.clock, phase: Phase::Terminated },
        Action::Quit),
        v.phase == Phase::Terminated ==> step_view(v, input, now) == (v, Action::Quit),
{
}

/// Over a stream whose first quit key stands at index `i`, the loop draws
/// exactly `i + 1` frames, the last one before it sees the key, and ends terminated.
pub proof fn lemma_quit_stream(v: LoopView, events: Seq<(Input, u64)>, i: int)
    requires
        v.phase == Phase::Running,
        0 <= i < events.len(),
        is_quit(events[i].0),
        forall|j: int| 0 <= j < i ==> !is_quit(#[trigger] events[j].0),
    ensures
        draws(v, events) == i + 1,
        run_view(v, events).phase == Phase::Terminated,
    decreases i,
{
    let next = step_view(v, events[0].0, events[0].1).0;
    let rest = events.drop_first();
    if i == 0 {
        assert(next.phase == Phase::Terminated);
        lemma_terminated_stays(next, rest);
    } else {
        assert(!is_quit(events[0].0));
        assert(next.phase == Phase::Running);
        assert forall|j: int| 0 <= j < i - 1 implies !is_quit(#[trigger] rest[j].0) by {
            assert(rest[j] == events[j + 1]);
        }
        assert(rest[i - 1] == events[i]);
        lemma_quit_stream(next, rest, i - 1);
    }
}

/// A terminated loop draws nothing more and stays terminated.
proof fn lemma_terminated_stays(v: LoopView, events: Seq<(Input, u64)>)
    requires
        v.phase == Phase::Terminated,
    ensures
        draws(v, events) == 0,
        run_view(v, events) == v,
    decreases events.len(),
{
    if events.len() > 0 {
        lemma_terminated_stays(v, events.drop_first());
    }
}

/// Input other than the quit key never holds back a tick: a running loop
/// advances its rows exactly when a tick is due, whatever else arrived.
pub proof fn lemma_other_input_keeps_ticking(v: LoopView, input: Input, now: u64)
    requires
        v.phase == Phase::Running,
        !is_quit(input),
    ensures
        step_view(v, input, now).1 == Action::Continue,
        step_view(v, input, now).0.phase == Phase::Running,
        step_view(v, input, now).0.rows == (if v.clock.due(now) {
            rotated(v.rows)
        } else {
            v.rows
        }),
        step_view(v, input, now).0.clock == v.clock.checked_at(now),
        step_view(v, input, now).0.rows == step_view(v, Input::Idle, now).0.rows,
{
}

} // verus!
