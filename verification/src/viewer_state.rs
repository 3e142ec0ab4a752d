//! The viewer's top-level state machine: Greeting → Awake ⇄ Asleep.
//!
//! Instants are readings of a monotonic clock in milliseconds and durations are
//! milliseconds. `elapsed` saturates at zero like `Instant::duration_since`.
use vstd::prelude::*;
use crate::events::{ViewerCommand, ViewerState as ControlViewerState};

verus! {

#[derive(Debug, Clone, Copy, PartialEq, Eq, Structural)]
pub enum ViewerState {
    Greeting,
    Awake,
    Asleep,
}

/// A transition that the state machine took.
#[derive(Debug, Clone, Copy, PartialEq, Eq, Structural)]
pub struct ViewerStateChange {
    pub from: ViewerState,
    pub to: ViewerState,
}

pub struct ViewerSM {
    state: ViewerState,
    entered_at: u64,
    greeting_duration: u64,
    photos_ready: bool,
}

/// Abstract state of a `ViewerSM`.
pub struct ViewerModel {
    pub state: ViewerState,
    pub entered_at: int,
    pub greeting_duration: int,
    pub photos_ready: bool,
}

impl View for ViewerSM {
    type V = ViewerModel;

    closed spec fn view(&self) -> ViewerModel {
        ViewerModel {
            state: self.state,
            entered_at: self.entered_at as int,
            greeting_duration: self.greeting_duration as int,
            photos_ready: self.photos_ready,
        }
    }
}

/// Time from `since` to `now`, zero when `now` is earlier.
pub open spec fn elapsed(now: int, since: int) -> int {
    if now >= since {
        now - since
    } else {
        0
    }
}

/// Move to `to` at `now`; no change (and no report) when already there.
/// Leaving for a non-greeting state forgets that photos were ready.
pub open spec fn goto_spec(m: ViewerModel, to: ViewerState, now: int) -> (ViewerModel, Option<
    ViewerStateChange,
>) {
    if m.state == to {
        (m, None)
    } else {
        (
            ViewerModel {
                state: to,
                entered_at: now,
                greeting_duration: m.greeting_duration,
                photos_ready: if to != ViewerState::Greeting {
                    false
                } else {
                    m.photos_ready
                },
            },
            Some(ViewerStateChange { from: m.state, to }),
        )
    }
}

/// Whether the greeting has been shown for its full duration at `now`.
pub open spec fn greeting_elapsed(m: ViewerModel, now: int) -> bool {
    elapsed(now, m.entered_at) >= m.greeting_duration
}

/// Clock tick: the greeting ends once its duration has passed and a photo is ready.
pub open spec fn tick_spec(m: ViewerModel, now: int) -> (ViewerModel, Option<ViewerStateChange>) {
    if m.state == ViewerState::Greeting && greeting_elapsed(m, now) && m.photos_ready {
        goto_spec(m, ViewerState::Awake, now)
    } else {
        (m, None)
    }
}

/// State that a command asks for, given the current state.
pub open spec fn command_target(state: ViewerState, cmd: ViewerCommand) -> ViewerState {
    match cmd {
        ViewerCommand::ToggleState => match state {
            ViewerState::Awake => ViewerState::Asleep,
            ViewerState::Asleep => ViewerState::Awake,
            ViewerState::Greeting => ViewerState::Asleep,
        },
        ViewerCommand::SetState(ControlViewerState::Awake) => ViewerState::Awake,
        ViewerCommand::SetState(ControlViewerState::Asleep) => ViewerState::Asleep,
    }
}

pub open spec fn command_spec(m: ViewerModel, cmd: ViewerCommand, now: int) -> (ViewerModel, Option<
    ViewerStateChange,
>) {
    goto_spec(m, command_target(m.state, cmd), now)
}

/// A first photo during the greeting is remembered; once the greeting has
/// lasted its full duration it moves the viewer to Awake at once.
pub open spec fn photo_ready_spec(m: ViewerModel, now: int) -> (ViewerModel, Option<
    ViewerStateChange,
>) {
    if m.state == ViewerState::Greeting {
        let ready = ViewerModel { photos_ready: true, ..m };
        if greeting_elapsed(ready, now) {
            goto_spec(ready, ViewerState::Awake, now)
        } else {
            (ready, None)
        }
    } else {
        (m, None)
    }
}

impl ViewerSM {
    pub fn new(greeting_duration: u64, now: u64) -> (sm: Self)
        ensures
            sm@.state == ViewerState::Greeting,
            sm@.entered_at == now,
            sm@.greeting_duration == greeting_duration,
            !sm@.photos_ready,
    {
        ViewerSM { state: ViewerState::Greeting, entered_at: now, greeting_duration, photos_ready: false }
    }

    pub fn current(&self) -> (s: ViewerState)
        ensures
            s == self@.state,
    {
        self.state
    }

    fn has_waited(&self, now: u64) -> (b: bool)
        ensures
            b == greeting_elapsed(self@, now as int),
    {
        now.saturating_sub(self.entered_at) >= self.greeting_duration
    }

    pub fn on_tick(&mut self, now: u64) -> (r: Option<ViewerStateChange>)
        ensures
            (final(self)@, r) == tick_spec(old(self)@, now as int),
    {
        if self.state == ViewerState::Greeting && self.has_waited(now) {
            if self.photos_ready {
                return self.goto(ViewerState::Awake, now);
            }
        }
        None
    }

    pub fn on_command(&mut self, cmd: &ViewerCommand, now: u64) -> (r: Option<ViewerStateChange>)
        ensures
            (final(self)@, r) == command_spec(old(self)@, *cmd, now as int),
    {
        match *cmd {
            ViewerCommand::ToggleState => match self.state {
                ViewerState::Awake => self.goto(ViewerState::Asleep, now),
                ViewerState::Asleep => self.goto(ViewerState::Awake, now),
                ViewerState::Greeting => self.goto(ViewerState::Asleep, now),
            },
            ViewerCommand::SetState(ControlViewerState::Awake) => self.goto(ViewerState::Awake, now),
            ViewerCommand::SetState(ControlViewerState::Asleep) => self.goto(
                ViewerState::Asleep,
                now,
            ),
        }
    }

    pub fn on_photo_ready(&mut self, now: u64) -> (r: Option<ViewerStateChange>)
        ensures
            (final(self)@, r) == photo_ready_spec(old(self)@, now as int),
    {
        if self.state == ViewerState::Greeting {
            self.photos_ready = true;
            if self.has_waited(now) {
                return self.goto(ViewerState::Awake, now);
            }
        }
        None
    }

    fn goto(&mut self, to: ViewerState, now: u64) -> (r: Option<ViewerStateChange>)
        ensures
            (final(self)@, r) == goto_spec(old(self)@, to, now as int),
    {
        if self.state == to {
            return None;
        }
        let ch = ViewerStateChange { from: self.state, to };
        self.state = to;
        self.entered_at = now;
        if to != ViewerState::Greeting {
            self.photos_ready = false;
        }
        Some(ch)
    }
}

/// Every reported change is a real change: it starts where the machine was
/// and ends where the machine now is.
pub proof fn lemma_changes_are_real(m: ViewerModel, to: ViewerState, now: int)
    ensures
        ({
            let (m2, r) = goto_spec(m, to, now);
            &&& m2.state == to
            &&& (r is Some <==> m.state != to)
            &&& r matches Some(ch) ==> ch.from == m.state && ch.to == to && ch.from != ch.to
        }),
{
}

/// Toggling twice from Awake or Asleep returns to the starting state, and
/// each toggle reports a change.
pub proof fn lemma_toggle_twice_restores(m: ViewerModel, t1: int, t2: int)
    requires
        m.state != ViewerState::Greeting,
    ensures
        ({
            let (m1, r1) = command_spec(m, ViewerCommand::ToggleState, t1);
            let (m2, r2) = command_spec(m1, ViewerCommand::ToggleState, t2);
            &&& m2.state == m.state
            &&& m1.state != m.state
            &&& r1 is Some
            &&& r2 is Some
        }),
{
}

/// Repeating a `SetState` command changes nothing the second time.
pub proof fn lemma_set_state_idempotent(m: ViewerModel, s: ControlViewerState, t1: int, t2: int)
    ensures
        ({
            let (m1, _r1) = command_spec(m, ViewerCommand::SetState(s), t1);
            let (m2, r2) = command_spec(m1, ViewerCommand::SetState(s), t2);
            &&& m2 == m1
            &&& r2 is None
        }),
{
}

/// Once the viewer has left the greeting, no tick, command or photo brings it back.
pub proof fn lemma_greeting_never_reentered(m: ViewerModel, cmd: ViewerCommand, now: int)
    requires
        m.state != ViewerState::Greeting,
    ensures
        tick_spec(m, now).0.state != ViewerState::Greeting,
        command_spec(m, cmd, now).0.state != ViewerState::Greeting,
        photo_ready_spec(m, now).0.state != ViewerState::Greeting,
{
}

/// The greeting is left for Awake by the clock or a photo only when the full
/// greeting duration has passed and a photo is ready.
pub proof fn lemma_greeting_waits_for_time_and_photo(m: ViewerModel, now: int)
    requires
        m.state == ViewerState::Greeting,
    ensures
        tick_spec(m, now).0.state == ViewerState::Awake <==> (greeting_elapsed(m, now)
            && m.photos_ready),
        photo_ready_spec(m, now).0.state == ViewerState::Awake <==> greeting_elapsed(m, now),
        photo_ready_spec(m, now).0.state != ViewerState::Awake ==> photo_ready_spec(
            m,
            now,
        ).0.photos_ready,
{
}

} // verus!
