//! Power-button gesture recognition: single press, double press, debouncing.
//!
//! Instants are monotonic clock readings in milliseconds; durations are milliseconds.
use vstd::prelude::*;
use crate::viewer_state::elapsed;

verus! {

/// Shortest gap after a release that counts as a genuine second press.
pub const MIN_SECOND_PRESS_GUARD_MS: u64 = 75;

#[derive(Clone, Copy, Debug)]
pub struct Durations {
    pub debounce: u64,
    pub single_window: u64,
    pub double_window: u64,
}

impl Durations {
    pub fn from_millis(debounce_ms: u64, single_window_ms: u64, double_window_ms: u64) -> (d: Self)
        ensures
            d.debounce == debounce_ms,
            d.single_window == single_window_ms,
            d.double_window == double_window_ms,
    {
        Durations {
            debounce: debounce_ms,
            single_window: single_window_ms,
            double_window: double_window_ms,
        }
    }
}

#[derive(Debug, Clone, Copy, PartialEq, Eq, Structural)]
pub enum Action {
    Single,
    Double,
}

#[derive(Debug, Clone, Copy, PartialEq, Eq, Structural)]
pub enum State {
    Idle,
    Pressed { down_at: u64, is_second: bool },
    WaitingForSecond { deadline: u64, first_down_at: u64, released_at: u64 },
}

pub struct ButtonTracker {
    durations: Durations,
    state: State,
    last_transition: Option<u64>,
}

/// Abstract state of a `ButtonTracker`.
pub struct TrackerModel {
    pub durations: Durations,
    pub state: State,
    pub last_transition: Option<u64>,
}

impl View for ButtonTracker {
    type V = TrackerModel;

    closed spec fn view(&self) -> TrackerModel {
        TrackerModel {
            durations: self.durations,
            state: self.state,
            last_transition: self.last_transition,
        }
    }
}

/// An event at `now` is a bounce when it follows the last accepted event by
/// less than the debounce time.
pub open spec fn is_bounce(m: TrackerModel, now: u64) -> bool {
    m.last_transition matches Some(last) && elapsed(now as int, last as int)
        < m.durations.debounce
}

/// Record an accepted event at `now`.
pub open spec fn accepted(m: TrackerModel, now: u64) -> TrackerModel {
    TrackerModel { last_transition: Some(now), ..m }
}

/// A press that follows a release by less than this is a bounce of the first press.
pub open spec fn second_press_guard_spec(d: Durations) -> u64 {
    if d.debounce >= MIN_SECOND_PRESS_GUARD_MS {
        d.debounce
    } else {
        MIN_SECOND_PRESS_GUARD_MS
    }
}

pub open spec fn press_spec(m: TrackerModel, now: u64) -> TrackerModel {
    if is_bounce(m, now) {
        m
    } else {
        let a = accepted(m, now);
        match m.state {
            State::Idle => TrackerModel { state: State::Pressed { down_at: now, is_second: false }, ..a },
            State::WaitingForSecond { deadline, first_down_at, released_at } => {
                if now <= deadline {
                    if elapsed(now as int, released_at as int) < second_press_guard_spec(
                        m.durations,
                    ) {
                        TrackerModel {
                            state: State::Pressed { down_at: first_down_at, is_second: false },
                            last_transition: Some(released_at),
                            ..a
                        }
                    } else {
                        TrackerModel { state: State::Pressed { down_at: now, is_second: true }, ..a }
                    }
                } else {
                    TrackerModel { state: State::Pressed { down_at: now, is_second: false }, ..a }
                }
            },
            State::Pressed { .. } => a,
        }
    }
}

pub open spec fn release_spec(m: TrackerModel, now: u64) -> (TrackerModel, Option<Action>) {
    if is_bounce(m, now) {
        (m, None)
    } else {
        let a = accepted(m, now);
        match m.state {
            State::Pressed { down_at, is_second } => {
                if elapsed(now as int, down_at as int) > m.durations.single_window {
                    (TrackerModel { state: State::Idle, ..a }, None)
                } else if is_second {
                    (TrackerModel { state: State::Idle, ..a }, Some(Action::Double))
                } else {
                    (
                        TrackerModel {
                            state: State::WaitingForSecond {
                                deadline: (now + m.durations.double_window) as u64,
                                first_down_at: down_at,
                                released_at: now,
                            },
                            ..a
                        },
                        None,
                    )
                }
            },
            _ => (a, None),
        }
    }
}

pub open spec fn timeout_spec(m: TrackerModel, now: u64) -> (TrackerModel, Option<Action>) {
    match m.state {
        State::WaitingForSecond { deadline, .. } => {
            if now >= deadline {
                (TrackerModel { state: State::Idle, ..m }, Some(Action::Single))
            } else {
                (m, None)
            }
        },
        _ => (m, None),
    }
}

pub open spec fn time_until_deadline_spec(m: TrackerModel, now: u64) -> Option<u64> {
    match m.state {
        State::WaitingForSecond { deadline, .. } => {
            if deadline > now {
                Some((deadline - now) as u64)
            } else {
                Some(0)
            }
        },
        _ => None,
    }
}

impl ButtonTracker {
    pub fn new(durations: Durations) -> (t: Self)
        ensures
            t@.durations == durations,
            t@.state == State::Idle,
            t@.last_transition is None,
    {
        ButtonTracker { durations, state: State::Idle, last_transition: None }
    }

    /// The press of the button at `now`.
    pub fn on_press(&mut self, now: u64)
        ensures
            final(self)@ == press_spec(old(self)@, now),
    {
        if !self.accept(now) {
            return ;
        }
        self.state = match self.state {
            State::Idle => State::Pressed { down_at: now, is_second: false },
            State::WaitingForSecond { deadline, first_down_at, released_at } => {
                if now <= deadline {
                    let guard = self.second_press_guard();
                    if now.saturating_sub(released_at) < guard {
                        self.last_transition = Some(released_at);
                        State::Pressed { down_at: first_down_at, is_second: false }
                    } else {
                        State::Pressed { down_at: now, is_second: true }
                    }
                } else {
                    State::Pressed { down_at: now, is_second: false }
                }
            },
            State::Pressed { down_at, is_second } => State::Pressed { down_at, is_second },
        };
    }

    /// The release of the button at `now`; a completed double press is reported here.
    pub fn on_release(&mut self, now: u64) -> (r: Option<Action>)
        requires
            now + old(self)@.durations.double_window <= u64::MAX,
        ensures
            (final(self)@, r) == release_spec(old(self)@, now),
    {
        if !self.accept(now) {
            return None;
        }
        match self.state {
            State::Pressed { down_at, is_second } => {
                let held = now.saturating_sub(down_at);
                self.state = State::Idle;
                if held > self.durations.single_window {
                    return None;
                }
                if is_second {
                    return Some(Action::Double);
                }
                self.state =
                State::WaitingForSecond {
                    deadline: now + self.durations.double_window,
                    first_down_at: down_at,
                    released_at: now,
                };
                None
            },
            State::Idle | State::WaitingForSecond { .. } => None,
        }
    }

    /// Reports a single press once the window for a second press has closed.
    pub fn handle_timeout(&mut self, now: u64) -> (r: Option<Action>)
        ensures
            (final(self)@, r) == timeout_spec(old(self)@, now),
    {
        match self.state {
            State::WaitingForSecond { deadline, .. } => {
                if now >= deadline {
                    self.state = State::Idle;
                    Some(Action::Single)
                } else {
                    None
                }
            },
            _ => None,
        }
    }

    /// Time left until a pending single press is due.
    pub fn time_until_deadline(&self, now: u64) -> (r: Option<u64>)
        ensures
            r == time_until_deadline_spec(self@, now),
    {
        match self.state {
            State::WaitingForSecond { deadline, .. } => {
                if deadline > now {
                    Some(deadline - now)
                } else {
                    Some(0)
                }
            },
            _ => None,
        }
    }

    /// Whether an event at `now` passes the debounce filter; records it when it does.
    pub fn accept(&mut self, now: u64) -> (b: bool)
        ensures
            b == !is_bounce(old(self)@, now),
            b ==> final(self)@ == accepted(old(self)@, now),
            !b ==> final(self)@ == old(self)@,
    {
        if let Some(last) = self.last_transition {
            if now.saturating_sub(last) < self.durations.debounce {
                return false;
            }
        }
        self.last_transition = Some(now);
        true
    }

    pub fn second_press_guard(&self) -> (g: u64)
        ensures
            g == second_press_guard_spec(self@.durations),
    {
        if self.durations.debounce >= MIN_SECOND_PRESS_GUARD_MS {
            self.durations.debounce
        } else {
            MIN_SECOND_PRESS_GUARD_MS
        }
    }
}

/// A double press is reported only for the release of a press that was
/// recognised as the second of a pair.
pub proof fn lemma_double_only_after_second_press(m: TrackerModel, now: u64)
    ensures
        release_spec(m, now).1 == Some(Action::Double) ==> (m.state matches State::Pressed {
            is_second,
            ..
        } && is_second),
{
}

/// A single press is reported only by the timeout, once its deadline has passed.
pub proof fn lemma_single_only_by_timeout(m: TrackerModel, now: u64)
    ensures
        release_spec(m, now).1 != Some(Action::Single),
        timeout_spec(m, now).1 == Some(Action::Single) ==> (m.state matches State::WaitingForSecond {
            deadline,
            ..
        } && now >= deadline),
{
}

/// A bounced event changes nothing and reports nothing.
pub proof fn lemma_bounce_is_ignored(m: TrackerModel, now: u64)
    requires
        is_bounce(m, now),
    ensures
        press_spec(m, now) == m,
        release_spec(m, now) == (m, None::<Action>),
{
}

/// Waiting exactly the time that `time_until_deadline` reports makes the
/// pending single press fire.
pub proof fn lemma_deadline_wait_fires_single(m: TrackerModel, now: u64)
    requires
        time_until_deadline_spec(m, now) matches Some(d) && now + d <= u64::MAX,
    ensures
        ({
            let d = time_until_deadline_spec(m, now)->0;
            timeout_spec(m, (now + d) as u64).1 == Some(Action::Single)
        }),
{
}

/// A short press followed by a release leaves the tracker waiting for a
/// second press, and the timeout then reports exactly one single press.
pub proof fn lemma_press_release_timeout_is_single(m: TrackerModel, t0: u64, t1: u64, t2: u64)
    requires
        m.state == State::Idle,
        m.last_transition is None,
        t0 <= t1,
        t1 - t0 >= m.durations.debounce,
        t1 - t0 <= m.durations.single_window,
        t1 + m.durations.double_window <= t2,
        t2 <= u64::MAX,
    ensures
        ({
            let m1 = press_spec(m, t0);
            let (m2, r2) = release_spec(m1, t1);
            let (m3, r3) = timeout_spec(m2, t2);
            &&& r2 is None
            &&& r3 == Some(Action::Single)
            &&& m3.state == State::Idle
        }),
{
}

/// A press held longer than the single-press window is ignored: its release
/// leaves the tracker idle and reports nothing, so no later timeout reports
/// a single press for it.
pub proof fn lemma_long_press_is_ignored(m: TrackerModel, now: u64, later: u64)
    requires
        !is_bounce(m, now),
        m.state matches State::Pressed { down_at, .. } && now >= down_at && now - down_at
            > m.durations.single_window,
    ensures
        release_spec(m, now).0.state == State::Idle,
        release_spec(m, now).1 is None,
        timeout_spec(release_spec(m, now).0, later).1 is None,
{
}

/// From an idle tracker, a press held longer than the single-press window
/// then released reports nothing on release, and no timeout afterwards
/// reports anything.
pub proof fn lemma_long_hold_never_toggles(m: TrackerModel, t0: u64, t1: u64, t2: u64)
    requires
        m.state == State::Idle,
        m.last_transition is None,
        t0 <= t1,
        t1 - t0 >= m.durations.debounce,
        t1 - t0 > m.durations.single_window,
    ensures
        ({
            let m1 = press_spec(m, t0);
            let (m2, r2) = release_spec(m1, t1);
            let (m3, r3) = timeout_spec(m2, t2);
            &&& r2 is None
            &&& m2.state == State::Idle
            &&& r3 is None
        }),
{
}

/// Two short presses in quick succession are a double press: from an idle
/// tracker, a short press and release, then a second press within the double
/// window (and past the bounce guard) that is released within the single
/// window, reports a double press on that release and leaves the tracker
/// idle.
pub proof fn lemma_two_quick_presses_are_double(m: TrackerModel, t0: u64, t1: u64, t2: u64, t3: u64)
    requires
        m.state == State::Idle,
        m.last_transition is None,
        t0 <= t1 <= t2 <= t3,
        t1 - t0 >= m.durations.debounce,
        t1 - t0 <= m.durations.single_window,
        t1 + m.durations.double_window <= u64::MAX,
        t2 - t1 >= m.durations.debounce,
        t2 - t1 >= second_press_guard_spec(m.durations),
        t2 <= t1 + m.durations.double_window,
        t3 - t2 >= m.durations.debounce,
        t3 - t2 <= m.durations.single_window,
    ensures
        ({
            let m1 = press_spec(m, t0);
            let (m2, r2) = release_spec(m1, t1);
            let m3 = press_spec(m2, t2);
            let (m4, r4) = release_spec(m3, t3);
            &&& r2 is None
            &&& r4 == Some(Action::Double)
            &&& m4.state == State::Idle
        }),
{
}

} // verus!
