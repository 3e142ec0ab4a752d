//! The decisions of the task that enforces the awake schedule on the viewer.
//!
//! The program runs the loop: it asks `plan` what to do, sends the command
//! or waits, and after a wait calls `fire` with the event that was awaited.
//! Times are nanoseconds on the monotonic clock; `wait_until` measures the
//! wall-clock distance to a scheduled transition.
use vstd::prelude::*;
use crate::awake::Timestamp;
use crate::events::ViewerState;

verus! {

/// How long the task sleeps when nothing is due, in nanoseconds.
pub const IDLE_WAIT_NS: u64 = 60_000_000_000;

/// What a wait is for.
#[derive(Debug, Clone, Copy, PartialEq, Eq, Structural)]
pub enum ScheduleWake {
    /// Nothing: look again.
    Idle,
    /// The greeting delay before the first wake ends.
    InitialAwake,
    /// A scheduled transition to awake (`true`) or asleep.
    Transition(bool),
}

/// What the task does next.
#[derive(Debug, Clone, Copy, PartialEq, Eq, Structural)]
pub enum ScheduleAction {
    /// Send this state to the viewer now, then plan again.
    Send(ViewerState),
    /// Wait this many nanoseconds, then `fire` the event (for `Idle`, plan again).
    Wait { wait_ns: u64, event: ScheduleWake },
}

/// The task's memory: the state last sent, and when the deferred first wake is due.
#[derive(Debug, Clone, Copy, PartialEq, Eq, Structural)]
pub struct ScheduleDriver {
    pub last_state: Option<bool>,
    pub initial_deadline: Option<u64>,
}

pub open spec fn state_of(awake: bool) -> ViewerState {
    if awake {
        ViewerState::Awake
    } else {
        ViewerState::Asleep
    }
}

/// The wait and event when the sent state already matches the schedule.
pub open spec fn next_wait(deadline: Option<u64>, now_ns: u64, transition: Option<(u64, bool)>) -> (u64, ScheduleWake) {
    let (w0, e0) = match deadline {
        Some(d) => (if d > now_ns {
            (d - now_ns) as u64
        } else {
            0u64
        }, ScheduleWake::InitialAwake),
        None => (IDLE_WAIT_NS, ScheduleWake::Idle),
    };
    match transition {
        Some((tw, after)) => if e0 == ScheduleWake::Idle || tw < w0 {
            (tw, ScheduleWake::Transition(after))
        } else {
            (w0, e0)
        },
        None => (w0, e0),
    }
}

fn state_of_exec(awake: bool) -> (s: ViewerState)
    ensures
        s == state_of(awake),
{
    if awake {
        ViewerState::Awake
    } else {
        ViewerState::Asleep
    }
}

impl ScheduleDriver {
    /// Nothing sent yet, no wake deferred.
    pub fn new() -> (d: Self)
        ensures
            d.last_state is None,
            d.initial_deadline is None,
    {
        ScheduleDriver { last_state: None, initial_deadline: None }
    }

    /// One planning step, at `now_ns`, when the schedule says `awake_now` and
    /// the next transition (if any) is `transition` = (wait, awake after).
    ///
    /// A change of state is sent at once, except the very first wake, which
    /// waits out the greeting delay; a sleep cancels a deferred wake. When
    /// nothing changes, the task waits for the earlier of the deferred wake
    /// and the next transition (or a minute).
    pub fn plan(
        &mut self,
        awake_now: bool,
        greeting_delay_ns: u64,
        now_ns: u64,
        transition: Option<(u64, bool)>,
    ) -> (a: ScheduleAction)
        ensures
            old(self).last_state != Some(awake_now) && !awake_now ==> a == ScheduleAction::Send(
                ViewerState::Asleep,
            ) && *final(self) == (ScheduleDriver { last_state: Some(false), initial_deadline: None }),
            old(self).last_state != Some(awake_now) && awake_now && (old(self).last_state is Some
                || greeting_delay_ns == 0) ==> a == ScheduleAction::Send(ViewerState::Awake)
                && final(self).last_state == Some(true) && final(self).initial_deadline == old(
                self,
            ).initial_deadline,
            old(self).last_state is None && awake_now && greeting_delay_ns > 0 ==> ({
                let deadline = match old(self).initial_deadline {
                    Some(d) => d,
                    None => if now_ns as int + greeting_delay_ns as int > u64::MAX {
                        u64::MAX
                    } else {
                        (now_ns + greeting_delay_ns) as u64
                    },
                };
                let (w, e) = next_wait(Some(deadline), now_ns, transition);
                &&& final(self).initial_deadline == Some(deadline)
                &&& final(self).last_state is None
                &&& a == (ScheduleAction::Wait { wait_ns: w, event: e })
            }),
            old(self).last_state == Some(awake_now) ==> ({
                let (w, e) = next_wait(old(self).initial_deadline, now_ns, transition);
                &&& *final(self) == *old(self)
                &&& a == (ScheduleAction::Wait { wait_ns: w, event: e })
            }),
    {
        if self.last_state != Some(awake_now) {
            if awake_now {
                if self.last_state.is_none() {
                    if greeting_delay_ns == 0 {
                        self.last_state = Some(true);
                        return ScheduleAction::Send(ViewerState::Awake);
                    }
                    if self.initial_deadline.is_none() {
                        let deadline = if now_ns > u64::MAX - greeting_delay_ns {
                            u64::MAX
                        } else {
                            now_ns + greeting_delay_ns
                        };
                        self.initial_deadline = Some(deadline);
                    }
                } else {
                    self.last_state = Some(true);
                    return ScheduleAction::Send(ViewerState::Awake);
                }
            } else {
                self.initial_deadline = None;
                self.last_state = Some(false);
                return ScheduleAction::Send(ViewerState::Asleep);
            }
        }
        let (mut wait, mut event) = match self.initial_deadline {
            Some(d) => (if d > now_ns {
                d - now_ns
            } else {
                0
            }, ScheduleWake::InitialAwake),
            None => (IDLE_WAIT_NS, ScheduleWake::Idle),
        };
        match transition {
            Some((tw, after)) => {
                if event == ScheduleWake::Idle || tw < wait {
                    wait = tw;
                    event = ScheduleWake::Transition(after);
                }
            },
            None => {},
        }
        ScheduleAction::Wait { wait_ns: wait, event }
    }

    /// The awaited `event` is due; `awake_now` is what the schedule says now.
    /// The deferred first wake sends the state in force (and is done with);
    /// a transition sends its state (a sleep also cancels a deferred wake).
    pub fn fire(&mut self, event: ScheduleWake, awake_now: bool) -> (r: Option<ViewerState>)
        ensures
            event == ScheduleWake::Idle ==> r is None && *final(self) == *old(self),
            event == ScheduleWake::InitialAwake ==> r == Some(state_of(awake_now)) && *final(self)
                == (ScheduleDriver { last_state: Some(awake_now), initial_deadline: None }),
            event matches ScheduleWake::Transition(after) ==> r == Some(state_of(after))
                && final(self).last_state == Some(after) && final(self).initial_deadline == (if after {
                old(self).initial_deadline
            } else {
                None
            }),
    {
        match event {
            ScheduleWake::Idle => None,
            ScheduleWake::InitialAwake => {
                self.initial_deadline = None;
                self.last_state = Some(awake_now);
                Some(state_of_exec(awake_now))
            },
            ScheduleWake::Transition(after) => {
                self.last_state = Some(after);
                if !after {
                    self.initial_deadline = None;
                }
                Some(state_of_exec(after))
            },
        }
    }
}

/// Nanoseconds from `now` until `at` (nothing when `at` has passed), capped
/// at the largest `u64`.
pub fn wait_until(now: Timestamp, at: Timestamp) -> (r: u64)
    ensures
        ({
            let d = (at.secs as int - now.secs as int) * 1_000_000_000 + at.nanos as int
                - now.nanos as int;
            r as int == (if d <= 0 {
                0
            } else if d > u64::MAX {
                u64::MAX as int
            } else {
                d
            })
        }),
{
    let d: i128 = (at.secs as i128 - now.secs as i128) * 1_000_000_000 + at.nanos as i128
        - now.nanos as i128;
    if d <= 0 {
        0
    } else if d > u64::MAX as i128 {
        u64::MAX
    } else {
        d as u64
    }
}

/// The first wake waits out the greeting: from a fresh task, when the
/// schedule says awake and there is a greeting delay, nothing is sent.
pub proof fn lemma_first_wake_deferred(
    awake_now: bool,
    greeting_delay_ns: u64,
    now_ns: u64,
    transition: Option<(u64, bool)>,
)
    requires
        awake_now,
        greeting_delay_ns > 0,
    ensures
        ({
            let deadline = if now_ns as int + greeting_delay_ns as int > u64::MAX {
                u64::MAX
            } else {
                (now_ns + greeting_delay_ns) as u64
            };
            next_wait(Some(deadline), now_ns, transition).1 != ScheduleWake::Idle
        }),
{
}

} // verus!
