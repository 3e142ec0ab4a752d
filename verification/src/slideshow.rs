//! The slideshow's sequencing while the frame is awake: which photo is
//! shown, when the next transition starts and ends, which photo to report as
//! displayed, and whether another frame must be drawn. Photos are named by
//! the caller's frame numbers; times are milliseconds on a monotonic clock.
//! The drawing itself (and the transition's look) is the renderer's.
use vstd::prelude::*;
use crate::scene::RenderResult;

verus! {

/// A transition in progress, from `start` for `duration` ms, towards the
/// frame `next`.
#[derive(Debug, Clone, Copy, PartialEq, Eq, Structural)]
pub struct Transition {
    pub start: u64,
    pub duration: u64,
    pub next: u64,
}

/// The awake scene's photo sequence.
#[derive(Debug)]
pub struct SlideshowState {
    /// The frame on screen, once there is one.
    pub current: Option<u64>,
    /// The transition being drawn, if any.
    pub transition: Option<Transition>,
    /// Frames waiting to be shown, oldest first.
    pub pending: Vec<u64>,
    /// The frame to report as displayed after the next present.
    pub display_report: Option<u64>,
    /// A new frame arrived since the last draw.
    pub needs_redraw: bool,
    /// When the dwell on the current frame ends (none while a transition runs).
    pub next_transition_at: Option<u64>,
    /// How long a frame stays fully shown, in ms.
    pub dwell: u64,
}

/// The state of a slideshow as values.
pub struct SlideModel {
    pub current: Option<u64>,
    pub transition: Option<Transition>,
    pub pending: Seq<u64>,
    pub display_report: Option<u64>,
    pub needs_redraw: bool,
    pub next_transition_at: Option<u64>,
    pub dwell: u64,
}

impl View for SlideshowState {
    type V = SlideModel;

    open spec fn view(&self) -> SlideModel {
        SlideModel {
            current: self.current,
            transition: self.transition,
            pending: self.pending@,
            display_report: self.display_report,
            needs_redraw: self.needs_redraw,
            next_transition_at: self.next_transition_at,
            dwell: self.dwell,
        }
    }
}

/// `m` with `frame` on screen from `now`: it is to be reported, and its
/// dwell ends `dwell` ms later.
pub open spec fn shown(m: SlideModel, frame: u64, now: u64) -> SlideModel {
    SlideModel {
        current: Some(frame),
        display_report: Some(frame),
        next_transition_at: Some((now + m.dwell) as u64),
        ..m
    }
}

/// `m` with a transition towards `frame` started at `now`.
pub open spec fn started(m: SlideModel, frame: u64, now: u64, duration: u64) -> SlideModel {
    SlideModel {
        transition: Some(Transition { start: now, duration, next: frame }),
        next_transition_at: None,
        ..m
    }
}

/// `m` without its oldest pending frame.
pub open spec fn popped(m: SlideModel) -> SlideModel {
    SlideModel { pending: m.pending.drop_first(), ..m }
}

/// Whether the dwell on the current frame is over at `now` (no dwell running
/// counts as over).
pub open spec fn dwell_over(m: SlideModel, now: u64) -> bool {
    match m.next_transition_at {
        Some(deadline) => deadline <= now,
        None => true,
    }
}

/// Whether the transition `t` has reached its end at `now`: at least
/// 99.99 % of its duration has passed (a transition of no length is at its
/// end at once).
pub open spec fn transition_done(t: Transition, now: u64) -> bool {
    let elapsed: int = if now >= t.start {
        now - t.start
    } else {
        0
    };
    10000 * elapsed >= 9999 * t.duration
}

/// Before drawing: with nothing on screen the oldest pending frame is
/// shown.
pub open spec fn take_first(m: SlideModel, now: u64) -> SlideModel {
    if m.current is None && m.pending.len() > 0 {
        shown(popped(m), m.pending[0], now)
    } else {
        m
    }
}

/// Before drawing: with no transition running and the dwell over, a
/// transition towards the oldest pending frame starts.
pub open spec fn start_due(m: SlideModel, now: u64, duration: u64) -> SlideModel {
    if m.transition is None && dwell_over(m, now) && m.pending.len() > 0 {
        started(popped(m), m.pending[0], now, duration)
    } else {
        m
    }
}

/// After drawing: a transition at its end is finished, its frame shown.
pub open spec fn finish_due(m: SlideModel, now: u64) -> SlideModel {
    match m.transition {
        Some(t) => if transition_done(t, now) {
            SlideModel { transition: None, ..shown(m, t.next, now) }
        } else {
            m
        },
        None => m,
    }
}

/// One draw of the slideshow at `now`, where a transition that starts now
/// lasts `duration` ms: the state after it and whether another draw is
/// needed. With nothing on screen the draw is a plain clear and asks for
/// nothing more. Otherwise another draw is needed while a transition runs,
/// while frames wait for a dwell that is not over, or once after a new
/// frame arrived.
pub open spec fn render_spec(m: SlideModel, now: u64, duration: u64) -> (SlideModel, RenderResult) {
    let m1 = start_due(take_first(m, now), now, duration);
    if m1.current is None {
        (m1, RenderResult::Idle)
    } else {
        let m2 = finish_due(m1, now);
        let more = m2.transition is Some || (m2.next_transition_at matches Some(d) && m2.pending.len() > 0
            && d > now);
        if m2.needs_redraw {
            (SlideModel { needs_redraw: m2.transition is Some, ..m2 }, RenderResult::NeedsRedraw)
        } else {
            (m2, if more {
                RenderResult::NeedsRedraw
            } else {
                RenderResult::Idle
            })
        }
    }
}

/// A frame that arrived at `now`: shown at once when nothing is on screen
/// or running, the target of a new transition (lasting `duration` ms) when
/// a frame is shown and none waits, else queued. Either way a draw is due.
pub open spec fn queue_spec(m: SlideModel, frame: u64, now: u64, duration: u64) -> SlideModel {
    let m1 = if m.current is None && m.transition is None {
        shown(m, frame, now)
    } else if m.transition is None && m.pending.len() == 0 {
        started(m, frame, now, duration)
    } else {
        SlideModel { pending: m.pending.push(frame), ..m }
    };
    SlideModel { needs_redraw: true, ..m1 }
}

/// Nothing is waiting or incoming while nothing is on screen.
pub open spec fn slide_wf(m: SlideModel) -> bool {
    m.current is None ==> m.pending.len() == 0 && m.transition is None
}

/// An optional frame as a sequence of at most one.
pub open spec fn opt_seq(o: Option<u64>) -> Seq<u64> {
    match o {
        Some(x) => seq![x],
        None => seq![],
    }
}

/// The frames in line: the one on screen, the one a transition is bringing
/// in, then those waiting.
pub open spec fn frame_line(m: SlideModel) -> Seq<u64> {
    opt_seq(m.current) + opt_seq(
        match m.transition {
            Some(t) => Some(t.next),
            None => None,
        },
    ) + m.pending
}

/// Photos come on screen in the order they arrived and none is skipped: a
/// draw keeps the line of frames or removes only its front (the frame a
/// finished transition replaced), and an arriving frame joins the end of the
/// line.
pub proof fn lemma_frames_in_order(m: SlideModel, now: u64, duration: u64, frame: u64)
    requires
        slide_wf(m),
        now + m.dwell <= u64::MAX,
    ensures
        slide_wf(render_spec(m, now, duration).0),
        frame_line(render_spec(m, now, duration).0) == frame_line(m) || frame_line(
            render_spec(m, now, duration).0,
        ) == frame_line(m).drop_first(),
        slide_wf(queue_spec(m, frame, now, duration)),
        frame_line(queue_spec(m, frame, now, duration)) == frame_line(m).push(frame),
{
    let m1 = start_due(take_first(m, now), now, duration);
    assert(take_first(m, now) == m);
    if m.transition is None && dwell_over(m, now) && m.pending.len() > 0 {
        assert(frame_line(m1) =~= frame_line(m));
    }
    if m1.current is Some {
        let m2 = finish_due(m1, now);
        match m1.transition {
            Some(t) => {
                if transition_done(t, now) {
                    assert(frame_line(m2) =~= frame_line(m1).drop_first());
                }
            },
            None => {},
        }
        assert(frame_line(SlideModel { needs_redraw: m2.transition is Some, ..m2 }) == frame_line(m2));
    }
    let q = queue_spec(m, frame, now, duration);
    assert(frame_line(q) =~= frame_line(m).push(frame));
}

impl SlideshowState {
    /// An empty slideshow whose frames stay `dwell` ms.
    pub fn new(dwell: u64) -> (s: Self)
        ensures
            s@ == (SlideModel {
                current: None,
                transition: None,
                pending: Seq::empty(),
                display_report: None,
                needs_redraw: false,
                next_transition_at: None,
                dwell,
            }),
    {
        SlideshowState {
            current: None,
            transition: None,
            pending: Vec::new(),
            display_report: None,
            needs_redraw: false,
            next_transition_at: None,
            dwell,
        }
    }

    /// Puts `frame` on screen at `now`.
    fn set_current_frame(&mut self, frame: u64, now: u64)
        requires
            now + old(self).dwell <= u64::MAX,
        ensures
            final(self)@ == shown(old(self)@, frame, now),
    {
        self.next_transition_at = Some(now + self.dwell);
        self.display_report = Some(frame);
        self.current = Some(frame);
    }

    /// Starts a transition towards `frame` at `now`.
    fn start_transition(&mut self, frame: u64, now: u64, duration: u64)
        ensures
            final(self)@ == started(old(self)@, frame, now, duration),
    {
        self.transition = Some(Transition { start: now, duration, next: frame });
        self.next_transition_at = None;
    }

    /// Takes the oldest pending frame.
    fn pop_pending(&mut self) -> (f: u64)
        requires
            old(self).pending.len() > 0,
        ensures
            f == old(self)@.pending[0],
            final(self)@ == popped(old(self)@),
    {
        self.pending.remove(0)
    }

    /// Whether a draw at `now` starts a transition, so that its duration
    /// must be chosen first.
    pub fn transition_due(&self, now: u64) -> (b: bool)
        requires
            now + self.dwell <= u64::MAX,
        ensures
            b == (take_first(self@, now).transition is None && dwell_over(take_first(self@, now), now)
                && take_first(self@, now).pending.len() > 0),
    {
        let pending_after = if self.current.is_none() && self.pending.len() > 0 {
            self.pending.len() - 1
        } else {
            self.pending.len()
        };
        let over = if self.current.is_none() && self.pending.len() > 0 {
            self.dwell == 0
        } else {
            match self.next_transition_at {
                Some(deadline) => deadline <= now,
                None => true,
            }
        };
        self.transition.is_none() && over && pending_after > 0
    }

    /// Whether the transition `t` has reached its end at `now`.
    fn is_done(t: Transition, now: u64) -> (b: bool)
        ensures
            b == transition_done(t, now),
    {
        let elapsed: u64 = if now >= t.start {
            now - t.start
        } else {
            0
        };
        10000u128 * (elapsed as u128) >= 9999u128 * (t.duration as u128)
    }

    /// A frame that arrived at `now`; `duration` is the length of the
    /// transition it starts, if it starts one.
    pub fn queue_photo(&mut self, frame: u64, now: u64, duration: u64)
        requires
            now + old(self).dwell <= u64::MAX,
        ensures
            final(self)@ == queue_spec(old(self)@, frame, now, duration),
    {
        if self.current.is_none() && self.transition.is_none() {
            self.set_current_frame(frame, now);
        } else if self.transition.is_none() && self.pending.len() == 0 {
            self.start_transition(frame, now, duration);
        } else {
            self.pending.push(frame);
        }
        self.needs_redraw = true;
    }

    /// One draw at `now` (see `render_spec`); `duration` is the length of a
    /// transition that starts in it (see `transition_due`).
    pub fn render_step(&mut self, now: u64, duration: u64) -> (r: RenderResult)
        requires
            now + old(self).dwell <= u64::MAX,
        ensures
            (final(self)@, r) == render_spec(old(self)@, now, duration),
    {
        if self.current.is_none() && self.pending.len() > 0 {
            let frame = self.pop_pending();
            self.set_current_frame(frame, now);
        }
        let ready = match self.next_transition_at {
            Some(deadline) => deadline <= now,
            None => true,
        };
        if self.transition.is_none() && ready && self.pending.len() > 0 {
            let frame = self.pop_pending();
            self.start_transition(frame, now, duration);
        }
        if self.current.is_none() {
            return RenderResult::Idle;
        }
        match self.transition {
            Some(t) => {
                if Self::is_done(t, now) {
                    self.set_current_frame(t.next, now);
                    self.transition = None;
                }
            },
            None => {},
        }
        let more = self.transition.is_some() || match self.next_transition_at {
            Some(d) => self.pending.len() > 0 && d > now,
            None => false,
        };
        if self.needs_redraw {
            if self.transition.is_none() {
                self.needs_redraw = false;
            }
            RenderResult::NeedsRedraw
        } else if more {
            RenderResult::NeedsRedraw
        } else {
            RenderResult::Idle
        }
    }

    /// The frame to report as displayed after a present, once.
    pub fn take_display_report(&mut self) -> (r: Option<u64>)
        ensures
            r == old(self)@.display_report,
            final(self)@ == (SlideModel { display_report: None, ..old(self)@ }),
    {
        self.display_report.take()
    }
}

} // verus!
