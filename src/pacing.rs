use vstd::prelude::*;
use crate::coalesce::{bounds_in, bounds_of, coalesce_dirty_rects, coalesce_result, lemma_coalesce_result_nonempty};
use crate::encoding::base64_of;
use crate::frame::{DirtyRect, FrameUpdate};
use crate::framebuffer::FrameBuffer;
use crate::input::elapsed_ms;
use crate::session::RdpError;

verus! {

/// Emit interval, in milliseconds, while there is input activity or pending changes.
pub const ACTIVE_INTERVAL_MS: u64 = 50;
/// Emit interval, in milliseconds, while idle.
pub const IDLE_INTERVAL_MS: u64 = 200;
/// How long, in milliseconds, input counts as recent activity.
pub const ACTIVITY_WINDOW_MS: u64 = 2000;

/// The emit interval for the given activity and pending changes.
pub open spec fn spec_interval(has_activity: bool, has_changes: bool) -> u64 {
    if has_activity || has_changes {
        ACTIVE_INTERVAL_MS
    } else {
        IDLE_INTERVAL_MS
    }
}

/// Short while anything is going on, long while idle.
pub fn frame_interval(has_activity: bool, has_changes: bool) -> (r: u64)
    ensures
        r == spec_interval(has_activity, has_changes),
{
    if has_activity || has_changes {
        ACTIVE_INTERVAL_MS
    } else {
        IDLE_INTERVAL_MS
    }
}

/// What one step of the protocol session gave the pacing loop.
pub enum StepEvent {
    /// The screen changed over these rectangles.
    Updated(Vec<DirtyRect>),
    /// Nothing changed.
    NoUpdate,
    /// The session failed.
    Failed(RdpError),
}

/// What the pacing loop does after a step.
pub enum TickOutcome {
    /// Go on, emitting this update first if there is one.
    Continue(Option<FrameUpdate>),
    /// Stop, reporting this error.
    Stop(RdpError),
}

/// The rectangles of a step lie on the screen.
pub open spec fn event_fits(e: &StepEvent, frame: FrameBuffer) -> bool {
    match e {
        StepEvent::Updated(rects) => forall|i: int| 0 <= i < rects@.len() ==> bounds_in(bounds_of(#[trigger] rects@[i]), frame),
        _ => true,
    }
}

/// Decides when the screen's changes go out: the whole screen once, first, then the
/// changed rectangles, coalesced, at most once per interval.
pub struct FramePacer {
    width: u16,
    height: u16,
    full_sent: bool,
    pending: Vec<DirtyRect>,
    last_frame_ms: u64,
    last_input_ms: u64,
}

impl FramePacer {
    pub closed spec fn spec_width(&self) -> u16 {
        self.width
    }

    pub closed spec fn spec_height(&self) -> u16 {
        self.height
    }

    /// Whether the whole screen has gone out.
    pub closed spec fn spec_full_sent(&self) -> bool {
        self.full_sent
    }

    /// Changed rectangles not yet sent, in the order they came.
    pub closed spec fn spec_pending(&self) -> Seq<DirtyRect> {
        self.pending@
    }

    pub closed spec fn spec_last_frame(&self) -> u64 {
        self.last_frame_ms
    }

    pub closed spec fn spec_last_input(&self) -> u64 {
        self.last_input_ms
    }

    /// Whether input counts as recent at `now`.
    pub open spec fn active_at(&self, now: u64) -> bool {
        elapsed_ms(now, self.spec_last_input()) < ACTIVITY_WINDOW_MS
    }

    /// The emit interval at `now`.
    pub open spec fn interval_at(&self, now: u64) -> u64 {
        spec_interval(self.active_at(now), self.spec_pending().len() > 0)
    }

    /// Every pending rectangle lies on a screen of the pacer's size.
    pub open spec fn wf(&self) -> bool {
        forall|i: int|
            0 <= i < self.spec_pending().len() ==> {
                let b = bounds_of(#[trigger] self.spec_pending()[i]);
                b.x + b.width <= self.spec_width() && b.y + b.height <= self.spec_height()
            }
    }

    /// A pacer for a screen of the given size, started at `now_ms`, which counts as input.
    pub fn new(width: u16, height: u16, now_ms: u64) -> (r: Self)
        ensures
            r.wf(),
            r.spec_width() == width,
            r.spec_height() == height,
            !r.spec_full_sent(),
            r.spec_pending() == Seq::<DirtyRect>::empty(),
            r.spec_last_frame() == now_ms,
            r.spec_last_input() == now_ms,
    {
        FramePacer {
            width,
            height,
            full_sent: false,
            pending: Vec::new(),
            last_frame_ms: now_ms,
            last_input_ms: now_ms,
        }
    }

    /// Records that input went to the session at `now_ms`.
    pub fn note_input(&mut self, now_ms: u64)
        ensures
            final(self).spec_last_input() == now_ms,
            final(self).spec_width() == old(self).spec_width(),
            final(self).spec_height() == old(self).spec_height(),
            final(self).spec_full_sent() == old(self).spec_full_sent(),
            final(self).spec_pending() == old(self).spec_pending(),
            final(self).spec_last_frame() == old(self).spec_last_frame(),
    {
        self.last_input_ms = now_ms;
    }

    /// The emit interval at `now_ms`.
    pub fn current_interval(&self, now_ms: u64) -> (r: u64)
        ensures
            r == self.interval_at(now_ms),
    {
        let waited = if now_ms >= self.last_input_ms { now_ms - self.last_input_ms } else { 0 };
        frame_interval(waited < ACTIVITY_WINDOW_MS, self.pending.len() > 0)
    }

    /// Takes the outcome of one protocol step at `now_ms`. A failure stops the loop.
    /// While the whole screen has not gone out, a step without changes sends it at
    /// once, and so does the first due emit; after that, pending changes go out as one
    /// partial update of their coalesced rectangles, captured anew from `frame`, once
    /// the short interval has passed since the last emit.
    pub fn tick(&mut self, event: StepEvent, now_ms: u64, frame: &FrameBuffer) -> (r: TickOutcome)
        requires
            old(self).wf(),
            frame.wf(),
            frame.width == old(self).spec_width(),
            frame.height == old(self).spec_height(),
            event_fits(&event, *frame),
        ensures
            final(self).wf(),
            final(self).spec_width() == old(self).spec_width(),
            final(self).spec_height() == old(self).spec_height(),
            final(self).spec_last_input() == old(self).spec_last_input(),
            r matches TickOutcome::Continue(Some(FrameUpdate::Full { .. })) ==> !old(self).spec_full_sent(),
            r matches TickOutcome::Continue(Some(FrameUpdate::Partial { rects })) ==> old(self).spec_full_sent()
                && rects@.len() > 0,
            old(self).spec_full_sent() ==> final(self).spec_full_sent(),
            match event {
                StepEvent::Failed(e) => r == TickOutcome::Stop(e) && *final(self) == *old(self),
                _ => {
                    let pend = match event {
                        StepEvent::Updated(rects) => old(self).spec_pending() + rects@,
                        _ => old(self).spec_pending(),
                    };
                    let due = pend.len() > 0 && elapsed_ms(now_ms, old(self).spec_last_frame()) >= ACTIVE_INTERVAL_MS;
                    if !old(self).spec_full_sent() && (event is NoUpdate || due) {
                        &&& r matches TickOutcome::Continue(Some(FrameUpdate::Full { width, height, data }))
                        &&& width == frame.width && height == frame.height && data@ == base64_of(frame.data@)
                        &&& final(self).spec_full_sent()
                        &&& final(self).spec_pending() == Seq::<DirtyRect>::empty()
                        &&& final(self).spec_last_frame() == now_ms
                    } else if due {
                        &&& r matches TickOutcome::Continue(Some(FrameUpdate::Partial { rects }))
                        &&& coalesce_result(pend, *frame, rects@)
                        &&& final(self).spec_full_sent()
                        &&& final(self).spec_pending() == Seq::<DirtyRect>::empty()
                        &&& final(self).spec_last_frame() == now_ms
                    } else {
                        &&& r matches TickOutcome::Continue(None)
                        &&& final(self).spec_full_sent() == old(self).spec_full_sent()
                        &&& final(self).spec_pending() == pend
                        &&& final(self).spec_last_frame() == old(self).spec_last_frame()
                    }
                },
            },
    {
        let no_update = match event {
            StepEvent::Failed(e) => {
                return TickOutcome::Stop(e);
            },
            StepEvent::Updated(rects) => {
                let ghost before = self.pending@;
                let ghost added = rects@;
                let mut rects = rects;
                self.pending.append(&mut rects);
                proof {
                    assert(self.pending@ =~= before + added);
                    assert(forall|j: int| 0 <= j < added.len() ==> bounds_in(bounds_of(#[trigger] added[j]), *frame));
                    assert forall|i: int| 0 <= i < self.pending@.len() implies {
                        let b = bounds_of(#[trigger] self.pending@[i]);
                        b.x + b.width <= self.width && b.y + b.height <= self.height
                    } by {
                        if i >= before.len() {
                            assert(self.pending@[i] == added[i - before.len()]);
                            assert(bounds_in(bounds_of(added[i - before.len()]), *frame));
                        } else {
                            assert(self.pending@[i] == before[i]);
                            assert(old(self).spec_pending()[i] == before[i]);
                        }
                    }
                }
                false
            },
            StepEvent::NoUpdate => true,
        };
        assert(self.wf());
        assert(self.width == frame.width && self.height == frame.height);
        let waited = if now_ms >= self.last_frame_ms { now_ms - self.last_frame_ms } else { 0 };
        let due = self.pending.len() > 0 && waited >= frame_interval(false, true);
        if !self.full_sent && (no_update || due) {
            self.full_sent = true;
            self.pending = Vec::new();
            self.last_frame_ms = now_ms;
            TickOutcome::Continue(Some(FrameUpdate::of_frame(frame)))
        } else if due {
            let ghost pend_now = self.pending@;
            assert(forall|i: int| 0 <= i < pend_now.len() ==> bounds_in(bounds_of(#[trigger] pend_now[i]), *frame));
            let mut taken: Vec<DirtyRect> = Vec::new();
            core::mem::swap(&mut taken, &mut self.pending);
            assert forall|i: int| 0 <= i < taken@.len() implies bounds_in(bounds_of(#[trigger] taken@[i]), *frame) by {
                assert(taken@[i] == pend_now[i]);
            }
            self.last_frame_ms = now_ms;
            let rects = coalesce_dirty_rects(taken, frame);
            proof {
                lemma_coalesce_result_nonempty(pend_now, *frame, rects@);
            }
            TickOutcome::Continue(Some(FrameUpdate::Partial { rects }))
        } else {
            TickOutcome::Continue(None)
        }
    }
}

/// Pacing responds at once: with no recent input and nothing pending the interval is
/// the idle one; right after input, or with anything pending, it is the active one.
pub proof fn lemma_interval_follows_activity(p: FramePacer, now: u64)
    ensures
        !p.active_at(now) && p.spec_pending().len() == 0 ==> p.interval_at(now) == IDLE_INTERVAL_MS,
        p.active_at(now) || p.spec_pending().len() > 0 ==> p.interval_at(now) == ACTIVE_INTERVAL_MS,
        p.spec_last_input() <= now < p.spec_last_input() + ACTIVITY_WINDOW_MS ==> p.interval_at(now)
            == ACTIVE_INTERVAL_MS,
{
}

} // verus!
