use vstd::prelude::*;

verus! {

broadcast use vstd::seq_lib::group_filter_ensures;

/// A local input event to forward to the remote desktop.
#[derive(Debug, Clone, Copy, PartialEq, Eq, Structural)]
pub enum InputEvent {
    MouseMove { x: u16, y: u16 },
    MouseButton { button: u8, down: bool, x: u16, y: u16 },
    MouseWheel { delta: i16, x: u16, y: u16 },
    Keyboard { scancode: u16, down: bool },
}

pub const MOUSE_BUTTON_LEFT: u8 = 1;
pub const MOUSE_BUTTON_RIGHT: u8 = 2;
pub const MOUSE_BUTTON_MIDDLE: u8 = 3;

/// Pointer flag: the wheel turned towards the user.
pub const PTR_WHEEL_NEGATIVE: u16 = 0x0100;
/// Pointer flag: vertical wheel rotation.
pub const PTR_VERTICAL_WHEEL: u16 = 0x0200;
/// Pointer flag: the pointer moved.
pub const PTR_MOVE: u16 = 0x0800;
/// Pointer flag: left button.
pub const PTR_LEFT_BUTTON: u16 = 0x1000;
/// Pointer flag: right button.
pub const PTR_RIGHT_BUTTON: u16 = 0x2000;
/// Pointer flag: middle button.
pub const PTR_MIDDLE_BUTTON: u16 = 0x4000;
/// Pointer flag: the button went down.
pub const PTR_DOWN: u16 = 0x8000;
/// Keyboard flag: the key went up.
pub const KBD_RELEASE: u8 = 0x01;
/// Keyboard flag: an extended key.
pub const KBD_EXTENDED: u8 = 0x02;

/// An input event in the low-latency wire form: flag bits and values.
#[derive(Debug, Clone, Copy, PartialEq, Eq, Structural)]
pub enum FastPathInput {
    Mouse { flags: u16, wheel_rotation_units: i16, x: u16, y: u16 },
    Keyboard { key_flags: u8, scancode: u8 },
}

/// The pointer flag of a button number; unknown numbers count as the left button.
pub open spec fn spec_button_flag(button: u8) -> u16 {
    if button == 2 {
        PTR_RIGHT_BUTTON
    } else if button == 3 {
        PTR_MIDDLE_BUTTON
    } else {
        PTR_LEFT_BUTTON
    }
}

/// The wire form of an input event.
pub open spec fn spec_fastpath(e: InputEvent) -> FastPathInput {
    match e {
        InputEvent::MouseMove { x, y } => FastPathInput::Mouse { flags: PTR_MOVE, wheel_rotation_units: 0, x, y },
        InputEvent::MouseButton { button, down, x, y } => FastPathInput::Mouse {
            flags: if down { PTR_DOWN | spec_button_flag(button) } else { spec_button_flag(button) },
            wheel_rotation_units: 0,
            x,
            y,
        },
        InputEvent::MouseWheel { delta, x, y } => FastPathInput::Mouse {
            flags: if delta < 0 { PTR_VERTICAL_WHEEL | PTR_WHEEL_NEGATIVE } else { PTR_VERTICAL_WHEEL },
            wheel_rotation_units: delta,
            x,
            y,
        },
        InputEvent::Keyboard { scancode, down } => FastPathInput::Keyboard {
            key_flags: (if down { 0u8 } else { KBD_RELEASE }) | (if scancode > 0x7f { KBD_EXTENDED } else { 0u8 }),
            scancode: scancode as u8,
        },
    }
}

/// The pointer-move event at (x, y).
pub fn mouse_move_input(x: u16, y: u16) -> (r: FastPathInput)
    ensures
        r == spec_fastpath(InputEvent::MouseMove { x, y }),
{
    FastPathInput::Mouse { flags: PTR_MOVE, wheel_rotation_units: 0, x, y }
}

/// The button press or release event at (x, y).
pub fn mouse_button_input(button: u8, down: bool, x: u16, y: u16) -> (r: FastPathInput)
    ensures
        r == spec_fastpath(InputEvent::MouseButton { button, down, x, y }),
{
    let button_flag: u16 = if button == MOUSE_BUTTON_RIGHT {
        PTR_RIGHT_BUTTON
    } else if button == MOUSE_BUTTON_MIDDLE {
        PTR_MIDDLE_BUTTON
    } else {
        PTR_LEFT_BUTTON
    };
    let flags: u16 = if down { PTR_DOWN | button_flag } else { button_flag };
    FastPathInput::Mouse { flags, wheel_rotation_units: 0, x, y }
}

/// The vertical wheel event of `delta` units at (x, y).
pub fn mouse_wheel_input(delta: i16, x: u16, y: u16) -> (r: FastPathInput)
    ensures
        r == spec_fastpath(InputEvent::MouseWheel { delta, x, y }),
{
    let flags: u16 = if delta < 0 { PTR_VERTICAL_WHEEL | PTR_WHEEL_NEGATIVE } else { PTR_VERTICAL_WHEEL };
    FastPathInput::Mouse { flags, wheel_rotation_units: delta, x, y }
}

/// The key event; scan codes above 0x7f are sent as extended keys of their low byte.
pub fn keyboard_input(scancode: u16, down: bool) -> (r: FastPathInput)
    ensures
        r == spec_fastpath(InputEvent::Keyboard { scancode, down }),
{
    let release: u8 = if down { 0 } else { KBD_RELEASE };
    let extended: u8 = if scancode > 0x7f { KBD_EXTENDED } else { 0 };
    FastPathInput::Keyboard { key_flags: release | extended, scancode: scancode as u8 }
}

impl InputEvent {
    /// The wire form of this event.
    pub fn to_fastpath(&self) -> (r: FastPathInput)
        ensures
            r == spec_fastpath(*self),
    {
        match *self {
            InputEvent::MouseMove { x, y } => mouse_move_input(x, y),
            InputEvent::MouseButton { button, down, x, y } => mouse_button_input(button, down, x, y),
            InputEvent::MouseWheel { delta, x, y } => mouse_wheel_input(delta, x, y),
            InputEvent::Keyboard { scancode, down } => keyboard_input(scancode, down),
        }
    }

    /// Whether this is a pointer move.
    pub fn is_mouse_move(&self) -> (r: bool)
        ensures
            r == is_move(*self),
    {
        match self {
            InputEvent::MouseMove { .. } => true,
            _ => false,
        }
    }

    /// Whether this event must go out without delay: a button or a key.
    pub fn is_critical(&self) -> (r: bool)
        ensures
            r == is_critical(*self),
    {
        match self {
            InputEvent::MouseButton { .. } | InputEvent::Keyboard { .. } => true,
            _ => false,
        }
    }
}

pub open spec fn is_move(e: InputEvent) -> bool {
    e is MouseMove
}

pub open spec fn is_critical(e: InputEvent) -> bool {
    e is MouseButton || e is Keyboard
}

/// Selects pointer moves.
pub open spec fn move_pred() -> spec_fn(InputEvent) -> bool {
    |e: InputEvent| is_move(e)
}

/// Selects everything but pointer moves.
pub open spec fn keep_pred() -> spec_fn(InputEvent) -> bool {
    |e: InputEvent| !is_move(e)
}

/// The number of pointer moves in a queue.
pub open spec fn move_count(s: Seq<InputEvent>) -> nat {
    s.filter(move_pred()).len()
}

/// Time from `since` to `now`, in milliseconds; zero if the clock reads earlier.
pub open spec fn elapsed_ms(now: u64, since: u64) -> int {
    if now >= since { now - since } else { 0 }
}

/// A queue that collects input events briefly so that bursts go out together.
pub struct InputBatcher {
    pending_events: Vec<InputEvent>,
    last_flush_ms: u64,
    max_batch_time_ms: u64,
    max_batch_size: usize,
    last_mouse_pos: Option<(u16, u16)>,
}

/// Longest time, in milliseconds, that an event waits in the queue.
pub const MAX_BATCH_TIME_MS: u64 = 16;
/// Queue length at which the queue goes out.
pub const MAX_BATCH_SIZE: usize = 10;

impl InputBatcher {
    /// The queued events, oldest first.
    pub closed spec fn pending(&self) -> Seq<InputEvent> {
        self.pending_events@
    }

    /// When the queue last went out, in milliseconds.
    pub closed spec fn last_flush(&self) -> u64 {
        self.last_flush_ms
    }

    /// The position of the latest pointer move added.
    pub closed spec fn last_mouse(&self) -> Option<(u16, u16)> {
        self.last_mouse_pos
    }

    /// Whether the queue is due to go out at `now`: it holds something, and it is full,
    /// or has waited long enough, or holds a button or key event.
    pub open spec fn due(&self, now: u64) -> bool {
        &&& self.pending().len() > 0
        &&& {
            ||| self.pending().len() >= MAX_BATCH_SIZE
            ||| elapsed_ms(now, self.last_flush()) >= MAX_BATCH_TIME_MS
            ||| exists|i: int| 0 <= i < self.pending().len() && is_critical(#[trigger] self.pending()[i])
        }
    }

    pub closed spec fn limits_fixed(&self) -> bool {
        self.max_batch_time_ms == MAX_BATCH_TIME_MS && self.max_batch_size == MAX_BATCH_SIZE
    }

    /// An empty queue whose clock starts at `now_ms`.
    pub fn new(now_ms: u64) -> (r: Self)
        ensures
            r.pending() == Seq::<InputEvent>::empty(),
            r.last_flush() == now_ms,
            r.last_mouse() is None,
            r.limits_fixed(),
    {
        InputBatcher {
            pending_events: Vec::new(),
            last_flush_ms: now_ms,
            max_batch_time_ms: MAX_BATCH_TIME_MS,
            max_batch_size: MAX_BATCH_SIZE,
            last_mouse_pos: None,
        }
    }

    /// Queues `event`; a pointer move replaces any pointer move already queued.
    /// Returns whether the queue is now due to go out.
    pub fn add_event(&mut self, event: InputEvent, now_ms: u64) -> (r: bool)
        requires
            old(self).limits_fixed(),
        ensures
            final(self).limits_fixed(),
            final(self).last_flush() == old(self).last_flush(),
            final(self).pending() == if is_move(event) {
                old(self).pending().filter(keep_pred()).push(event)
            } else {
                old(self).pending().push(event)
            },
            is_move(event) ==> move_count(final(self).pending()) == 1,
            final(self).last_mouse() == (match event {
                InputEvent::MouseMove { x, y } => Some((x, y)),
                _ => old(self).last_mouse(),
            }),
            r == final(self).due(now_ms),
            is_critical(event) ==> r,
    {
        if let InputEvent::MouseMove { x, y } = event {
            let mut kept: Vec<InputEvent> = Vec::new();
            let mut i: usize = 0;
            while i < self.pending_events.len()
                invariant
                    i <= self.pending_events@.len(),
                    kept@ == self.pending_events@.subrange(0, i as int).filter(keep_pred()),
                decreases self.pending_events@.len() - i,
            {
                let e = self.pending_events[i];
                let ghost sub = self.pending_events@.subrange(0, i + 1);
                proof {
                    assert(sub =~= self.pending_events@.subrange(0, i as int).push(e));
                    reveal(Seq::filter);
                    assert(sub.drop_last() =~= self.pending_events@.subrange(0, i as int));
                }
                if !e.is_mouse_move() {
                    kept.push(e);
                }
                assert(kept@ == sub.filter(keep_pred()));
                i = i + 1;
            }
            proof {
                assert(self.pending_events@.subrange(0, self.pending_events@.len() as int) =~= self.pending_events@);
                lemma_kept_has_no_moves(self.pending_events@);
                lemma_filter_removes_moves(kept@);
            }
            self.pending_events = kept;
            self.last_mouse_pos = Some((x, y));
        }
        self.pending_events.push(event);
        proof {
            reveal(Seq::filter);
            if is_move(event) {
                let q = self.pending_events@;
                assert(q.drop_last() =~= old(self).pending().filter(keep_pred()));
                assert(q.drop_last().filter(move_pred()).len() == 0);
                assert(q.filter(move_pred()) =~= q.drop_last().filter(move_pred()).push(event));
            }
            if is_critical(event) {
                assert(is_critical(self.pending_events@[self.pending_events@.len() - 1]));
            }
        }
        self.should_flush(now_ms)
    }

    /// Whether the queue is due to go out at `now_ms`.
    pub fn should_flush(&self, now_ms: u64) -> (r: bool)
        requires
            self.limits_fixed(),
        ensures
            r == self.due(now_ms),
    {
        let waited = now_ms >= self.last_flush_ms && now_ms - self.last_flush_ms >= self.max_batch_time_ms;
        !self.pending_events.is_empty() && (self.pending_events.len() >= self.max_batch_size || waited
            || self.has_critical_events())
    }

    /// Whether a button or key event is queued.
    fn has_critical_events(&self) -> (r: bool)
        ensures
            r == exists|i: int| 0 <= i < self.pending().len() && is_critical(#[trigger] self.pending()[i]),
    {
        let mut i: usize = 0;
        while i < self.pending_events.len()
            invariant
                i <= self.pending_events@.len(),
                forall|k: int| 0 <= k < i ==> !is_critical(#[trigger] self.pending_events@[k]),
            decreases self.pending_events@.len() - i,
        {
            if self.pending_events[i].is_critical() {
                assert(is_critical(self.pending()[i as int]));
                return true;
            }
            i = i + 1;
        }
        false
    }

    /// Hands out the queued events, oldest first, and empties the queue.
    pub fn flush(&mut self, now_ms: u64) -> (r: Vec<InputEvent>)
        requires
            old(self).limits_fixed(),
        ensures
            r@ == old(self).pending(),
            final(self).pending() == Seq::<InputEvent>::empty(),
            final(self).last_flush() == now_ms,
            final(self).last_mouse() == old(self).last_mouse(),
            final(self).limits_fixed(),
    {
        self.last_flush_ms = now_ms;
        let mut taken: Vec<InputEvent> = Vec::new();
        core::mem::swap(&mut taken, &mut self.pending_events);
        taken
    }

    /// Hands out the queued events if they are due at `now_ms`; otherwise hands out
    /// nothing and leaves the queue as it is.
    pub fn maybe_flush(&mut self, now_ms: u64) -> (r: Vec<InputEvent>)
        requires
            old(self).limits_fixed(),
        ensures
            final(self).limits_fixed(),
            old(self).due(now_ms) ==> {
                &&& r@ == old(self).pending()
                &&& final(self).pending() == Seq::<InputEvent>::empty()
                &&& final(self).last_flush() == now_ms
            },
            !old(self).due(now_ms) ==> r@ == Seq::<InputEvent>::empty() && *final(self) == *old(self),
    {
        if self.should_flush(now_ms) {
            self.flush(now_ms)
        } else {
            Vec::new()
        }
    }
}

/// Filtering pointer moves out leaves none.
proof fn lemma_kept_has_no_moves(s: Seq<InputEvent>)
    ensures
        forall|i: int| 0 <= i < s.filter(keep_pred()).len() ==> !is_move(#[trigger] s.filter(keep_pred())[i]),
{
    assert forall|i: int| 0 <= i < s.filter(keep_pred()).len() implies !is_move(#[trigger] s.filter(keep_pred())[i]) by {
        assert(keep_pred()(s.filter(keep_pred())[i]));
    }
}

/// A queue with pointer moves filtered out holds no pointer move.
proof fn lemma_filter_removes_moves(s: Seq<InputEvent>)
    requires
        forall|i: int| 0 <= i < s.len() ==> !is_move(#[trigger] s[i]),
    ensures
        s.filter(move_pred()).len() == 0,
    decreases s.len(),
{
    reveal(Seq::filter);
    if s.len() > 0 {
        lemma_filter_removes_moves(s.drop_last());
        assert(!is_move(s.last()));
    }
}

} // verus!
