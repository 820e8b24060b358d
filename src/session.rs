use vstd::prelude::*;
use crate::coalesce::{Bounds, bounds_of, min_int};
use crate::frame::{DirtyRect, RdpConnectionInfo};
use crate::framebuffer::FrameBuffer;
use crate::input::{
    FastPathInput, InputEvent, spec_fastpath, mouse_move_input, mouse_button_input, mouse_wheel_input,
    keyboard_input,
};

verus! {

/// One output of the protocol state machine after it consumed a unit of input.
#[derive(Debug)]
pub enum StageOutput {
    /// Bytes that must go back to the server.
    ResponseFrame(Vec<u8>),
    /// The pixels of this region changed; the corners are inclusive screen coordinates.
    GraphicsUpdate { left: u16, top: u16, right: u16, bottom: u16 },
    PointerDefault,
    PointerHidden,
    PointerPosition { x: u16, y: u16 },
    PointerBitmap,
    /// The server ended the session.
    Terminate,
    /// The server asked for the display to be deactivated.
    DeactivateAll,
    /// Anything else, which the display pipeline ignores.
    Other,
}

/// How a read from the transport failed.
#[derive(Debug, Clone, Copy, PartialEq, Eq, Structural)]
pub enum ReadErrorKind {
    WouldBlock,
    TimedOut,
    UnexpectedEof,
    ConnectionReset,
    Other,
}

/// Errors of a running session.
#[derive(Debug, Clone, PartialEq, Eq)]
pub enum RdpError {
    /// No session is registered under the given id.
    SessionNotFound,
    /// The session is no longer connected.
    NotConnected,
    /// The server closed the connection.
    ConnectionClosed,
    /// Reading from the transport failed.
    Read(String),
    /// The protocol state machine rejected what it was given.
    Process(String),
    /// Writing to the transport failed.
    Write(String),
}

/// What one processing step produced: frames to send back, in order, and the
/// changed regions, if any.
pub struct StepResult {
    pub responses: Vec<Vec<u8>>,
    pub update: Option<Vec<DirtyRect>>,
}

/// The region of an inclusive-corner update clipped to a `w`-by-`h` screen.
pub open spec fn clamp_region(w: int, h: int, left: int, top: int, right: int, bottom: int) -> Bounds {
    let x = min_int(left, w);
    let y = min_int(top, h);
    let x_end = min_int(right + 1, w);
    let y_end = min_int(bottom + 1, h);
    Bounds {
        x: x as u16,
        y: y as u16,
        width: if x_end > x { (x_end - x) as u16 } else { 0u16 },
        height: if y_end > y { (y_end - y) as u16 } else { 0u16 },
    }
}

/// Whether a terminate output occurs in `s`.
pub open spec fn terminated_in(s: Seq<StageOutput>) -> bool {
    exists|i: int| 0 <= i < s.len() && (#[trigger] s[i]) is Terminate
}

/// The response frames that come before the first terminate output, in order.
pub open spec fn responses_in(s: Seq<StageOutput>) -> Seq<Vec<u8>>
    decreases s.len(),
{
    if s.len() == 0 {
        Seq::empty()
    } else {
        let before = responses_in(s.drop_last());
        if terminated_in(s.drop_last()) {
            before
        } else {
            match s.last() {
                StageOutput::ResponseFrame(b) => before.push(b),
                _ => before,
            }
        }
    }
}

/// The clipped regions of the graphics updates that come before the first terminate
/// output, in order.
pub open spec fn regions_in(s: Seq<StageOutput>, w: int, h: int) -> Seq<Bounds>
    decreases s.len(),
{
    if s.len() == 0 {
        Seq::empty()
    } else {
        let before = regions_in(s.drop_last(), w, h);
        if terminated_in(s.drop_last()) {
            before
        } else {
            match s.last() {
                StageOutput::GraphicsUpdate { left, top, right, bottom } => before.push(
                    clamp_region(w, h, left as int, top as int, right as int, bottom as int),
                ),
                _ => before,
            }
        }
    }
}

/// After a terminate output, later outputs change neither the responses nor the regions.
proof fn lemma_after_terminate(s: Seq<StageOutput>, k: int, w: int, h: int)
    requires
        0 <= k <= s.len(),
        terminated_in(s.subrange(0, k)),
    ensures
        responses_in(s) == responses_in(s.subrange(0, k)),
        regions_in(s, w, h) == regions_in(s.subrange(0, k), w, h),
        terminated_in(s),
    decreases s.len() - k,
{
    if k < s.len() {
        let next = s.subrange(0, k + 1);
        assert(next.drop_last() =~= s.subrange(0, k));
        let i = choose|i: int| 0 <= i < k && (#[trigger] s.subrange(0, k)[i]) is Terminate;
        assert(next[i] == s.subrange(0, k)[i]);
        lemma_after_terminate(s, k + 1, w, h);
    } else {
        assert(s.subrange(0, k) =~= s);
    }
}

/// `r` and `after` are what a failed read of kind `kind` makes of session `before`:
/// a timeout is no update; a closed connection disconnects and is reported as closed;
/// anything else is a read error that leaves the session as it was.
pub open spec fn read_failure_handled(
    before: RdpClient,
    after: RdpClient,
    kind: ReadErrorKind,
    detail: String,
    r: Result<Option<Vec<DirtyRect>>, RdpError>,
) -> bool {
    &&& after.spec_width() == before.spec_width()
    &&& after.spec_height() == before.spec_height()
    &&& after.spec_info() == before.spec_info()
    &&& (kind is WouldBlock || kind is TimedOut) ==> r == Ok::<Option<Vec<DirtyRect>>, RdpError>(None)
        && after.spec_connected() == before.spec_connected()
    &&& (kind is UnexpectedEof || kind is ConnectionReset) ==> r == Err::<Option<Vec<DirtyRect>>, RdpError>(
        RdpError::ConnectionClosed,
    ) && !after.spec_connected()
    &&& kind is Other ==> r == Err::<Option<Vec<DirtyRect>>, RdpError>(RdpError::Read(detail))
        && after.spec_connected() == before.spec_connected()
}

/// `r` and `after` are what acting on `outputs` over `frame` makes of session
/// `before`: responses up to the first terminate output, which disconnects; one
/// rectangle per graphics update before it, clipped to the screen and carrying the
/// pixels that `frame` holds there; and no update when there is none, or after a
/// terminate output.
pub open spec fn outputs_handled(
    before: RdpClient,
    after: RdpClient,
    outputs: Seq<StageOutput>,
    frame: FrameBuffer,
    r: StepResult,
) -> bool {
    let regions = regions_in(outputs, frame.width as int, frame.height as int);
    &&& after.spec_width() == before.spec_width()
    &&& after.spec_height() == before.spec_height()
    &&& after.spec_info() == before.spec_info()
    &&& after.spec_connected() == (before.spec_connected() && !terminated_in(outputs))
    &&& r.responses@ == responses_in(outputs)
    &&& terminated_in(outputs) ==> r.update is None
    &&& !terminated_in(outputs) ==> (r.update is None <==> regions.len() == 0)
    &&& r.update matches Some(rects) ==> {
        &&& rects@.len() == regions.len()
        &&& forall|i: int|
            0 <= i < rects@.len() ==> bounds_of(#[trigger] rects@[i]) == regions[i] && rects@[i].shows(frame)
    }
}

/// The state of one remote-desktop session that the display pipeline decides on.
pub struct RdpClient {
    connection_info: RdpConnectionInfo,
    width: u16,
    height: u16,
    connected: bool,
}

impl RdpClient {
    pub closed spec fn spec_width(&self) -> u16 {
        self.width
    }

    pub closed spec fn spec_height(&self) -> u16 {
        self.height
    }

    pub closed spec fn spec_connected(&self) -> bool {
        self.connected
    }

    pub closed spec fn spec_info(&self) -> RdpConnectionInfo {
        self.connection_info
    }

    /// A connected session of the negotiated size.
    pub fn new(connection_info: RdpConnectionInfo, width: u16, height: u16) -> (r: Self)
        ensures
            r.spec_width() == width,
            r.spec_height() == height,
            r.spec_connected(),
            r.spec_info() == connection_info,
    {
        RdpClient { connection_info, width, height, connected: true }
    }

    pub fn width(&self) -> (r: u16)
        ensures
            r == self.spec_width(),
    {
        self.width
    }

    pub fn height(&self) -> (r: u16)
        ensures
            r == self.spec_height(),
    {
        self.height
    }

    pub fn is_connected(&self) -> (r: bool)
        ensures
            r == self.spec_connected(),
    {
        self.connected
    }

    /// Marks the session disconnected; nothing else changes.
    pub fn disconnect(&mut self)
        ensures
            !final(self).spec_connected(),
            final(self).spec_width() == old(self).spec_width(),
            final(self).spec_height() == old(self).spec_height(),
            final(self).spec_info() == old(self).spec_info(),
    {
        self.connected = false;
    }

    pub fn connection_info(&self) -> (r: &RdpConnectionInfo)
        ensures
            *r == self.spec_info(),
    {
        &self.connection_info
    }

    /// What a failed read means: a timeout is no update; a closed connection
    /// disconnects the session; anything else is an error that leaves it as it is.
    pub fn read_failed(&mut self, kind: ReadErrorKind, detail: String) -> (r: Result<
        Option<Vec<DirtyRect>>,
        RdpError,
    >)
        ensures
            read_failure_handled(*old(self), *final(self), kind, detail, r),
    {
        match kind {
            ReadErrorKind::WouldBlock | ReadErrorKind::TimedOut => Ok(None),
            ReadErrorKind::UnexpectedEof | ReadErrorKind::ConnectionReset => {
                self.connected = false;
                Err(RdpError::ConnectionClosed)
            },
            ReadErrorKind::Other => Err(RdpError::Read(detail)),
        }
    }

    /// Acts on the outputs of one protocol step, in order, up to the first terminate
    /// output: response frames are collected to be sent back, and each graphics update
    /// becomes a rectangle with the pixels that `frame` holds over it, clipped to the
    /// screen. A terminate output disconnects the session, and the step then reports
    /// no update.
    pub fn handle_outputs(&mut self, outputs: Vec<StageOutput>, frame: &FrameBuffer) -> (r: StepResult)
        requires
            frame.wf(),
        ensures
            outputs_handled(*old(self), *final(self), outputs@, *frame, r),
    {
        let ghost all = outputs@;
        let ghost fw = frame.width as int;
        let ghost fh = frame.height as int;
        let mut rest = outputs;
        let mut responses: Vec<Vec<u8>> = Vec::new();
        let mut rects: Vec<DirtyRect> = Vec::new();
        let mut terminated = false;
        let ghost mut k: int = 0;
        while rest.len() > 0
            invariant_except_break
                !terminated,
            invariant
                frame.wf(),
                fw == frame.width,
                fh == frame.height,
                0 <= k <= all.len(),
                rest@ == all.subrange(k, all.len() as int),
                terminated == terminated_in(all.subrange(0, k)),
                responses@ == responses_in(all.subrange(0, k)),
                rects@.len() == regions_in(all.subrange(0, k), fw, fh).len(),
                forall|i: int|
                    0 <= i < rects@.len() ==> bounds_of(#[trigger] rects@[i]) == regions_in(
                        all.subrange(0, k),
                        fw,
                        fh,
                    )[i] && rects@[i].shows(*frame),
            ensures
                terminated ==> terminated_in(all.subrange(0, k)),
                !terminated ==> k == all.len(),
                responses@ == responses_in(all.subrange(0, k)),
                rects@.len() == regions_in(all.subrange(0, k), fw, fh).len(),
                forall|i: int|
                    0 <= i < rects@.len() ==> bounds_of(#[trigger] rects@[i]) == regions_in(
                        all.subrange(0, k),
                        fw,
                        fh,
                    )[i] && rects@[i].shows(*frame),
            decreases rest@.len(),
        {
            let ghost prefix = all.subrange(0, k);
            let ghost next = all.subrange(0, k + 1);
            let output = rest.remove(0);
            proof {
                assert(output == all[k]);
                assert(next.drop_last() =~= prefix);
                assert(next.last() == output);
                assert(rest@ =~= all.subrange(k + 1, all.len() as int));
                assert(!terminated_in(prefix));
            }
            match output {
                StageOutput::ResponseFrame(bytes) => {
                    responses.push(bytes);
                },
                StageOutput::GraphicsUpdate { left, top, right, bottom } => {
                    let b = clip_update(frame.width, frame.height, left, top, right, bottom);
                    rects.push(DirtyRect::capture(frame, b.x, b.y, b.width, b.height));
                },
                StageOutput::Terminate => {
                    terminated = true;
                },
                _ => {},
            }
            proof {
                k = k + 1;
                if terminated {
                    assert(next[k - 1] is Terminate);
                    assert(terminated_in(next));
                } else {
                    assert forall|i: int| 0 <= i < next.len() implies !((#[trigger] next[i]) is Terminate) by {
                        if i < next.len() - 1 {
                            assert(next[i] == prefix[i]);
                        }
                    }
                }
            }
            if terminated {
                break;
            }
        }
        proof {
            if terminated {
                lemma_after_terminate(all, k, fw, fh);
            } else {
                assert(all.subrange(0, k) =~= all);
            }
        }
        if terminated {
            self.connected = false;
            StepResult { responses, update: None }
        } else if rects.len() == 0 {
            StepResult { responses, update: None }
        } else {
            StepResult { responses, update: Some(rects) }
        }
    }

    /// The pointer-move input to send, unless the session is disconnected.
    pub fn send_mouse_move(&self, x: u16, y: u16) -> (r: Result<FastPathInput, RdpError>)
        ensures
            r == if self.spec_connected() {
                Ok(spec_fastpath(InputEvent::MouseMove { x, y }))
            } else {
                Err::<FastPathInput, RdpError>(RdpError::NotConnected)
            },
    {
        if !self.connected {
            return Err(RdpError::NotConnected);
        }
        Ok(mouse_move_input(x, y))
    }

    /// The button input to send, unless the session is disconnected.
    pub fn send_mouse_button(&self, button: u8, down: bool, x: u16, y: u16) -> (r: Result<FastPathInput, RdpError>)
        ensures
            r == if self.spec_connected() {
                Ok(spec_fastpath(InputEvent::MouseButton { button, down, x, y }))
            } else {
                Err::<FastPathInput, RdpError>(RdpError::NotConnected)
            },
    {
        if !self.connected {
            return Err(RdpError::NotConnected);
        }
        Ok(mouse_button_input(button, down, x, y))
    }

    /// The wheel input to send, unless the session is disconnected.
    pub fn send_mouse_wheel(&self, delta: i16, x: u16, y: u16) -> (r: Result<FastPathInput, RdpError>)
        ensures
            r == if self.spec_connected() {
                Ok(spec_fastpath(InputEvent::MouseWheel { delta, x, y }))
            } else {
                Err::<FastPathInput, RdpError>(RdpError::NotConnected)
            },
    {
        if !self.connected {
            return Err(RdpError::NotConnected);
        }
        Ok(mouse_wheel_input(delta, x, y))
    }

    /// The key input to send, unless the session is disconnected.
    pub fn send_keyboard(&self, scancode: u16, down: bool) -> (r: Result<FastPathInput, RdpError>)
        ensures
            r == if self.spec_connected() {
                Ok(spec_fastpath(InputEvent::Keyboard { scancode, down }))
            } else {
                Err::<FastPathInput, RdpError>(RdpError::NotConnected)
            },
    {
        if !self.connected {
            return Err(RdpError::NotConnected);
        }
        Ok(keyboard_input(scancode, down))
    }

    /// The input to send for `event`, unless the session is disconnected.
    pub fn send_input(&self, event: InputEvent) -> (r: Result<FastPathInput, RdpError>)
        ensures
            r == if self.spec_connected() {
                Ok(spec_fastpath(event))
            } else {
                Err::<FastPathInput, RdpError>(RdpError::NotConnected)
            },
    {
        match event {
            InputEvent::MouseMove { x, y } => self.send_mouse_move(x, y),
            InputEvent::MouseButton { button, down, x, y } => self.send_mouse_button(button, down, x, y),
            InputEvent::MouseWheel { delta, x, y } => self.send_mouse_wheel(delta, x, y),
            InputEvent::Keyboard { scancode, down } => self.send_keyboard(scancode, down),
        }
    }
}

/// The region of an inclusive-corner update, clipped to a `w`-by-`h` screen.
pub fn clip_update(w: u16, h: u16, left: u16, top: u16, right: u16, bottom: u16) -> (r: Bounds)
    ensures
        r == clamp_region(w as int, h as int, left as int, top as int, right as int, bottom as int),
        r.x + r.width <= w,
        r.y + r.height <= h,
{
    let x: u16 = if left <= w { left } else { w };
    let y: u16 = if top <= h { top } else { h };
    let x_end: u32 = if right as u32 + 1 <= w as u32 { right as u32 + 1 } else { w as u32 };
    let y_end: u32 = if bottom as u32 + 1 <= h as u32 { bottom as u32 + 1 } else { h as u32 };
    let width: u16 = if x_end > x as u32 { (x_end - x as u32) as u16 } else { 0 };
    let height: u16 = if y_end > y as u32 { (y_end - y as u32) as u16 } else { 0 };
    Bounds { x, y, width, height }
}

} // verus!
