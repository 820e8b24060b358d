use vstd::prelude::*;
use vstd::slice::slice_to_vec;
use crate::framebuffer::FrameBuffer;
use crate::input::FastPathInput;
use crate::session::{RdpClient, RdpError, StageOutput, StepResult, outputs_handled};
use ironrdp_pdu::Action;
use ironrdp_pdu::input::fast_path::{FastPathInputEvent, KeyboardFlags};
use ironrdp_pdu::input::mouse::{MousePdu, PointerFlags};
use ironrdp_session::{ActiveStage, ActiveStageOutput};
use ironrdp_session::image::DecodedImage;

verus! {

#[verifier::external_type_specification]
#[verifier::external_body]
pub struct ExActiveStage(ActiveStage);

#[verifier::external_type_specification]
#[verifier::external_body]
pub struct ExActiveStageOutput(ActiveStageOutput);

#[verifier::external_type_specification]
#[verifier::external_body]
pub struct ExDecodedImage(DecodedImage);

#[verifier::external_type_specification]
#[verifier::external_body]
pub struct ExAction(Action);

#[verifier::external_type_specification]
#[verifier::external_body]
pub struct ExFastPathInputEvent(FastPathInputEvent);

/// Relies on the variants of `ironrdp_session::ActiveStageOutput`: each is carried over
/// with its fields; pointer shapes, terminate reasons and the rarer outputs are dropped.
#[verifier::external_body]
fn stage_output(o: ActiveStageOutput) -> StageOutput {
    match o {
        ActiveStageOutput::ResponseFrame(bytes) => StageOutput::ResponseFrame(bytes),
        ActiveStageOutput::GraphicsUpdate(r) => StageOutput::GraphicsUpdate { left: r.left, top: r.top, right: r.right, bottom: r.bottom },
        ActiveStageOutput::PointerDefault => StageOutput::PointerDefault,
        ActiveStageOutput::PointerHidden => StageOutput::PointerHidden,
        ActiveStageOutput::PointerPosition { x, y } => StageOutput::PointerPosition { x, y },
        ActiveStageOutput::PointerBitmap(_) => StageOutput::PointerBitmap,
        ActiveStageOutput::Terminate(_) => StageOutput::Terminate,
        ActiveStageOutput::DeactivateAll { .. } => StageOutput::DeactivateAll,
        _ => StageOutput::Other,
    }
}

/// Relies on `PointerFlags::from_bits_truncate` and `KeyboardFlags::from_bits_truncate`:
/// the input event of ironrdp with the same flag bits and values.
#[verifier::external_body]
fn fastpath_event(input: FastPathInput) -> FastPathInputEvent {
    match input {
        FastPathInput::Mouse { flags, wheel_rotation_units, x, y } => FastPathInputEvent::MouseEvent(MousePdu {
            flags: PointerFlags::from_bits_truncate(flags),
            number_of_wheel_rotation_units: wheel_rotation_units,
            x_position: x,
            y_position: y,
        }),
        FastPathInput::Keyboard { key_flags, scancode } => {
            FastPathInputEvent::KeyboardEvent(KeyboardFlags::from_bits_truncate(key_flags), scancode)
        },
    }
}

/// Relies on `ActiveStage::process`: decodes one PDU, draws what it carries into
/// `image`, and lists the outputs. What comes out depends on the state machine's state,
/// so nothing is promised of it.
#[verifier::external_body]
fn stage_process(stage: &mut ActiveStage, image: &mut DecodedImage, action: Action, payload: &[u8]) -> Result<
    Vec<StageOutput>,
    String,
> {
    stage.process(image, action, payload).map(|o| o.into_iter().map(stage_output).collect()).map_err(|e| format!("{e:?}"))
}

/// Relies on `ActiveStage::process_fastpath_input`: encodes one input event and lists
/// the outputs. Nothing is promised of them.
#[verifier::external_body]
fn stage_input(stage: &mut ActiveStage, image: &mut DecodedImage, event: FastPathInputEvent) -> Result<
    Vec<StageOutput>,
    String,
> {
    stage.process_fastpath_input(image, &[event]).map(|o| o.into_iter().map(stage_output).collect()).map_err(
        |e| format!("{e:?}"),
    )
}

/// Relies on `DecodedImage::data`: the decoded pixels. Their number is not promised.
#[verifier::external_body]
fn image_pixels(image: &DecodedImage) -> &[u8] {
    image.data()
}

/// Whether any output is a graphics update.
fn any_graphics_update(outputs: &Vec<StageOutput>) -> (r: bool)
    ensures
        r == exists|i: int| 0 <= i < outputs@.len() && (#[trigger] outputs@[i]) is GraphicsUpdate,
{
    let mut i: usize = 0;
    while i < outputs.len()
        invariant
            i <= outputs@.len(),
            forall|k: int| 0 <= k < i ==> !((#[trigger] outputs@[k]) is GraphicsUpdate),
        decreases outputs@.len() - i,
    {
        if let StageOutput::GraphicsUpdate { .. } = &outputs[i] {
            assert(outputs@[i as int] is GraphicsUpdate);
            return true;
        }
        i = i + 1;
    }
    false
}

/// The frames to send back among `outputs`, in order.
pub open spec fn response_frames(outputs: Seq<StageOutput>) -> Seq<Vec<u8>>
    decreases outputs.len(),
{
    if outputs.len() == 0 {
        Seq::empty()
    } else {
        let before = response_frames(outputs.drop_last());
        match outputs.last() {
            StageOutput::ResponseFrame(b) => before.push(b),
            _ => before,
        }
    }
}

/// Whether any output is a graphics update.
pub open spec fn has_graphics_update(outputs: Seq<StageOutput>) -> bool {
    exists|i: int| 0 <= i < outputs.len() && (#[trigger] outputs[i]) is GraphicsUpdate
}

/// The frame's pixels after a step: the decoded image's when the state machine
/// reported a changed screen and the image fills the frame exactly; otherwise as before.
pub open spec fn refreshed_pixels(outcome: Result<Vec<StageOutput>, String>, pixels: Seq<u8>, before: Seq<u8>) -> Seq<u8> {
    if (outcome matches Ok(o) && has_graphics_update(o@)) && pixels.len() == before.len() {
        pixels
    } else {
        before
    }
}

/// `r`, `after` and `frame_after` are what the state machine's answer `outcome` to one
/// PDU makes of session `before` and its frame, the decoded image holding `pixels`: a
/// rejection is a processing error that changes nothing else; otherwise the frame is
/// refreshed and the outputs are acted on.
pub open spec fn step_applied(
    before: RdpClient,
    after: RdpClient,
    outcome: Result<Vec<StageOutput>, String>,
    pixels: Seq<u8>,
    frame_before: FrameBuffer,
    frame_after: FrameBuffer,
    r: Result<StepResult, RdpError>,
) -> bool {
    &&& frame_after.width == frame_before.width
    &&& frame_after.height == frame_before.height
    &&& frame_after.data@ == refreshed_pixels(outcome, pixels, frame_before.data@)
    &&& match outcome {
        Err(d) => r == Err::<StepResult, RdpError>(RdpError::Process(d)) && after == before,
        Ok(o) => r is Ok && outputs_handled(before, after, o@, frame_after, r->Ok_0),
    }
}

/// Like `step_applied`, except that a disconnected session takes no step: it answers
/// with no frames and no update, and nothing changes.
pub open spec fn pdu_processed(
    before: RdpClient,
    after: RdpClient,
    outcome: Result<Vec<StageOutput>, String>,
    pixels: Seq<u8>,
    frame_before: FrameBuffer,
    frame_after: FrameBuffer,
    r: Result<StepResult, RdpError>,
) -> bool {
    if before.spec_connected() {
        step_applied(before, after, outcome, pixels, frame_before, frame_after, r)
    } else {
        &&& after == before
        &&& frame_after == frame_before
        &&& r is Ok
        &&& r->Ok_0.responses@.len() == 0
        &&& r->Ok_0.update is None
    }
}

/// `r` is what the state machine's answer `outcome` to an input event makes: a
/// rejection is a processing error; otherwise the response frames, in order.
pub open spec fn responses_collected(outcome: Result<Vec<StageOutput>, String>, r: Result<Vec<Vec<u8>>, RdpError>) -> bool {
    match outcome {
        Err(d) => r == Err::<Vec<Vec<u8>>, RdpError>(RdpError::Process(d)),
        Ok(o) => r is Ok && r->Ok_0@ == response_frames(o@),
    }
}

/// `r` is what encoding `input` for session `client` gives: refused while disconnected,
/// otherwise the frames of whatever the state machine answered.
pub open spec fn input_encoded(client: RdpClient, r: Result<Vec<Vec<u8>>, RdpError>) -> bool {
    if client.spec_connected() {
        exists|outcome: Result<Vec<StageOutput>, String>| responses_collected(outcome, r)
    } else {
        r == Err::<Vec<Vec<u8>>, RdpError>(RdpError::NotConnected)
    }
}

/// Runs one PDU through the protocol state machine, which draws into `image`, and
/// hands back its answer: the outputs, or why it rejected the PDU.
pub fn decode_pdu(stage: &mut ActiveStage, image: &mut DecodedImage, action: Action, payload: &[u8]) -> Result<
    Vec<StageOutput>,
    String,
> {
    stage_process(stage, image, action, payload)
}

/// The pixels of the decoded image.
pub(crate) fn decoded_pixels(image: &DecodedImage) -> &[u8] {
    image_pixels(image)
}

/// The response frames among `outputs`, in order.
pub fn response_frames_of(outputs: Vec<StageOutput>) -> (r: Vec<Vec<u8>>)
    ensures
        r@ == response_frames(outputs@),
{
    let ghost all = outputs@;
    let mut rest = outputs;
    let mut frames: Vec<Vec<u8>> = Vec::new();
    let ghost mut k: int = 0;
    while rest.len() > 0
        invariant
            0 <= k <= all.len(),
            rest@ == all.subrange(k, all.len() as int),
            frames@ == response_frames(all.subrange(0, k)),
        decreases rest@.len(),
    {
        let output = rest.remove(0);
        proof {
            assert(output == all[k]);
            assert(all.subrange(0, k + 1).drop_last() =~= all.subrange(0, k));
            assert(rest@ =~= all.subrange(k + 1, all.len() as int));
        }
        if let StageOutput::ResponseFrame(bytes) = output {
            frames.push(bytes);
        }
        proof {
            k = k + 1;
        }
    }
    assert(all.subrange(0, k) =~= all);
    frames
}

/// The frames to send for the state machine's answer to an input event, or the
/// processing error when it rejected the event.
pub fn collect_responses(outcome: Result<Vec<StageOutput>, String>) -> (r: Result<Vec<Vec<u8>>, RdpError>)
    ensures
        responses_collected(outcome, r),
{
    match outcome {
        Ok(outputs) => Ok(response_frames_of(outputs)),
        Err(detail) => Err(RdpError::Process(detail)),
    }
}

impl RdpClient {
    /// Acts on the state machine's answer to one PDU: a rejection is a processing
    /// error; otherwise, when the screen changed, `frame` takes the decoded image's
    /// `pixels` (if they fill it exactly), and the outputs are acted on as
    /// `handle_outputs` does.
    pub fn apply_step(
        &mut self,
        outcome: Result<Vec<StageOutput>, String>,
        pixels: &[u8],
        frame: &mut FrameBuffer,
    ) -> (r: Result<StepResult, RdpError>)
        requires
            old(frame).wf(),
            old(frame).width == old(self).spec_width(),
            old(frame).height == old(self).spec_height(),
        ensures
            final(frame).wf(),
            step_applied(*old(self), *final(self), outcome, pixels@, *old(frame), *final(frame), r),
    {
        match outcome {
            Err(detail) => Err(RdpError::Process(detail)),
            Ok(outputs) => {
                if any_graphics_update(&outputs) && pixels.len() == frame.data.len() {
                    frame.data = slice_to_vec(pixels);
                }
                let step = self.handle_outputs(outputs, frame);
                Ok(step)
            },
        }
    }

    /// Runs one PDU through the protocol state machine, which draws into `image`, and
    /// acts on its answer as `apply_step` does. A disconnected session processes
    /// nothing.
    pub fn process_pdu(
        &mut self,
        stage: &mut ActiveStage,
        image: &mut DecodedImage,
        frame: &mut FrameBuffer,
        action: Action,
        payload: &[u8],
    ) -> (r: Result<StepResult, RdpError>)
        requires
            old(frame).wf(),
            old(frame).width == old(self).spec_width(),
            old(frame).height == old(self).spec_height(),
        ensures
            final(frame).wf(),
            exists|outcome: Result<Vec<StageOutput>, String>, pixels: Seq<u8>|
                pdu_processed(*old(self), *final(self), outcome, pixels, *old(frame), *final(frame), r),
    {
        if !self.is_connected() {
            let r = Ok(StepResult { responses: Vec::new(), update: None });
            assert(pdu_processed(*old(self), *self, arbitrary(), Seq::empty(), *old(frame), *frame, r));
            return r;
        }
        let outcome = stage_process(stage, image, action, payload);
        let ghost answer = outcome;
        let pixels = image_pixels(image);
        let r = self.apply_step(outcome, pixels, frame);
        assert(pdu_processed(*old(self), *self, answer, pixels@, *old(frame), *frame, r));
        r
    }

    /// Encodes `input` through the protocol state machine and returns the frames to
    /// send, in order; refused while the session is disconnected.
    pub fn encode_input(
        &self,
        stage: &mut ActiveStage,
        image: &mut DecodedImage,
        input: FastPathInput,
    ) -> (r: Result<Vec<Vec<u8>>, RdpError>)
        ensures
            input_encoded(*self, r),
    {
        if !self.is_connected() {
            return Err(RdpError::NotConnected);
        }
        let outcome = stage_input(stage, image, fastpath_event(input));
        let ghost answer = outcome;
        let r = collect_responses(outcome);
        assert(responses_collected(answer, r));
        r
    }
}

} // verus!
