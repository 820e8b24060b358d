use base64::Engine;
use openterm_rdp::frame::RdpConnectionInfo;
use openterm_rdp::framebuffer::FrameBuffer;
use openterm_rdp::session::{RdpClient, RdpError, StageOutput};
use openterm_rdp::stage::{collect_responses, response_frames_of};

fn client(w: u16, h: u16) -> RdpClient {
    RdpClient::new(
        RdpConnectionInfo { host: "h".to_string(), port: 1, username: "u".to_string(), domain: None },
        w,
        h,
    )
}

#[test]
fn rejected_pdu_is_a_processing_error_and_changes_nothing() {
    let mut c = client(2, 2);
    let mut fb = FrameBuffer::new(2, 2);
    let pixels = vec![5u8; 16];
    let r = c.apply_step(Err("bad pdu".to_string()), &pixels, &mut fb);
    assert!(matches!(r, Err(RdpError::Process(d)) if d == "bad pdu"));
    assert!(fb.data.iter().all(|b| *b == 0));
    assert!(c.is_connected());
}

#[test]
fn graphics_update_refreshes_the_frame_first() {
    let mut c = client(2, 2);
    let mut fb = FrameBuffer::new(2, 2);
    let pixels: Vec<u8> = (0..16).collect();
    let r = c
        .apply_step(
            Ok(vec![StageOutput::GraphicsUpdate { left: 1, top: 0, right: 1, bottom: 1 }, StageOutput::ResponseFrame(vec![9])]),
            &pixels,
            &mut fb,
        )
        .unwrap();
    assert_eq!(fb.data, pixels);
    assert_eq!(r.responses, vec![vec![9]]);
    let rects = r.update.expect("an update");
    assert_eq!((rects[0].x, rects[0].y, rects[0].width, rects[0].height), (1, 0, 1, 2));
    let decoded = base64::engine::general_purpose::STANDARD.decode(&rects[0].data).unwrap();
    assert_eq!(decoded, vec![4, 5, 6, 7, 12, 13, 14, 15]);
}

#[test]
fn no_graphics_update_leaves_the_frame() {
    let mut c = client(2, 2);
    let mut fb = FrameBuffer::new(2, 2);
    let pixels = vec![1u8; 16];
    let r = c.apply_step(Ok(vec![StageOutput::PointerHidden]), &pixels, &mut fb).unwrap();
    assert!(r.update.is_none());
    assert!(fb.data.iter().all(|b| *b == 0));
}

#[test]
fn mis_sized_image_does_not_replace_the_frame() {
    let mut c = client(2, 2);
    let mut fb = FrameBuffer::new(2, 2);
    let pixels = vec![1u8; 15];
    let r = c.apply_step(Ok(vec![StageOutput::GraphicsUpdate { left: 0, top: 0, right: 0, bottom: 0 }]), &pixels, &mut fb);
    assert!(r.unwrap().update.is_some());
    assert!(fb.data.iter().all(|b| *b == 0));
}

#[test]
fn input_answers_keep_only_response_frames() {
    let r = collect_responses(Ok(vec![
        StageOutput::ResponseFrame(vec![1]),
        StageOutput::PointerDefault,
        StageOutput::Terminate,
        StageOutput::ResponseFrame(vec![2]),
    ]));
    assert_eq!(r, Ok(vec![vec![1], vec![2]]));
    assert_eq!(collect_responses(Err("no".to_string())), Err(RdpError::Process("no".to_string())));
    assert!(response_frames_of(Vec::new()).is_empty());
}
